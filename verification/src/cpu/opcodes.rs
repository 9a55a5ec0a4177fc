//! One method per instruction.
use vstd::arithmetic::div_mod::{lemma_fundamental_div_mod, lemma_fundamental_div_mod_converse};
use vstd::prelude::*;

use super::Chip8;
use crate::error::{Chip8Error, Result};
use crate::instruction::Instruction;
use crate::semantics::{
    draw_sprite, execute_defined, first_released_from, key_released, next_state, outcome,
    rows_drawn, sprite_bit, sprite_covers, Chip8View,
};
use crate::{FONTSET_START_ADDRESS, FRAMEBUFFER_LEN, KEY_COUNT, SCREEN_HEIGHT, SCREEN_WIDTH};

verus! {

/// Drawing order of pixel `p` within the sprite placed at `(x0, y0)`: row-major, eight per row.
spec fn pixel_order(x0: int, y0: int, p: int) -> int {
    (p / (SCREEN_WIDTH as int) - y0) * 8 + (p % (SCREEN_WIDTH as int) - x0)
}

/// Pixel `p` is flipped by the sprite and comes before position `k` in drawing order.
spec fn drawn_before(s: Chip8View, x0: int, y0: int, n: int, k: int, p: int) -> bool {
    sprite_covers(s, x0, y0, n, p) && pixel_order(x0, y0, p) < k
}

/// Some pixel drawn before position `k` was lit before the draw.
spec fn collided_before(s: Chip8View, x0: int, y0: int, n: int, k: int) -> bool {
    exists|p: int|
        0 <= p < FRAMEBUFFER_LEN && #[trigger] drawn_before(s, x0, y0, n, k, p) && s.framebuffer[p]
}

/// Row and column of the pixel at `(y0 + row) * SCREEN_WIDTH + x0 + col`.
proof fn lemma_pixel_coordinates(x0: int, y0: int, row: int, col: int)
    requires
        0 <= x0 + col < SCREEN_WIDTH,
        0 <= y0 + row,
    ensures
        ((y0 + row) * SCREEN_WIDTH + x0 + col) / (SCREEN_WIDTH as int) == y0 + row,
        ((y0 + row) * SCREEN_WIDTH + x0 + col) % (SCREEN_WIDTH as int) == x0 + col,
{
    lemma_fundamental_div_mod_converse(
        (y0 + row) * SCREEN_WIDTH + x0 + col,
        SCREEN_WIDTH as int,
        y0 + row,
        x0 + col,
    );
}

/// Drawing the pixel at (row, col) extends the drawn set by exactly that pixel, if its bit is set.
proof fn lemma_draw_one(s: Chip8View, x0: int, y0: int, n: int, row: int, col: int)
    requires
        0 <= x0 < SCREEN_WIDTH,
        0 <= y0 < SCREEN_HEIGHT,
        0 <= row < n,
        y0 + row < SCREEN_HEIGHT,
        0 <= col < 8,
        x0 + col < SCREEN_WIDTH,
    ensures
        ({
            let idx = (y0 + row) * SCREEN_WIDTH + x0 + col;
            &&& 0 <= idx < FRAMEBUFFER_LEN
            &&& !drawn_before(s, x0, y0, n, row * 8 + col, idx)
            &&& sprite_covers(s, x0, y0, n, idx) == sprite_bit(s.memory[s.index + row], col)
            &&& forall|p: int|
                0 <= p < FRAMEBUFFER_LEN ==> #[trigger] drawn_before(s, x0, y0, n, row * 8 + col + 1, p)
                    == (drawn_before(s, x0, y0, n, row * 8 + col, p) || (p == idx
                    && sprite_bit(s.memory[s.index + row], col)))
        }),
{
    let idx = (y0 + row) * SCREEN_WIDTH + x0 + col;
    lemma_pixel_coordinates(x0, y0, row, col);
    assert(0 <= idx < FRAMEBUFFER_LEN) by (nonlinear_arith)
        requires
            idx == (y0 + row) * 64 + x0 + col,
            0 <= x0 + col < 64,
            0 <= y0 + row < 32,
    ;
    assert forall|p: int| 0 <= p < FRAMEBUFFER_LEN implies #[trigger] drawn_before(
        s,
        x0,
        y0,
        n,
        row * 8 + col + 1,
        p,
    ) == (drawn_before(s, x0, y0, n, row * 8 + col, p) || (p == idx && sprite_bit(
        s.memory[s.index + row],
        col,
    ))) by {
        lemma_fundamental_div_mod(p, SCREEN_WIDTH as int);
        let r = p / (SCREEN_WIDTH as int) - y0;
        let c = p % (SCREEN_WIDTH as int) - x0;
        if sprite_covers(s, x0, y0, n, p) && pixel_order(x0, y0, p) == row * 8 + col {
            assert(r == row && c == col);
            assert(p == idx);
        }
    }
}

/// After the last column that fits on screen, the rest of the row is clipped.
proof fn lemma_row_done(s: Chip8View, x0: int, y0: int, n: int, row: int, cols: int)
    requires
        0 <= x0 < SCREEN_WIDTH,
        cols == if 8 < SCREEN_WIDTH - x0 { 8 } else { SCREEN_WIDTH - x0 },
    ensures
        forall|p: int|
            0 <= p < FRAMEBUFFER_LEN ==> #[trigger] drawn_before(s, x0, y0, n, row * 8 + cols, p)
                == drawn_before(s, x0, y0, n, (row + 1) * 8, p),
{
    assert forall|p: int| 0 <= p < FRAMEBUFFER_LEN implies #[trigger] drawn_before(
        s,
        x0,
        y0,
        n,
        row * 8 + cols,
        p,
    ) == drawn_before(s, x0, y0, n, (row + 1) * 8, p) by {
        lemma_fundamental_div_mod(p, SCREEN_WIDTH as int);
    }
}

/// Once every row that fits on screen is done, the drawn set is everything the sprite covers.
proof fn lemma_rows_done(s: Chip8View, x0: int, y0: int, n: int, rows: int)
    requires
        0 <= y0 < SCREEN_HEIGHT,
        0 <= n,
        rows == rows_drawn(n, y0),
    ensures
        forall|p: int|
            0 <= p < FRAMEBUFFER_LEN ==> #[trigger] drawn_before(s, x0, y0, n, rows * 8, p)
                == sprite_covers(s, x0, y0, n, p),
{
    assert forall|p: int| 0 <= p < FRAMEBUFFER_LEN implies #[trigger] drawn_before(
        s,
        x0,
        y0,
        n,
        rows * 8,
        p,
    ) == sprite_covers(s, x0, y0, n, p) by {
        lemma_fundamental_div_mod(p, SCREEN_WIDTH as int);
        assert(p / (SCREEN_WIDTH as int) < SCREEN_HEIGHT);
    }
}

/// Collisions follow the drawn set: one more pixel drawn adds its own collision, if any.
proof fn lemma_collided_extend(s: Chip8View, x0: int, y0: int, n: int, k1: int, k2: int, idx: int, b: bool)
    requires
        0 <= idx < FRAMEBUFFER_LEN,
        forall|p: int|
            0 <= p < FRAMEBUFFER_LEN ==> #[trigger] drawn_before(s, x0, y0, n, k1, p) == (
            drawn_before(s, x0, y0, n, k2, p) || (p == idx && b)),
    ensures
        collided_before(s, x0, y0, n, k1) == (collided_before(s, x0, y0, n, k2) || (b
            && s.framebuffer[idx])),
{
    if collided_before(s, x0, y0, n, k1) {
        let p = choose|p: int|
            0 <= p < FRAMEBUFFER_LEN && #[trigger] drawn_before(s, x0, y0, n, k1, p)
                && s.framebuffer[p];
        if drawn_before(s, x0, y0, n, k2, p) {
            assert(collided_before(s, x0, y0, n, k2));
        }
    }
    if collided_before(s, x0, y0, n, k2) {
        let p = choose|p: int|
            0 <= p < FRAMEBUFFER_LEN && #[trigger] drawn_before(s, x0, y0, n, k2, p)
                && s.framebuffer[p];
        assert(drawn_before(s, x0, y0, n, k1, p));
    }
    if b && s.framebuffer[idx] {
        assert(drawn_before(s, x0, y0, n, k1, idx));
    }
}

/// Once the whole sprite is drawn, a collision happened iff a covered pixel was lit.
proof fn lemma_collided_all(s: Chip8View, x0: int, y0: int, n: int, k: int)
    requires
        forall|p: int|
            0 <= p < FRAMEBUFFER_LEN ==> #[trigger] drawn_before(s, x0, y0, n, k, p)
                == sprite_covers(s, x0, y0, n, p),
    ensures
        collided_before(s, x0, y0, n, k) == exists|p: int|
            0 <= p < FRAMEBUFFER_LEN && #[trigger] sprite_covers(s, x0, y0, n, p)
                && s.framebuffer[p],
{
    if collided_before(s, x0, y0, n, k) {
        let p = choose|p: int|
            0 <= p < FRAMEBUFFER_LEN && #[trigger] drawn_before(s, x0, y0, n, k, p)
                && s.framebuffer[p];
        assert(sprite_covers(s, x0, y0, n, p));
    }
    if exists|p: int|
        0 <= p < FRAMEBUFFER_LEN && #[trigger] sprite_covers(s, x0, y0, n, p) && s.framebuffer[p] {
        let p = choose|p: int|
            0 <= p < FRAMEBUFFER_LEN && #[trigger] sprite_covers(s, x0, y0, n, p)
                && s.framebuffer[p];
        assert(drawn_before(s, x0, y0, n, k, p));
    }
}

impl Chip8 {
    /// Executes a decoded instruction, `random_byte` feeding `CXNN`.
    pub(crate) fn execute_instruction(&mut self, ins: Instruction, random_byte: u8) -> (r: Result<()>)
        requires
            ins.wf(),
            execute_defined(old(self)@, ins),
        ensures
            final(self)@ == next_state(old(self)@, ins, random_byte),
            r == outcome(old(self)@, ins),
    {
        match ins {
            Instruction::ClearScreen => self.op_00e0(),
            Instruction::Return => self.op_00ee(),
            Instruction::Jump(nnn) => self.op_1nnn(nnn),
            Instruction::Call(nnn) => self.op_2nnn(nnn),
            Instruction::SkipEqImm(x, nn) => self.op_3xnn(x, nn),
            Instruction::SkipNeImm(x, nn) => self.op_4xnn(x, nn),
            Instruction::SkipEqReg(x, y) => self.op_5xy0(x, y),
            Instruction::LoadImm(x, nn) => self.op_6xnn(x, nn),
            Instruction::AddImm(x, nn) => self.op_7xnn(x, nn),
            Instruction::Move(x, y) => self.op_8xy0(x, y),
            Instruction::Or(x, y) => self.op_8xy1(x, y),
            Instruction::And(x, y) => self.op_8xy2(x, y),
            Instruction::Xor(x, y) => self.op_8xy3(x, y),
            Instruction::AddReg(x, y) => self.op_8xy4(x, y),
            Instruction::SubReg(x, y) => self.op_8xy5(x, y),
            Instruction::ShiftRight(x, y) => self.op_8xy6(x, y),
            Instruction::SubRev(x, y) => self.op_8xy7(x, y),
            Instruction::ShiftLeft(x, y) => self.op_8xye(x, y),
            Instruction::SkipNeReg(x, y) => self.op_9xy0(x, y),
            Instruction::LoadIndex(nnn) => self.op_annn(nnn),
            Instruction::JumpOffset(nnn) => self.op_bnnn(nnn),
            Instruction::Random(x, nn) => self.op_cxnn(x, nn, random_byte),
            Instruction::Draw(x, y, n) => self.op_dxyn(x, y, n),
            Instruction::SkipKeyDown(x) => self.op_ex9e(x),
            Instruction::SkipKeyUp(x) => self.op_exa1(x),
            Instruction::WaitKey(x) => self.op_fx0a(x),
            Instruction::GetDelay(x) => self.op_fx07(x),
            Instruction::SetDelay(x) => self.op_fx15(x),
            Instruction::SetSound(x) => self.op_fx18(x),
            Instruction::AddIndex(x) => self.op_fx1e(x),
            Instruction::FontChar(x) => self.op_fx29(x),
            Instruction::StoreBcd(x) => self.op_fx33(x),
            Instruction::StoreRegs(x) => self.op_fx55(x),
            Instruction::LoadRegs(x) => self.op_fx65(x),
            Instruction::Unknown(opcode) => Err(Chip8Error::UnknownOpcode(opcode)),
        }
    }
    /// `00E0`.
    pub(crate) fn op_00e0(&mut self) -> (r: Result<()>)
        ensures
            final(self)@ == next_state(old(self)@, Instruction::ClearScreen, 0),
            r == outcome(old(self)@, Instruction::ClearScreen),
    {
        self.framebuffer = [false; FRAMEBUFFER_LEN];
        self.draw_flag = true;
        assert(self@ =~= next_state(old(self)@, Instruction::ClearScreen, 0));
        Ok(())
    }

    /// `00EE`.
    pub(crate) fn op_00ee(&mut self) -> (r: Result<()>)
        ensures
            final(self)@ == next_state(old(self)@, Instruction::Return, 0),
            r == outcome(old(self)@, Instruction::Return),
    {
        match self.stack.pop() {
            Some(addr) => {
                self.program_counter = addr;
                Ok(())
            },
            None => Err(Chip8Error::StackUnderflow),
        }
    }

    /// `1NNN`.
    pub(crate) fn op_1nnn(&mut self, nnn: u16) -> (r: Result<()>)
        ensures
            final(self)@ == next_state(old(self)@, Instruction::Jump(nnn), 0),
            r == outcome(old(self)@, Instruction::Jump(nnn)),
    {
        self.program_counter = nnn;
        Ok(())
    }

    /// `2NNN`.
    pub(crate) fn op_2nnn(&mut self, nnn: u16) -> (r: Result<()>)
        ensures
            final(self)@ == next_state(old(self)@, Instruction::Call(nnn), 0),
            r == outcome(old(self)@, Instruction::Call(nnn)),
    {
        self.stack.push(self.program_counter);
        self.program_counter = nnn;
        Ok(())
    }

    /// `3XNN`.
    pub(crate) fn op_3xnn(&mut self, x: usize, nn: u8) -> (r: Result<()>)
        requires
            x < 16,
            execute_defined(old(self)@, Instruction::SkipEqImm(x, nn)),
        ensures
            final(self)@ == next_state(old(self)@, Instruction::SkipEqImm(x, nn), 0),
            r == outcome(old(self)@, Instruction::SkipEqImm(x, nn)),
    {
        if self.registers[x] == nn {
            self.program_counter += 2;
        }
        Ok(())
    }

    /// `4XNN`.
    pub(crate) fn op_4xnn(&mut self, x: usize, nn: u8) -> (r: Result<()>)
        requires
            x < 16,
            execute_defined(old(self)@, Instruction::SkipNeImm(x, nn)),
        ensures
            final(self)@ == next_state(old(self)@, Instruction::SkipNeImm(x, nn), 0),
            r == outcome(old(self)@, Instruction::SkipNeImm(x, nn)),
    {
        if self.registers[x] != nn {
            self.program_counter += 2;
        }
        Ok(())
    }

    /// `5XY0`.
    pub(crate) fn op_5xy0(&mut self, x: usize, y: usize) -> (r: Result<()>)
        requires
            x < 16,
            y < 16,
            execute_defined(old(self)@, Instruction::SkipEqReg(x, y)),
        ensures
            final(self)@ == next_state(old(self)@, Instruction::SkipEqReg(x, y), 0),
            r == outcome(old(self)@, Instruction::SkipEqReg(x, y)),
    {
        if self.registers[x] == self.registers[y] {
            self.program_counter += 2;
        }
        Ok(())
    }

    /// `6XNN`.
    pub(crate) fn op_6xnn(&mut self, x: usize, nn: u8) -> (r: Result<()>)
        requires
            x < 16,
        ensures
            final(self)@ == next_state(old(self)@, Instruction::LoadImm(x, nn), 0),
            r == outcome(old(self)@, Instruction::LoadImm(x, nn)),
    {
        self.registers[x] = nn;
        Ok(())
    }

    /// `7XNN`.
    pub(crate) fn op_7xnn(&mut self, x: usize, nn: u8) -> (r: Result<()>)
        requires
            x < 16,
        ensures
            final(self)@ == next_state(old(self)@, Instruction::AddImm(x, nn), 0),
            r == outcome(old(self)@, Instruction::AddImm(x, nn)),
    {
        self.registers[x] = self.registers[x].wrapping_add(nn);
        Ok(())
    }

    /// `8XY0`.
    pub(crate) fn op_8xy0(&mut self, x: usize, y: usize) -> (r: Result<()>)
        requires
            x < 16,
            y < 16,
        ensures
            final(self)@ == next_state(old(self)@, Instruction::Move(x, y), 0),
            r == outcome(old(self)@, Instruction::Move(x, y)),
    {
        self.registers[x] = self.registers[y];
        Ok(())
    }

    /// `8XY1`.
    pub(crate) fn op_8xy1(&mut self, x: usize, y: usize) -> (r: Result<()>)
        requires
            x < 16,
            y < 16,
        ensures
            final(self)@ == next_state(old(self)@, Instruction::Or(x, y), 0),
            r == outcome(old(self)@, Instruction::Or(x, y)),
    {
        self.registers[x] = self.registers[x] | self.registers[y];
        self.registers[0xF] = 0;
        Ok(())
    }

    /// `8XY2`.
    pub(crate) fn op_8xy2(&mut self, x: usize, y: usize) -> (r: Result<()>)
        requires
            x < 16,
            y < 16,
        ensures
            final(self)@ == next_state(old(self)@, Instruction::And(x, y), 0),
            r == outcome(old(self)@, Instruction::And(x, y)),
    {
        self.registers[x] = self.registers[x] & self.registers[y];
        self.registers[0xF] = 0;
        Ok(())
    }

    /// `8XY3`.
    pub(crate) fn op_8xy3(&mut self, x: usize, y: usize) -> (r: Result<()>)
        requires
            x < 16,
            y < 16,
        ensures
            final(self)@ == next_state(old(self)@, Instruction::Xor(x, y), 0),
            r == outcome(old(self)@, Instruction::Xor(x, y)),
    {
        self.registers[x] = self.registers[x] ^ self.registers[y];
        self.registers[0xF] = 0;
        Ok(())
    }

    /// `8XY4`.
    pub(crate) fn op_8xy4(&mut self, x: usize, y: usize) -> (r: Result<()>)
        requires
            x < 16,
            y < 16,
        ensures
            final(self)@ == next_state(old(self)@, Instruction::AddReg(x, y), 0),
            r == outcome(old(self)@, Instruction::AddReg(x, y)),
    {
        let (vx, vy) = (self.registers[x], self.registers[y]);
        let overflow = vx as u16 + vy as u16 > 255;
        self.registers[x] = vx.wrapping_add(vy);
        self.registers[0xF] = if overflow { 1 } else { 0 };
        Ok(())
    }

    /// `8XY5`.
    pub(crate) fn op_8xy5(&mut self, x: usize, y: usize) -> (r: Result<()>)
        requires
            x < 16,
            y < 16,
        ensures
            final(self)@ == next_state(old(self)@, Instruction::SubReg(x, y), 0),
            r == outcome(old(self)@, Instruction::SubReg(x, y)),
    {
        let (vx, vy) = (self.registers[x], self.registers[y]);
        let overflow = vx < vy;
        self.registers[x] = vx.wrapping_sub(vy);
        self.registers[0xF] = if !overflow { 1 } else { 0 };
        Ok(())
    }

    /// `8XY6`.
    pub(crate) fn op_8xy6(&mut self, x: usize, y: usize) -> (r: Result<()>)
        requires
            x < 16,
            y < 16,
        ensures
            final(self)@ == next_state(old(self)@, Instruction::ShiftRight(x, y), 0),
            r == outcome(old(self)@, Instruction::ShiftRight(x, y)),
    {
        if !self.quirk_config.shift {
            self.registers[x] = self.registers[y];
        }
        let v = self.registers[x];
        let shifted_bit = v & 0x1;
        let shifted = v >> 1;
        assert(shifted_bit == v % 2 && shifted == v / 2) by (bit_vector)
            requires
                shifted_bit == v & 0x1,
                shifted == v >> 1,
        ;
        self.registers[x] = shifted;
        self.registers[0xF] = shifted_bit;
        Ok(())
    }

    /// `8XY7`.
    pub(crate) fn op_8xy7(&mut self, x: usize, y: usize) -> (r: Result<()>)
        requires
            x < 16,
            y < 16,
        ensures
            final(self)@ == next_state(old(self)@, Instruction::SubRev(x, y), 0),
            r == outcome(old(self)@, Instruction::SubRev(x, y)),
    {
        let (vx, vy) = (self.registers[x], self.registers[y]);
        let overflow = vy < vx;
        self.registers[x] = vy.wrapping_sub(vx);
        self.registers[0xF] = if !overflow { 1 } else { 0 };
        Ok(())
    }

    /// `8XYE`.
    pub(crate) fn op_8xye(&mut self, x: usize, y: usize) -> (r: Result<()>)
        requires
            x < 16,
            y < 16,
        ensures
            final(self)@ == next_state(old(self)@, Instruction::ShiftLeft(x, y), 0),
            r == outcome(old(self)@, Instruction::ShiftLeft(x, y)),
    {
        if !self.quirk_config.shift {
            self.registers[x] = self.registers[y];
        }
        let v = self.registers[x];
        let shifted_bit = (v >> 7) & 0x1;
        let shifted = v << 1;
        assert(shifted_bit == v / 128 && shifted == (v * 2) % 256) by (bit_vector)
            requires
                shifted_bit == (v >> 7) & 0x1,
                shifted == v << 1,
        ;
        self.registers[x] = shifted;
        self.registers[0xF] = shifted_bit;
        Ok(())
    }

    /// `9XY0`.
    pub(crate) fn op_9xy0(&mut self, x: usize, y: usize) -> (r: Result<()>)
        requires
            x < 16,
            y < 16,
            execute_defined(old(self)@, Instruction::SkipNeReg(x, y)),
        ensures
            final(self)@ == next_state(old(self)@, Instruction::SkipNeReg(x, y), 0),
            r == outcome(old(self)@, Instruction::SkipNeReg(x, y)),
    {
        if self.registers[x] != self.registers[y] {
            self.program_counter += 2;
        }
        Ok(())
    }

    /// `ANNN`.
    pub(crate) fn op_annn(&mut self, nnn: u16) -> (r: Result<()>)
        ensures
            final(self)@ == next_state(old(self)@, Instruction::LoadIndex(nnn), 0),
            r == outcome(old(self)@, Instruction::LoadIndex(nnn)),
    {
        self.index_register = nnn;
        Ok(())
    }

    /// `BNNN`.
    pub(crate) fn op_bnnn(&mut self, nnn: u16) -> (r: Result<()>)
        requires
            nnn < 0x1000,
        ensures
            final(self)@ == next_state(old(self)@, Instruction::JumpOffset(nnn), 0),
            r == outcome(old(self)@, Instruction::JumpOffset(nnn)),
    {
        let base = if self.quirk_config.jumping {
            let x = (nnn as usize & 0xF00) >> 8;
            assert(x == nnn / 0x100) by (bit_vector)
                requires
                    x == (nnn as usize & 0xF00) >> 8,
                    nnn < 0x1000,
            ;
            self.registers[x] as u16
        } else {
            self.registers[0] as u16
        };
        self.program_counter = nnn + base;
        Ok(())
    }

    /// `CXNN`, with `random_byte` as the random number.
    pub(crate) fn op_cxnn(&mut self, x: usize, nn: u8, random_byte: u8) -> (r: Result<()>)
        requires
            x < 16,
        ensures
            final(self)@ == next_state(old(self)@, Instruction::Random(x, nn), random_byte),
            r == outcome(old(self)@, Instruction::Random(x, nn)),
    {
        self.registers[x] = random_byte & nn;
        Ok(())
    }

    /// `EX9E`.
    pub(crate) fn op_ex9e(&mut self, x: usize) -> (r: Result<()>)
        requires
            x < 16,
            execute_defined(old(self)@, Instruction::SkipKeyDown(x)),
        ensures
            final(self)@ == next_state(old(self)@, Instruction::SkipKeyDown(x), 0),
            r == outcome(old(self)@, Instruction::SkipKeyDown(x)),
    {
        if self.keypad[self.registers[x] as usize] {
            self.program_counter += 2;
        }
        Ok(())
    }

    /// `EXA1`.
    pub(crate) fn op_exa1(&mut self, x: usize) -> (r: Result<()>)
        requires
            x < 16,
            execute_defined(old(self)@, Instruction::SkipKeyUp(x)),
        ensures
            final(self)@ == next_state(old(self)@, Instruction::SkipKeyUp(x), 0),
            r == outcome(old(self)@, Instruction::SkipKeyUp(x)),
    {
        if !self.keypad[self.registers[x] as usize] {
            self.program_counter += 2;
        }
        Ok(())
    }

    /// `FX0A`.
    pub(crate) fn op_fx0a(&mut self, x: usize) -> (r: Result<()>)
        requires
            x < 16,
            execute_defined(old(self)@, Instruction::WaitKey(x)),
        ensures
            final(self)@ == next_state(old(self)@, Instruction::WaitKey(x), 0),
            r == outcome(old(self)@, Instruction::WaitKey(x)),
    {
        proof {
            self.lemma_view_wf();
        }
        for i in 0..KEY_COUNT
            invariant
                x < 16,
                self@ == old(self)@,
                self@.wf(),
                first_released_from(self@, 0) == first_released_from(self@, i as int),
        {
            if self.last_keypad[i] && !self.keypad[i] {
                assert(key_released(self@, i as int));
                self.registers[x] = i as u8;
                return Ok(());
            }
        }
        self.program_counter -= 2;
        Ok(())
    }

    /// `FX07`.
    pub(crate) fn op_fx07(&mut self, x: usize) -> (r: Result<()>)
        requires
            x < 16,
        ensures
            final(self)@ == next_state(old(self)@, Instruction::GetDelay(x), 0),
            r == outcome(old(self)@, Instruction::GetDelay(x)),
    {
        self.registers[x] = self.delay_timer;
        Ok(())
    }

    /// `FX15`.
    pub(crate) fn op_fx15(&mut self, x: usize) -> (r: Result<()>)
        requires
            x < 16,
        ensures
            final(self)@ == next_state(old(self)@, Instruction::SetDelay(x), 0),
            r == outcome(old(self)@, Instruction::SetDelay(x)),
    {
        self.delay_timer = self.registers[x];
        Ok(())
    }

    /// `FX18`.
    pub(crate) fn op_fx18(&mut self, x: usize) -> (r: Result<()>)
        requires
            x < 16,
        ensures
            final(self)@ == next_state(old(self)@, Instruction::SetSound(x), 0),
            r == outcome(old(self)@, Instruction::SetSound(x)),
    {
        self.sound_timer = self.registers[x];
        Ok(())
    }

    /// `FX1E`.
    pub(crate) fn op_fx1e(&mut self, x: usize) -> (r: Result<()>)
        requires
            x < 16,
            execute_defined(old(self)@, Instruction::AddIndex(x)),
        ensures
            final(self)@ == next_state(old(self)@, Instruction::AddIndex(x), 0),
            r == outcome(old(self)@, Instruction::AddIndex(x)),
    {
        self.index_register += self.registers[x] as u16;
        Ok(())
    }

    /// `FX29`.
    pub(crate) fn op_fx29(&mut self, x: usize) -> (r: Result<()>)
        requires
            x < 16,
        ensures
            final(self)@ == next_state(old(self)@, Instruction::FontChar(x), 0),
            r == outcome(old(self)@, Instruction::FontChar(x)),
    {
        self.index_register = FONTSET_START_ADDRESS as u16 + 5 * self.registers[x] as u16;
        Ok(())
    }

    /// `FX33`.
    pub(crate) fn op_fx33(&mut self, x: usize) -> (r: Result<()>)
        requires
            x < 16,
            execute_defined(old(self)@, Instruction::StoreBcd(x)),
        ensures
            final(self)@ == next_state(old(self)@, Instruction::StoreBcd(x), 0),
            r == outcome(old(self)@, Instruction::StoreBcd(x)),
    {
        let addr = self.index_register as usize;
        self.memory[addr] = self.registers[x] / 100;
        self.memory[addr + 1] = (self.registers[x] / 10) % 10;
        self.memory[addr + 2] = self.registers[x] % 10;
        Ok(())
    }

    /// `FX55`.
    pub(crate) fn op_fx55(&mut self, x: usize) -> (r: Result<()>)
        requires
            x < 16,
            execute_defined(old(self)@, Instruction::StoreRegs(x)),
        ensures
            final(self)@ == next_state(old(self)@, Instruction::StoreRegs(x), 0),
            r == outcome(old(self)@, Instruction::StoreRegs(x)),
    {
        let ghost s0 = self@;
        let ghost i0 = s0.index as int;
        proof {
            self.lemma_view_wf();
        }
        for i in 0..x + 1
            invariant
                s0.wf(),
                x < 16,
                i0 == s0.index,
                i0 + x < crate::MEMORY_BYTES,
                self@ == (Chip8View { memory: self@.memory, ..s0 }),
                self@.memory.len() == s0.memory.len(),
                forall|k: int|
                    #![trigger self@.memory[k]]
                    0 <= k < s0.memory.len() ==> self@.memory[k] == if i0 <= k < i0 + i {
                        s0.registers[k - i0]
                    } else {
                        s0.memory[k]
                    },
        {
            self.memory[self.index_register as usize + i] = self.registers[i];
        }
        if !self.quirk_config.load_store {
            self.index_register += x as u16 + 1;
        }
        assert(self@ =~= next_state(s0, Instruction::StoreRegs(x), 0));
        Ok(())
    }

    /// `FX65`.
    pub(crate) fn op_fx65(&mut self, x: usize) -> (r: Result<()>)
        requires
            x < 16,
            execute_defined(old(self)@, Instruction::LoadRegs(x)),
        ensures
            final(self)@ == next_state(old(self)@, Instruction::LoadRegs(x), 0),
            r == outcome(old(self)@, Instruction::LoadRegs(x)),
    {
        let ghost s0 = self@;
        let ghost i0 = s0.index as int;
        proof {
            self.lemma_view_wf();
        }
        for i in 0..x + 1
            invariant
                s0.wf(),
                x < 16,
                i0 == s0.index,
                i0 + x < crate::MEMORY_BYTES,
                self@ == (Chip8View { registers: self@.registers, ..s0 }),
                self@.registers.len() == s0.registers.len(),
                forall|k: int|
                    #![trigger self@.registers[k]]
                    0 <= k < s0.registers.len() ==> self@.registers[k] == if k < i {
                        s0.memory[i0 + k]
                    } else {
                        s0.registers[k]
                    },
        {
            self.registers[i] = self.memory[self.index_register as usize + i];
        }
        if !self.quirk_config.load_store {
            self.index_register += x as u16 + 1;
        }
        assert(self@ =~= next_state(s0, Instruction::LoadRegs(x), 0));
        Ok(())
    }

    /// `DXYN`.
    pub(crate) fn op_dxyn(&mut self, x: usize, y: usize, n: usize) -> (r: Result<()>)
        requires
            x < 16,
            y < 16,
            n < 16,
            execute_defined(old(self)@, Instruction::Draw(x, y, n)),
        ensures
            final(self)@ == next_state(old(self)@, Instruction::Draw(x, y, n), 0),
            r == outcome(old(self)@, Instruction::Draw(x, y, n)),
    {
        if self.waiting_vblank {
            self.program_counter -= 2;
            return Ok(());
        }
        let ghost s0 = self@;
        proof {
            self.lemma_view_wf();
        }
        self.waiting_vblank = true;

        let x_coord = self.registers[x] as usize % SCREEN_WIDTH;
        let y_coord = self.registers[y] as usize % SCREEN_HEIGHT;
        self.registers[0xF] = 0;
        let ghost x0 = x_coord as int;
        let ghost y0 = y_coord as int;
        let ghost nn = n as int;

        let rows = if n < SCREEN_HEIGHT - y_coord { n } else { SCREEN_HEIGHT - y_coord };
        let cols: usize = if 8 < SCREEN_WIDTH - x_coord { 8 } else { SCREEN_WIDTH - x_coord };
        assert(!collided_before(s0, x0, y0, nn, 0));

        let mut row: usize = 0;
        while row < rows
            invariant
                s0.wf(),
                !s0.waiting_vblank,
                0 <= row <= rows,
                x0 == (s0.registers[x as int] as int) % (SCREEN_WIDTH as int),
                y0 == (s0.registers[y as int] as int) % (SCREEN_HEIGHT as int),
                x_coord == x0,
                y_coord == y0,
                nn == n,
                n < 16,
                rows == rows_drawn(nn, y0),
                cols == if 8 < SCREEN_WIDTH - x0 { 8 } else { SCREEN_WIDTH - x0 },
                rows == 0 || s0.index + rows <= crate::MEMORY_BYTES,
                self@ == (Chip8View {
                    framebuffer: self@.framebuffer,
                    registers: self@.registers,
                    waiting_vblank: true,
                    ..s0
                }),
                self@.registers == s0.registers.update(
                    0xF,
                    if collided_before(s0, x0, y0, nn, row * 8) { 1u8 } else { 0u8 },
                ),
                self@.framebuffer.len() == FRAMEBUFFER_LEN,
                forall|p: int|
                    0 <= p < FRAMEBUFFER_LEN ==> #[trigger] self@.framebuffer[p] == (s0.framebuffer[p]
                        != drawn_before(s0, x0, y0, nn, row * 8, p)),
            decreases rows - row,
        {
            let sprite_row = self.memory[(self.index_register as usize) + row];
            let mut col: usize = 0;
            while col < cols
                invariant
                    s0.wf(),
                    0 <= row < rows,
                    0 <= col <= cols,
                    x0 == (s0.registers[x as int] as int) % (SCREEN_WIDTH as int),
                    y0 == (s0.registers[y as int] as int) % (SCREEN_HEIGHT as int),
                    x_coord == x0,
                    y_coord == y0,
                    nn == n,
                    rows == rows_drawn(nn, y0),
                    cols == if 8 < SCREEN_WIDTH - x0 { 8 } else { SCREEN_WIDTH - x0 },
                    sprite_row == s0.memory[s0.index + row],
                    self@ == (Chip8View {
                        framebuffer: self@.framebuffer,
                        registers: self@.registers,
                        waiting_vblank: true,
                        ..s0
                    }),
                    self@.registers == s0.registers.update(
                        0xF,
                        if collided_before(s0, x0, y0, nn, row * 8 + col) { 1u8 } else { 0u8 },
                    ),
                    self@.framebuffer.len() == FRAMEBUFFER_LEN,
                    forall|p: int|
                        0 <= p < FRAMEBUFFER_LEN ==> #[trigger] self@.framebuffer[p] == (
                        s0.framebuffer[p] != drawn_before(s0, x0, y0, nn, row * 8 + col, p)),
                decreases cols - col,
            {
                proof {
                    lemma_draw_one(s0, x0, y0, nn, row as int, col as int);
                }
                let ghost k = row * 8 + col;
                let ghost idx = (y0 + row) * SCREEN_WIDTH + x0 + col;
                if sprite_row & (0x80u8 >> (col as u8)) != 0 {
                    let idx_exec = (y_coord + row) * SCREEN_WIDTH + x_coord + col;
                    assert(idx_exec == idx);
                    if self.framebuffer[idx_exec] {
                        self.registers[0xF] = 1;
                        assert(drawn_before(s0, x0, y0, nn, k + 1, idx));
                    }
                    self.framebuffer[idx_exec] = !self.framebuffer[idx_exec];
                }
                proof {
                    lemma_collided_extend(
                        s0,
                        x0,
                        y0,
                        nn,
                        k + 1,
                        k,
                        idx,
                        sprite_bit(s0.memory[s0.index + row], col as int),
                    );
                }
                col += 1;
            }
            proof {
                lemma_row_done(s0, x0, y0, nn, row as int, cols as int);
                lemma_collided_extend(s0, x0, y0, nn, (row + 1) * 8, row * 8 + cols, 0, false);
            }
            row += 1;
        }
        proof {
            lemma_rows_done(s0, x0, y0, nn, rows as int);
            lemma_collided_all(s0, x0, y0, nn, rows * 8);
        }
        self.draw_flag = true;
        assert(self@ =~= draw_sprite(s0, x as int, y as int, n as int));
        Ok(())
    }
}

} // verus!
