//! The interpreter's behaviour, stated over an abstract machine state.
use vstd::prelude::*;

use crate::config::QuirkConfig;
use crate::error::Chip8Error;
use crate::instruction::{decode_spec, Instruction};
use crate::{
    FONTSET_START_ADDRESS, FRAMEBUFFER_LEN, KEY_COUNT, MEMORY_BYTES,
    PROGRAM_COUNTER_START_ADDRESS, REGISTER_COUNT, SCREEN_HEIGHT, SCREEN_WIDTH,
};

verus! {

/// The whole machine as a mathematical value.
#[verifier::ext_equal]
pub struct Chip8View {
    pub memory: Seq<u8>,
    /// Row-major: pixel `(x, y)` is at `y * SCREEN_WIDTH + x`.
    pub framebuffer: Seq<bool>,
    pub pc: u16,
    pub index: u16,
    /// Return addresses, innermost call last.
    pub stack: Seq<u16>,
    pub delay_timer: u8,
    pub sound_timer: u8,
    pub registers: Seq<u8>,
    pub quirks: QuirkConfig,
    pub keypad: Seq<bool>,
    /// The keypad as it was before the latest `set_keys`.
    pub last_keypad: Seq<bool>,
    /// A sprite was drawn since the last timer tick; the next draw waits.
    pub waiting_vblank: bool,
    pub draw_flag: bool,
}

/// The sprites of the hexadecimal digits `0`..`F`, five bytes each.
pub open spec fn font_sprites() -> Seq<u8> {
    seq![
        0xF0u8, 0x90, 0x90, 0x90, 0xF0, // 0
        0x20, 0x60, 0x20, 0x20, 0x70, // 1
        0xF0, 0x10, 0xF0, 0x80, 0xF0, // 2
        0xF0, 0x10, 0xF0, 0x10, 0xF0, // 3
        0x90, 0x90, 0xF0, 0x10, 0x10, // 4
        0xF0, 0x80, 0xF0, 0x10, 0xF0, // 5
        0xF0, 0x80, 0xF0, 0x90, 0xF0, // 6
        0xF0, 0x10, 0x20, 0x40, 0x40, // 7
        0xF0, 0x90, 0xF0, 0x90, 0xF0, // 8
        0xF0, 0x90, 0xF0, 0x10, 0xF0, // 9
        0xF0, 0x90, 0xF0, 0x90, 0x90, // A
        0xE0, 0x90, 0xE0, 0x90, 0xE0, // B
        0xF0, 0x80, 0x80, 0x80, 0xF0, // C
        0xE0, 0x90, 0x90, 0x90, 0xE0, // D
        0xF0, 0x80, 0xF0, 0x80, 0xF0, // E
        0xF0, 0x80, 0xF0, 0x80, 0x80, // F
    ]
}

/// Memory at power-on: the font at `FONTSET_START_ADDRESS`, zero elsewhere.
pub open spec fn initial_memory() -> Seq<u8> {
    Seq::new(
        MEMORY_BYTES as nat,
        |i: int|
            if FONTSET_START_ADDRESS <= i < FONTSET_START_ADDRESS + font_sprites().len() {
                font_sprites()[i - FONTSET_START_ADDRESS]
            } else {
                0u8
            },
    )
}

/// The machine at power-on, with the given quirks.
pub open spec fn initial_state(quirks: QuirkConfig) -> Chip8View {
    Chip8View {
        memory: initial_memory(),
        framebuffer: Seq::new(FRAMEBUFFER_LEN as nat, |i: int| false),
        pc: PROGRAM_COUNTER_START_ADDRESS as u16,
        index: 0,
        stack: Seq::empty(),
        delay_timer: 0,
        sound_timer: 0,
        registers: Seq::new(REGISTER_COUNT as nat, |i: int| 0u8),
        quirks,
        keypad: Seq::new(KEY_COUNT as nat, |i: int| false),
        last_keypad: Seq::new(KEY_COUNT as nat, |i: int| false),
        waiting_vblank: false,
        draw_flag: false,
    }
}

impl Chip8View {
    /// Every sequence has the size of the hardware it models.
    pub open spec fn wf(self) -> bool {
        &&& self.memory.len() == MEMORY_BYTES
        &&& self.framebuffer.len() == FRAMEBUFFER_LEN
        &&& self.registers.len() == REGISTER_COUNT
        &&& self.keypad.len() == KEY_COUNT
        &&& self.last_keypad.len() == KEY_COUNT
    }

    pub open spec fn with_pc(self, pc: int) -> Chip8View {
        Chip8View { pc: pc as u16, ..self }
    }

    pub open spec fn with_reg(self, x: int, v: u8) -> Chip8View {
        Chip8View { registers: self.registers.update(x, v), ..self }
    }

    /// `VX = v`, then `VF = flag` (so the flag wins when `X` is `F`).
    pub open spec fn with_reg_and_flag(self, x: int, v: u8, flag: u8) -> Chip8View {
        self.with_reg(x, v).with_reg(0xF, flag)
    }

    pub open spec fn with_index(self, index: int) -> Chip8View {
        Chip8View { index: index as u16, ..self }
    }
}

/// Room for a program: from the program start address to the end of memory.
pub open spec fn rom_capacity() -> int {
    MEMORY_BYTES - PROGRAM_COUNTER_START_ADDRESS
}

/// `s` with `rom` copied to the program start address; the rest of memory unchanged.
pub open spec fn with_rom(s: Chip8View, rom: Seq<u8>) -> Chip8View {
    Chip8View {
        memory: Seq::new(
            s.memory.len(),
            |k: int|
                if PROGRAM_COUNTER_START_ADDRESS <= k < PROGRAM_COUNTER_START_ADDRESS + rom.len() {
                    rom[k - PROGRAM_COUNTER_START_ADDRESS]
                } else {
                    s.memory[k]
                },
        ),
        ..s
    }
}

/// One 60 Hz tick: both timers count down towards zero and the display wait ends.
pub open spec fn timers_ticked(s: Chip8View) -> Chip8View {
    Chip8View {
        waiting_vblank: false,
        delay_timer: if s.delay_timer > 0 { (s.delay_timer - 1) as u8 } else { 0 },
        sound_timer: if s.sound_timer > 0 { (s.sound_timer - 1) as u8 } else { 0 },
        ..s
    }
}

/// The keypad after `set_keys(keys)`: the previous keypad is remembered.
pub open spec fn with_keys(s: Chip8View, keys: Seq<bool>) -> Chip8View {
    Chip8View { last_keypad: s.keypad, keypad: keys, ..s }
}

/// Skips the next instruction when `cond` holds.
pub open spec fn skip_if(s: Chip8View, cond: bool) -> Chip8View {
    if cond { s.with_pc(s.pc + 2) } else { s }
}

/// Key `i` was down before the latest `set_keys` and is up now.
pub open spec fn key_released(s: Chip8View, i: int) -> bool {
    s.last_keypad[i] && !s.keypad[i]
}

/// The lowest released key at or above `i`, or `KEY_COUNT` when there is none.
pub open spec fn first_released_from(s: Chip8View, i: int) -> int
    decreases KEY_COUNT - i,
{
    if i >= KEY_COUNT {
        KEY_COUNT as int
    } else if key_released(s, i) {
        i
    } else {
        first_released_from(s, i + 1)
    }
}

/// The released key depends on the two keypads alone.
pub proof fn lemma_first_released_keys_only(s1: Chip8View, s2: Chip8View, i: int)
    requires
        s1.keypad == s2.keypad,
        s1.last_keypad == s2.last_keypad,
    ensures
        first_released_from(s1, i) == first_released_from(s2, i),
    decreases KEY_COUNT - i,
{
    if i < KEY_COUNT {
        lemma_first_released_keys_only(s1, s2, i + 1);
    }
}

/// Whether column `col` (0 = leftmost) of a sprite row byte is set.
pub open spec fn sprite_bit(row_byte: u8, col: int) -> bool {
    row_byte & (0x80u8 >> (col as u8)) != 0
}

/// Whether drawing an `n`-row sprite from `I` at `(x0, y0)` flips pixel `p`.
/// Rows and columns that fall off the bottom or right edge are clipped.
pub open spec fn sprite_covers(s: Chip8View, x0: int, y0: int, n: int, p: int) -> bool {
    let row = p / (SCREEN_WIDTH as int) - y0;
    let col = p % (SCREEN_WIDTH as int) - x0;
    &&& 0 <= row < n
    &&& 0 <= col < 8
    &&& sprite_bit(s.memory[s.index + row], col)
}

/// Number of sprite rows read by a draw at row `y0`: the rest are below the screen.
pub open spec fn rows_drawn(n: int, y0: int) -> int {
    if n < SCREEN_HEIGHT - y0 { n } else { SCREEN_HEIGHT - y0 }
}

/// `DXYN` when not waiting for the vertical blank.
pub open spec fn draw_sprite(s: Chip8View, x: int, y: int, n: int) -> Chip8View {
    let x0 = (s.registers[x] as int) % (SCREEN_WIDTH as int);
    let y0 = (s.registers[y] as int) % (SCREEN_HEIGHT as int);
    let collision = exists|p: int|
        0 <= p < FRAMEBUFFER_LEN && #[trigger] sprite_covers(s, x0, y0, n, p) && s.framebuffer[p];
    Chip8View {
        framebuffer: Seq::new(
            FRAMEBUFFER_LEN as nat,
            |p: int| s.framebuffer[p] != sprite_covers(s, x0, y0, n, p),
        ),
        registers: s.registers.update(0xF, if collision { 1u8 } else { 0u8 }),
        draw_flag: true,
        waiting_vblank: true,
        ..s
    }
}

/// The value that `8XY6` and `8XYE` shift: `VX` with the shift quirk, `VY` without.
pub open spec fn shift_source(s: Chip8View, x: int, y: int) -> u8 {
    if s.quirks.shift { s.registers[x] } else { s.registers[y] }
}

/// The state after executing `ins` (the program counter already points past it).
/// `rnd` is the random byte that `CXNN` uses; no other instruction reads it.
pub open spec fn next_state(s: Chip8View, ins: Instruction, rnd: u8) -> Chip8View {
    match ins {
        Instruction::ClearScreen => Chip8View {
            framebuffer: Seq::new(FRAMEBUFFER_LEN as nat, |i: int| false),
            draw_flag: true,
            ..s
        },
        Instruction::Return => if s.stack.len() == 0 {
            s
        } else {
            Chip8View { pc: s.stack.last(), stack: s.stack.drop_last(), ..s }
        },
        Instruction::Jump(nnn) => s.with_pc(nnn as int),
        Instruction::Call(nnn) => Chip8View { pc: nnn, stack: s.stack.push(s.pc), ..s },
        Instruction::SkipEqImm(x, nn) => skip_if(s, s.registers[x as int] == nn),
        Instruction::SkipNeImm(x, nn) => skip_if(s, s.registers[x as int] != nn),
        Instruction::SkipEqReg(x, y) => skip_if(s, s.registers[x as int] == s.registers[y as int]),
        Instruction::LoadImm(x, nn) => s.with_reg(x as int, nn),
        Instruction::AddImm(x, nn) => s.with_reg(
            x as int,
            ((s.registers[x as int] + nn) % 256) as u8,
        ),
        Instruction::Move(x, y) => s.with_reg(x as int, s.registers[y as int]),
        Instruction::Or(x, y) => s.with_reg_and_flag(
            x as int,
            s.registers[x as int] | s.registers[y as int],
            0,
        ),
        Instruction::And(x, y) => s.with_reg_and_flag(
            x as int,
            s.registers[x as int] & s.registers[y as int],
            0,
        ),
        Instruction::Xor(x, y) => s.with_reg_and_flag(
            x as int,
            s.registers[x as int] ^ s.registers[y as int],
            0,
        ),
        Instruction::AddReg(x, y) => {
            let sum = s.registers[x as int] + s.registers[y as int];
            s.with_reg_and_flag(x as int, (sum % 256) as u8, if sum > 255 { 1 } else { 0 })
        },
        Instruction::SubReg(x, y) => {
            let (a, b) = (s.registers[x as int], s.registers[y as int]);
            s.with_reg_and_flag(x as int, ((a - b) % 256) as u8, if a >= b { 1 } else { 0 })
        },
        Instruction::SubRev(x, y) => {
            let (a, b) = (s.registers[x as int], s.registers[y as int]);
            s.with_reg_and_flag(x as int, ((b - a) % 256) as u8, if b >= a { 1 } else { 0 })
        },
        Instruction::ShiftRight(x, y) => {
            let v = shift_source(s, x as int, y as int);
            s.with_reg_and_flag(x as int, v / 2, v % 2)
        },
        Instruction::ShiftLeft(x, y) => {
            let v = shift_source(s, x as int, y as int);
            s.with_reg_and_flag(x as int, ((v * 2) % 256) as u8, v / 128)
        },
        Instruction::SkipNeReg(x, y) => skip_if(s, s.registers[x as int] != s.registers[y as int]),
        Instruction::LoadIndex(nnn) => s.with_index(nnn as int),
        Instruction::JumpOffset(nnn) => {
            let base = if s.quirks.jumping {
                s.registers[(nnn / 0x100) as int]
            } else {
                s.registers[0]
            };
            s.with_pc(nnn + base)
        },
        Instruction::Random(x, nn) => s.with_reg(x as int, rnd & nn),
        Instruction::Draw(x, y, n) => if s.waiting_vblank {
            s.with_pc(s.pc - 2)
        } else {
            draw_sprite(s, x as int, y as int, n as int)
        },
        Instruction::SkipKeyDown(x) => skip_if(s, s.keypad[s.registers[x as int] as int]),
        Instruction::SkipKeyUp(x) => skip_if(s, !s.keypad[s.registers[x as int] as int]),
        Instruction::WaitKey(x) => {
            let k = first_released_from(s, 0);
            if k < KEY_COUNT { s.with_reg(x as int, k as u8) } else { s.with_pc(s.pc - 2) }
        },
        Instruction::GetDelay(x) => s.with_reg(x as int, s.delay_timer),
        Instruction::SetDelay(x) => Chip8View { delay_timer: s.registers[x as int], ..s },
        Instruction::SetSound(x) => Chip8View { sound_timer: s.registers[x as int], ..s },
        Instruction::AddIndex(x) => s.with_index(s.index + s.registers[x as int]),
        Instruction::FontChar(x) => s.with_index(
            FONTSET_START_ADDRESS + 5 * s.registers[x as int],
        ),
        Instruction::StoreBcd(x) => {
            let v = s.registers[x as int];
            let i = s.index as int;
            Chip8View {
                memory: s.memory.update(i, v / 100).update(i + 1, (v / 10) % 10).update(
                    i + 2,
                    v % 10,
                ),
                ..s
            }
        },
        Instruction::StoreRegs(x) => {
            let i = s.index as int;
            let stored = Chip8View {
                memory: Seq::new(
                    s.memory.len(),
                    |k: int|
                        if i <= k <= i + x {
                            s.registers[k - i]
                        } else {
                            s.memory[k]
                        },
                ),
                ..s
            };
            if s.quirks.load_store { stored } else { stored.with_index(i + x + 1) }
        },
        Instruction::LoadRegs(x) => {
            let i = s.index as int;
            let loaded = Chip8View {
                registers: Seq::new(
                    s.registers.len(),
                    |k: int|
                        if k <= x {
                            s.memory[i + k]
                        } else {
                            s.registers[k]
                        },
                ),
                ..s
            };
            if s.quirks.load_store { loaded } else { loaded.with_index(i + x + 1) }
        },
        Instruction::Unknown(_) => s,
    }
}

/// What executing `ins` returns: only `00EE` on an empty stack and unknown opcodes fail.
pub open spec fn outcome(s: Chip8View, ins: Instruction) -> Result<(), Chip8Error> {
    match ins {
        Instruction::Return => if s.stack.len() == 0 {
            Err(Chip8Error::StackUnderflow)
        } else {
            Ok(())
        },
        Instruction::Unknown(op) => Err(Chip8Error::UnknownOpcode(op)),
        _ => Ok(()),
    }
}

/// Moving the program counter forward by 2 stays within 16 bits.
pub open spec fn can_skip(s: Chip8View, cond: bool) -> bool {
    cond ==> s.pc + 2 <= u16::MAX
}

/// Executing `ins` in state `s` neither indexes out of bounds nor overflows:
/// the inputs on which the interpreter does not panic.
pub open spec fn execute_defined(s: Chip8View, ins: Instruction) -> bool {
    match ins {
        Instruction::SkipEqImm(x, nn) => can_skip(s, s.registers[x as int] == nn),
        Instruction::SkipNeImm(x, nn) => can_skip(s, s.registers[x as int] != nn),
        Instruction::SkipEqReg(x, y) => can_skip(s, s.registers[x as int] == s.registers[y as int]),
        Instruction::SkipNeReg(x, y) => can_skip(s, s.registers[x as int] != s.registers[y as int]),
        Instruction::Draw(x, y, n) => if s.waiting_vblank {
            s.pc >= 2
        } else {
            let rows = rows_drawn(n as int, (s.registers[y as int] as int) % (SCREEN_HEIGHT as int));
            rows == 0 || s.index + rows <= MEMORY_BYTES
        },
        Instruction::SkipKeyDown(x) => {
            &&& s.registers[x as int] < KEY_COUNT
            &&& can_skip(s, s.keypad[s.registers[x as int] as int])
        },
        Instruction::SkipKeyUp(x) => {
            &&& s.registers[x as int] < KEY_COUNT
            &&& can_skip(s, !s.keypad[s.registers[x as int] as int])
        },
        Instruction::WaitKey(_) => first_released_from(s, 0) >= KEY_COUNT ==> s.pc >= 2,
        Instruction::AddIndex(x) => s.index + s.registers[x as int] <= u16::MAX,
        Instruction::StoreBcd(_) => s.index + 2 < MEMORY_BYTES,
        Instruction::StoreRegs(x) => s.index + x < MEMORY_BYTES,
        Instruction::LoadRegs(x) => s.index + x < MEMORY_BYTES,
        _ => true,
    }
}

/// The opcode at the program counter, big-endian.
pub open spec fn fetched(s: Chip8View) -> u16 {
    (s.memory[s.pc as int] * 256 + s.memory[s.pc + 1]) as u16
}

/// The state once the program counter has moved past the fetched opcode.
pub open spec fn advanced(s: Chip8View) -> Chip8View {
    s.with_pc(s.pc + 2)
}

/// `step` is defined: the opcode lies in memory and its execution does not panic.
pub open spec fn step_defined(s: Chip8View) -> bool {
    &&& s.pc + 1 < MEMORY_BYTES
    &&& execute_defined(advanced(s), decode_spec(fetched(s)))
}

/// The state after one fetch-decode-execute cycle, `rnd` feeding `CXNN`.
pub open spec fn step_state(s: Chip8View, rnd: u8) -> Chip8View {
    next_state(advanced(s), decode_spec(fetched(s)), rnd)
}

/// What one fetch-decode-execute cycle returns.
pub open spec fn step_outcome(s: Chip8View) -> Result<(), Chip8Error> {
    outcome(advanced(s), decode_spec(fetched(s)))
}

} // verus!
