//! Properties of the interpreter that span instructions or operations.
use vstd::prelude::*;

use crate::config::QuirkConfig;
use crate::error::Chip8Error;
use crate::frontend::{keypad_key, HostKey};
use crate::instruction::{decode_spec, nibbles, Instruction};
use crate::semantics::{
    advanced, execute_defined, fetched, first_released_from, font_sprites,
    initial_state, key_released, next_state, outcome, sprite_covers, step_defined,
    step_outcome, step_state, timers_ticked, with_keys, with_rom, Chip8View,
};
use crate::{FONTSET_START_ADDRESS, FRAMEBUFFER_LEN, KEY_COUNT, MEMORY_BYTES, SCREEN_HEIGHT,
    SCREEN_WIDTH};

verus! {

/// A subroutine call followed by a return gives back the machine as it was
/// before the call: same program counter, same stack, nothing else touched.
pub proof fn law_call_then_return(s: Chip8View, nnn: u16, r1: u8, r2: u8)
    ensures
        next_state(next_state(s, Instruction::Call(nnn), r1), Instruction::Return, r2) == s,
        outcome(next_state(s, Instruction::Call(nnn), r1), Instruction::Return) == Ok::<(), Chip8Error>(()),
{
    let s1 = next_state(s, Instruction::Call(nnn), r1);
    assert(s1.stack.drop_last() =~= s.stack);
    assert(next_state(s1, Instruction::Return, r2) =~= s);
}

/// Stepping over `2NNN` and then over an `00EE` at `NNN` resumes right after the call.
pub proof fn law_step_call_return(s: Chip8View, r1: u8, r2: u8)
    requires
        decode_spec(fetched(s)) is Call,
        decode_spec(fetched(step_state(s, r1))) is Return,
    ensures
        step_state(step_state(s, r1), r2) == advanced(s),
        step_outcome(step_state(s, r1)) == Ok::<(), Chip8Error>(()),
{
    let nnn = decode_spec(fetched(s))->Call_0;
    let s1 = step_state(s, r1);
    let s2 = advanced(s1);
    assert(s2.stack =~= advanced(s).stack.push(advanced(s).pc));
    assert(s2.stack.drop_last() =~= advanced(s).stack);
    assert(step_state(s1, r2) =~= advanced(s));
}

/// Drawing the same sprite twice at the same place, with a timer tick in between
/// to end the wait for the vertical blank, leaves the display as it was: sprites
/// are drawn by XOR. (When `X` or `Y` is `F` the first draw overwrites the
/// coordinate with the collision flag, so those are left out.)
pub proof fn law_draw_twice_restores_display(s: Chip8View, x: usize, y: usize, n: usize)
    requires
        s.wf(),
        !s.waiting_vblank,
        x < 15,
        y < 15,
        n < 16,
    ensures
        ({
            let once = timers_ticked(next_state(s, Instruction::Draw(x, y, n), 0));
            next_state(once, Instruction::Draw(x, y, n), 0).framebuffer == s.framebuffer
        }),
{
    let s1 = next_state(s, Instruction::Draw(x, y, n), 0);
    let once = timers_ticked(s1);
    let s3 = next_state(once, Instruction::Draw(x, y, n), 0);
    let x0 = (s.registers[x as int] as int) % (SCREEN_WIDTH as int);
    let y0 = (s.registers[y as int] as int) % (SCREEN_HEIGHT as int);
    assert(once.registers[x as int] == s.registers[x as int]);
    assert(once.registers[y as int] == s.registers[y as int]);
    assert forall|p: int| 0 <= p < FRAMEBUFFER_LEN implies sprite_covers(once, x0, y0, n as int, p)
        == sprite_covers(s, x0, y0, n as int, p) by {}
    assert(s3.framebuffer =~= s.framebuffer);
}

/// `FX33` stores the decimal digits of `VX`, most significant first, and nothing else.
pub proof fn law_bcd_digits(s: Chip8View, x: usize)
    requires
        s.wf(),
        x < 16,
        execute_defined(s, Instruction::StoreBcd(x)),
    ensures
        ({
            let t = next_state(s, Instruction::StoreBcd(x), 0);
            let i = s.index as int;
            &&& t.memory[i] < 10
            &&& t.memory[i + 1] < 10
            &&& t.memory[i + 2] < 10
            &&& 100 * t.memory[i] + 10 * t.memory[i + 1] + t.memory[i + 2] == s.registers[x as int]
            &&& forall|k: int|
                0 <= k < MEMORY_BYTES && !(i <= k <= i + 2) ==> #[trigger] t.memory[k] == s.memory[k]
            &&& t.registers == s.registers
        }),
{
    let v = s.registers[x as int];
    assert(v / 100 < 10);
}

/// Storing `V0..=VX` with `FX55`, pointing `I` back at the same place with `ANNN`,
/// and loading with `FX65` gives the registers back unchanged.
pub proof fn law_store_then_load_registers(s: Chip8View, x: usize)
    requires
        s.wf(),
        x < 16,
        execute_defined(s, Instruction::StoreRegs(x)),
    ensures
        ({
            let stored = next_state(s, Instruction::StoreRegs(x), 0);
            let pointed = next_state(stored, Instruction::LoadIndex(s.index), 0);
            &&& execute_defined(pointed, Instruction::LoadRegs(x))
            &&& next_state(pointed, Instruction::LoadRegs(x), 0).registers == s.registers
        }),
{
    let stored = next_state(s, Instruction::StoreRegs(x), 0);
    let pointed = next_state(stored, Instruction::LoadIndex(s.index), 0);
    let loaded = next_state(pointed, Instruction::LoadRegs(x), 0);
    assert(loaded.registers =~= s.registers);
}

/// The font occupies its slot of memory.
pub open spec fn font_intact(s: Chip8View) -> bool {
    forall|k: int|
        0 <= k < font_sprites().len() ==> #[trigger] s.memory[FONTSET_START_ADDRESS + k]
            == font_sprites()[k]
}

/// A machine at power-on holds the font.
pub proof fn law_font_at_power_on(quirks: QuirkConfig)
    ensures
        font_intact(initial_state(quirks)),
{
}

/// Loading a ROM never overwrites the font, which lies below the program start address.
pub proof fn law_load_rom_keeps_font(s: Chip8View, rom: Seq<u8>)
    requires
        s.wf(),
        font_intact(s),
    ensures
        font_intact(with_rom(s, rom)),
{
}

/// With the font in place, `FX29` points `I` at the five-byte glyph of digit `VX`.
pub proof fn law_font_char_points_at_glyph(s: Chip8View, x: usize)
    requires
        s.wf(),
        x < 16,
        font_intact(s),
        s.registers[x as int] < 16,
    ensures
        ({
            let t = next_state(s, Instruction::FontChar(x), 0);
            forall|k: int|
                0 <= k < 5 ==> #[trigger] t.memory[t.index + k] == font_sprites()[5
                    * s.registers[x as int] + k]
        }),
{
    let t = next_state(s, Instruction::FontChar(x), 0);
    let d = s.registers[x as int] as int;
    assert forall|k: int| 0 <= k < 5 implies #[trigger] t.memory[t.index + k] == font_sprites()[5
        * d + k] by {
        assert(t.index + k == FONTSET_START_ADDRESS + (5 * d + k));
    }
}

/// Only `CXNN` reads the random byte: every other instruction is deterministic.
pub proof fn law_only_random_reads_randomness(s: Chip8View, ins: Instruction, r1: u8, r2: u8)
    requires
        !(ins is Random),
    ensures
        next_state(s, ins, r1) == next_state(s, ins, r2),
{
}

/// A step whose opcode is not `CXNN` has one possible outcome.
pub proof fn law_step_deterministic(s: Chip8View, r1: u8, r2: u8)
    requires
        !(decode_spec(fetched(s)) is Random),
    ensures
        step_state(s, r1) == step_state(s, r2),
{
}

/// `CXNN` sets `VX` to a value with no bit outside `NN`, and every such value is
/// one of its outcomes.
pub proof fn law_random_masked(s: Chip8View, x: usize, nn: u8, rnd: u8, v: u8)
    requires
        s.wf(),
        x < 16,
    ensures
        next_state(s, Instruction::Random(x, nn), rnd).registers[x as int] & !nn == 0,
        v & !nn == 0 ==> next_state(s, Instruction::Random(x, nn), v).registers[x as int] == v,
{
    assert((rnd & nn) & !nn == 0) by (bit_vector);
    assert(v & !nn == 0 ==> v & nn == v) by (bit_vector);
}

/// A step that fails only moves the program counter past the bad opcode.
pub proof fn law_failed_step_only_advances(s: Chip8View, rnd: u8)
    requires
        step_outcome(s) is Err,
    ensures
        step_state(s, rnd) == advanced(s),
{
}

/// While waiting (for the vertical blank, or for a key release) a step leaves the
/// machine exactly as it was, so the same instruction runs again.
pub proof fn law_blocked_step_changes_nothing(s: Chip8View, rnd: u8)
    requires
        step_defined(s),
        ({
            let ins = decode_spec(fetched(s));
            ||| ins is Draw && s.waiting_vblank
            ||| ins is WaitKey && first_released_from(advanced(s), 0) >= KEY_COUNT
        }),
    ensures
        step_state(s, rnd) == s,
{
    assert(step_state(s, rnd) =~= s);
}

/// Pressing key `k` alone and then releasing it makes `FX0A` store `k`.
pub proof fn law_wait_key_sees_release(s: Chip8View, x: usize, k: int)
    requires
        s.wf(),
        x < 16,
        0 <= k < KEY_COUNT,
    ensures
        ({
            let pressed = with_keys(s, Seq::new(KEY_COUNT as nat, |i: int| i == k));
            let released = with_keys(pressed, Seq::new(KEY_COUNT as nat, |i: int| false));
            next_state(released, Instruction::WaitKey(x), 0).registers[x as int] == k
        }),
{
    let pressed = with_keys(s, Seq::new(KEY_COUNT as nat, |i: int| i == k));
    let released = with_keys(pressed, Seq::new(KEY_COUNT as nat, |i: int| false));
    lemma_first_released_single(released, k, 0);
}

proof fn lemma_first_released_single(s: Chip8View, k: int, i: int)
    requires
        0 <= i <= k < KEY_COUNT,
        key_released(s, k),
        forall|j: int| 0 <= j < KEY_COUNT && j != k ==> !#[trigger] key_released(s, j),
    ensures
        first_released_from(s, i) == k,
    decreases k - i,
{
    if i < k {
        lemma_first_released_single(s, k, i + 1);
    }
}

/// After loading a ROM into a fresh machine, the first step executes the ROM's
/// first two bytes, big-endian.
pub proof fn law_first_opcode_is_rom_start(quirks: QuirkConfig, rom: Seq<u8>)
    requires
        2 <= rom.len(),
    ensures
        fetched(with_rom(initial_state(quirks), rom)) == (rom[0] * 256 + rom[1]) as u16,
{
}

/// `8XY4`: the new `VX` and the carry in `VF` make up the full sum.
pub proof fn law_add_carry(s: Chip8View, x: usize, y: usize)
    requires
        s.wf(),
        x < 15,
        y < 16,
    ensures
        ({
            let t = next_state(s, Instruction::AddReg(x, y), 0);
            256 * t.registers[15] + t.registers[x as int] == s.registers[x as int]
                + s.registers[y as int]
        }),
{
}

/// `8XY5`: the new `VX` plus `VY` gives back the old `VX`, borrowing 256 when `VF` is 0.
pub proof fn law_sub_borrow(s: Chip8View, x: usize, y: usize)
    requires
        s.wf(),
        x < 15,
        y < 15,
    ensures
        ({
            let t = next_state(s, Instruction::SubReg(x, y), 0);
            t.registers[x as int] + s.registers[y as int] == s.registers[x as int] + 256 * (1
                - t.registers[15])
        }),
{
}

/// `8XY6` and `8XYE`: the shifted value and the bit in `VF` together hold the source.
pub proof fn law_shifts_keep_bits(s: Chip8View, x: usize, y: usize)
    requires
        s.wf(),
        x < 15,
        y < 16,
    ensures
        ({
            let v = if s.quirks.shift { s.registers[x as int] } else { s.registers[y as int] };
            let right = next_state(s, Instruction::ShiftRight(x, y), 0);
            let left = next_state(s, Instruction::ShiftLeft(x, y), 0);
            &&& 2 * right.registers[x as int] + right.registers[15] == v
            &&& left.registers[x as int] + 256 * left.registers[15] == 2 * v
        }),
{
}

/// The timers count down one per tick and stop at zero; the buzzer sounds
/// exactly while the sound timer is above zero.
pub proof fn law_timers_count_down(s: Chip8View)
    ensures
        timers_ticked(s).sound_timer == if s.sound_timer == 0 { 0 } else { s.sound_timer - 1 },
        timers_ticked(s).delay_timer == if s.delay_timer == 0 { 0 } else { s.delay_timer - 1 },
        !timers_ticked(s).waiting_vblank,
{
}

/// The keyboard layout is one-to-one: each of the sixteen CHIP-8 keys has exactly one host key.
pub proof fn law_keypad_layout_bijective(a: HostKey, b: HostKey, k: u8)
    ensures
        keypad_key(a) is Some && keypad_key(a) == keypad_key(b) ==> a == b,
        k < KEY_COUNT ==> exists|h: HostKey| keypad_key(h) == Some(k),
{
    if k < KEY_COUNT {
        let h = if k == 0 {
            HostKey::X
        } else if k == 1 {
            HostKey::Key1
        } else if k == 2 {
            HostKey::Key2
        } else if k == 3 {
            HostKey::Key3
        } else if k == 4 {
            HostKey::Q
        } else if k == 5 {
            HostKey::W
        } else if k == 6 {
            HostKey::E
        } else if k == 7 {
            HostKey::A
        } else if k == 8 {
            HostKey::S
        } else if k == 9 {
            HostKey::D
        } else if k == 0xA {
            HostKey::Z
        } else if k == 0xB {
            HostKey::C
        } else if k == 0xC {
            HostKey::Key4
        } else if k == 0xD {
            HostKey::R
        } else if k == 0xE {
            HostKey::F
        } else {
            HostKey::V
        };
        assert(keypad_key(h) == Some(k));
    }
}

/// Sprite rows are read most significant bit first: column `col` of a row byte is
/// bit `7 - col`.
proof fn lemma_sprite_bit_msb_first(b: u8, col: u8)
    requires
        col < 8,
    ensures
        (b & (0x80u8 >> col) != 0) == ((b >> ((7 - col) as u8)) & 1u8 == 1u8),
{
    assert((b & (0x80u8 >> col) != 0) == ((b >> ((7 - col) as u8)) & 1u8 == 1u8)) by (bit_vector)
        requires
            col < 8,
    ;
}

/// `DXYN` flips exactly the display pixels under the set bits of the sprite: row
/// `row` of the sprite is the byte at `I + row`, its most significant bit is the
/// leftmost pixel, the sprite starts at `(VX mod 64, VY mod 32)`, and pixels
/// outside the sprite's rectangle keep their value.
pub proof fn law_draw_flips_sprite_pixels(s: Chip8View, x: usize, y: usize, n: usize)
    requires
        s.wf(),
        !s.waiting_vblank,
        x < 16,
        y < 16,
        n < 16,
        execute_defined(s, Instruction::Draw(x, y, n)),
    ensures
        ({
            let t = next_state(s, Instruction::Draw(x, y, n), 0);
            let x0 = (s.registers[x as int] as int) % 64;
            let y0 = (s.registers[y as int] as int) % 32;
            &&& t.framebuffer.len() == FRAMEBUFFER_LEN
            &&& forall|row: int, col: int|
                0 <= row < n && 0 <= col < 8 && y0 + row < 32 && x0 + col < 64 ==> #[trigger] t.framebuffer[(
                y0 + row) * 64 + x0 + col] == (s.framebuffer[(y0 + row) * 64 + x0 + col] != ((
                #[trigger] s.memory[s.index + row] >> ((7 - col) as u8)) & 1u8 == 1u8))
            &&& forall|p: int|
                0 <= p < FRAMEBUFFER_LEN && (p / 64 < y0 || p / 64 >= y0 + n || p % 64 < x0 || p % 64
                    >= x0 + 8) ==> #[trigger] t.framebuffer[p] == s.framebuffer[p]
            &&& t.memory == s.memory
            &&& t.waiting_vblank
            &&& t.draw_flag
        }),
{
    let t = next_state(s, Instruction::Draw(x, y, n), 0);
    let x0 = (s.registers[x as int] as int) % 64;
    let y0 = (s.registers[y as int] as int) % 32;
    assert forall|row: int, col: int|
        0 <= row < n && 0 <= col < 8 && y0 + row < 32 && x0 + col < 64 implies #[trigger] t.framebuffer[(
    y0 + row) * 64 + x0 + col] == (s.framebuffer[(y0 + row) * 64 + x0 + col] != ((
    #[trigger] s.memory[s.index + row] >> ((7 - col) as u8)) & 1u8 == 1u8)) by {
        let p = (y0 + row) * 64 + x0 + col;
        vstd::arithmetic::div_mod::lemma_fundamental_div_mod_converse(p, 64, y0 + row, x0 + col);
        assert(0 <= p < FRAMEBUFFER_LEN) by (nonlinear_arith)
            requires
                p == (y0 + row) * 64 + x0 + col,
                0 <= x0 + col < 64,
                0 <= y0 + row < 32,
        ;
        lemma_sprite_bit_msb_first(s.memory[s.index + row], col as u8);
        assert(col as u8 as int == col);
    }
}

/// `DXYN` sets `VF` to 1 exactly when it turns some lit pixel off, and to 0
/// otherwise; in particular drawing on a blank display leaves `VF` at 0.
pub proof fn law_draw_collision_flag(s: Chip8View, x: usize, y: usize, n: usize)
    requires
        s.wf(),
        !s.waiting_vblank,
        x < 16,
        y < 16,
        n < 16,
    ensures
        ({
            let t = next_state(s, Instruction::Draw(x, y, n), 0);
            &&& t.registers[15] == 0 || t.registers[15] == 1
            &&& (t.registers[15] == 1) == exists|p: int|
                0 <= p < FRAMEBUFFER_LEN && #[trigger] s.framebuffer[p] && !t.framebuffer[p]
            &&& (forall|p: int| 0 <= p < FRAMEBUFFER_LEN ==> !#[trigger] s.framebuffer[p])
                ==> t.registers[15] == 0
        }),
{
    let t = next_state(s, Instruction::Draw(x, y, n), 0);
    let x0 = (s.registers[x as int] as int) % (SCREEN_WIDTH as int);
    let y0 = (s.registers[y as int] as int) % (SCREEN_HEIGHT as int);
    if exists|p: int| 0 <= p < FRAMEBUFFER_LEN && #[trigger] s.framebuffer[p] && !t.framebuffer[p] {
        let p = choose|p: int|
            0 <= p < FRAMEBUFFER_LEN && #[trigger] s.framebuffer[p] && !t.framebuffer[p];
        assert(sprite_covers(s, x0, y0, n as int, p));
    }
    if t.registers[15] == 1 {
        let p = choose|p: int|
            0 <= p < FRAMEBUFFER_LEN && #[trigger] sprite_covers(s, x0, y0, n as int, p)
                && s.framebuffer[p];
        assert(s.framebuffer[p] && !t.framebuffer[p]);
    }
}

/// `FX55` writes `VK` to address `I + K` for every `K <= X`, leaves all other
/// memory and the registers alone, and advances `I` past the last byte unless the
/// load/store quirk is on.
pub proof fn law_store_registers(s: Chip8View, x: usize)
    requires
        s.wf(),
        x < 16,
        execute_defined(s, Instruction::StoreRegs(x)),
    ensures
        ({
            let t = next_state(s, Instruction::StoreRegs(x), 0);
            &&& t.memory.len() == MEMORY_BYTES
            &&& forall|k: int| 0 <= k <= x ==> #[trigger] t.memory[s.index + k] == s.registers[k]
            &&& forall|a: int|
                0 <= a < MEMORY_BYTES && !(s.index <= a <= s.index + x) ==> #[trigger] t.memory[a]
                    == s.memory[a]
            &&& t.registers == s.registers
            &&& t.index == if s.quirks.load_store { s.index as int } else { s.index + x + 1 }
        }),
{
    let t = next_state(s, Instruction::StoreRegs(x), 0);
    assert forall|k: int| 0 <= k <= x implies #[trigger] t.memory[s.index + k] == s.registers[k] by {
        assert(s.index + k - s.index == k);
    }
}

/// `FX65` sets `VK` to the byte at `I + K` for every `K <= X`, leaves the other
/// registers and memory alone, and advances `I` past the last byte unless the
/// load/store quirk is on.
pub proof fn law_load_registers(s: Chip8View, x: usize)
    requires
        s.wf(),
        x < 16,
        execute_defined(s, Instruction::LoadRegs(x)),
    ensures
        ({
            let t = next_state(s, Instruction::LoadRegs(x), 0);
            &&& t.registers.len() == 16
            &&& forall|k: int| 0 <= k <= x ==> #[trigger] t.registers[k] == s.memory[s.index + k]
            &&& forall|k: int| x < k < 16 ==> #[trigger] t.registers[k] == s.registers[k]
            &&& t.memory == s.memory
            &&& t.index == if s.quirks.load_store { s.index as int } else { s.index + x + 1 }
        }),
{
}

/// `8XY1`, `8XY2`, `8XY3`: bitwise OR, AND and XOR of `VX` and `VY` into `VX`, with `VF`
/// cleared. XOR is undone by a second XOR with `VY`, and `8XX3` clears `VX`.
pub proof fn law_bitwise_ops(s: Chip8View, x: usize, y: usize)
    requires
        s.wf(),
        x < 15,
        y < 16,
    ensures
        ({
            let (a, b) = (s.registers[x as int], s.registers[y as int]);
            let or = next_state(s, Instruction::Or(x, y), 0);
            let and = next_state(s, Instruction::And(x, y), 0);
            let xor = next_state(s, Instruction::Xor(x, y), 0);
            &&& or.registers[x as int] & a == a
            &&& or.registers[x as int] & b == b
            &&& or.registers[x as int] & !a & !b == 0
            &&& and.registers[x as int] & a == and.registers[x as int]
            &&& and.registers[x as int] & b == and.registers[x as int]
            &&& (a & b) & !and.registers[x as int] == 0
            &&& xor.registers[x as int] ^ b == a
            &&& xor.registers[x as int] & (a & b) == 0
            &&& xor.registers[x as int] | (a & b) == a | b
            &&& or.registers[15] == 0 && and.registers[15] == 0 && xor.registers[15] == 0
            &&& next_state(s, Instruction::Xor(x, x), 0).registers[x as int] == 0
        }),
{
    let (a, b) = (s.registers[x as int], s.registers[y as int]);
    assert((a | b) & a == a && (a | b) & b == b && (a | b) & !a & !b == 0) by (bit_vector);
    assert((a & b) & a == a & b && (a & b) & b == a & b && (a & b) & !(a & b) == 0) by (bit_vector);
    assert((a ^ b) ^ b == a && (a ^ b) & (a & b) == 0 && (a ^ b) | (a & b) == a | b) by (bit_vector);
    assert(a ^ a == 0) by (bit_vector);
}

/// `EX9E` skips the next instruction exactly when key `VX` is down now, and `EXA1`
/// exactly when it is up now; the previous keypad plays no part, and nothing but
/// the program counter changes.
pub proof fn law_key_skips_read_current_keypad(s: Chip8View, x: usize, last: Seq<bool>)
    requires
        s.wf(),
        x < 16,
        s.registers[x as int] < 16,
        s.pc + 2 <= u16::MAX,
    ensures
        ({
            let k = s.registers[x as int] as int;
            let other = Chip8View { last_keypad: last, ..s };
            &&& next_state(s, Instruction::SkipKeyDown(x), 0) == (Chip8View {
                pc: if s.keypad[k] { (s.pc + 2) as u16 } else { s.pc },
                ..s
            })
            &&& next_state(s, Instruction::SkipKeyUp(x), 0) == (Chip8View {
                pc: if s.keypad[k] { s.pc } else { (s.pc + 2) as u16 },
                ..s
            })
            &&& next_state(other, Instruction::SkipKeyDown(x), 0).pc == next_state(
                s,
                Instruction::SkipKeyDown(x),
                0,
            ).pc
            &&& next_state(other, Instruction::SkipKeyUp(x), 0).pc == next_state(
                s,
                Instruction::SkipKeyUp(x),
                0,
            ).pc
        }),
{
}

/// Loading a ROM that fits puts byte `K` of the ROM at `0x200 + K`, for every `K`,
/// and changes nothing else.
pub proof fn law_load_rom_copies_rom(s: Chip8View, rom: Seq<u8>)
    requires
        s.wf(),
        rom.len() <= MEMORY_BYTES - 0x200,
    ensures
        ({
            let t = with_rom(s, rom);
            &&& t.memory.len() == MEMORY_BYTES
            &&& forall|k: int| 0 <= k < rom.len() ==> #[trigger] t.memory[0x200 + k] == rom[k]
            &&& forall|a: int|
                0 <= a < MEMORY_BYTES && !(0x200 <= a < 0x200 + rom.len()) ==> #[trigger] t.memory[a]
                    == s.memory[a]
            &&& t == (Chip8View { memory: t.memory, ..s })
        }),
{
    let t = with_rom(s, rom);
    assert forall|k: int| 0 <= k < rom.len() implies #[trigger] t.memory[0x200 + k] == rom[k] by {
        assert(0x200 + k - 0x200 == k);
    }
}

/// The opcode that an instruction is written as, assembled nibble by nibble.
pub open spec fn encode(ins: Instruction) -> int {
    let op = |a: int, x: int, y: int, n: int| a * 0x1000 + x * 0x100 + y * 0x10 + n;
    let opnn = |a: int, x: int, nn: int| a * 0x1000 + x * 0x100 + nn;
    match ins {
        Instruction::ClearScreen => 0x00E0,
        Instruction::Return => 0x00EE,
        Instruction::Jump(nnn) => 0x1000 + nnn,
        Instruction::Call(nnn) => 0x2000 + nnn,
        Instruction::SkipEqImm(x, nn) => opnn(3, x as int, nn as int),
        Instruction::SkipNeImm(x, nn) => opnn(4, x as int, nn as int),
        Instruction::SkipEqReg(x, y) => op(5, x as int, y as int, 0),
        Instruction::LoadImm(x, nn) => opnn(6, x as int, nn as int),
        Instruction::AddImm(x, nn) => opnn(7, x as int, nn as int),
        Instruction::Move(x, y) => op(8, x as int, y as int, 0),
        Instruction::Or(x, y) => op(8, x as int, y as int, 1),
        Instruction::And(x, y) => op(8, x as int, y as int, 2),
        Instruction::Xor(x, y) => op(8, x as int, y as int, 3),
        Instruction::AddReg(x, y) => op(8, x as int, y as int, 4),
        Instruction::SubReg(x, y) => op(8, x as int, y as int, 5),
        Instruction::ShiftRight(x, y) => op(8, x as int, y as int, 6),
        Instruction::SubRev(x, y) => op(8, x as int, y as int, 7),
        Instruction::ShiftLeft(x, y) => op(8, x as int, y as int, 0xE),
        Instruction::SkipNeReg(x, y) => op(9, x as int, y as int, 0),
        Instruction::LoadIndex(nnn) => 0xA000 + nnn,
        Instruction::JumpOffset(nnn) => 0xB000 + nnn,
        Instruction::Random(x, nn) => opnn(0xC, x as int, nn as int),
        Instruction::Draw(x, y, n) => op(0xD, x as int, y as int, n as int),
        Instruction::SkipKeyDown(x) => opnn(0xE, x as int, 0x9E),
        Instruction::SkipKeyUp(x) => opnn(0xE, x as int, 0xA1),
        Instruction::WaitKey(x) => opnn(0xF, x as int, 0x0A),
        Instruction::GetDelay(x) => opnn(0xF, x as int, 0x07),
        Instruction::SetDelay(x) => opnn(0xF, x as int, 0x15),
        Instruction::SetSound(x) => opnn(0xF, x as int, 0x18),
        Instruction::AddIndex(x) => opnn(0xF, x as int, 0x1E),
        Instruction::FontChar(x) => opnn(0xF, x as int, 0x29),
        Instruction::StoreBcd(x) => opnn(0xF, x as int, 0x33),
        Instruction::StoreRegs(x) => opnn(0xF, x as int, 0x55),
        Instruction::LoadRegs(x) => opnn(0xF, x as int, 0x65),
        Instruction::Unknown(op) => op as int,
    }
}

/// Decoding loses nothing: writing the decoded instruction back as an opcode gives
/// the opcode that was decoded, for every 16-bit word.
pub proof fn law_decode_round_trip(op: u16)
    ensures
        encode(decode_spec(op)) == op,
{
    let (a, b, c, d) = nibbles(op);
    assert(op == a * 0x1000 + b * 0x100 + c * 0x10 + d && op % 0x100 == c * 0x10 + d && op % 0x1000
        == b * 0x100 + c * 0x10 + d && a < 16 && b < 16 && c < 16 && d < 16) by (bit_vector)
        requires
            a == op / 0x1000,
            b == (op / 0x100) % 0x10,
            c == (op / 0x10) % 0x10,
            d == op % 0x10,
    ;
}

/// The opcode is read big-endian at the program counter: its high byte is the
/// byte at `PC`, its low byte the byte at `PC + 1`.
pub proof fn law_fetch_big_endian(s: Chip8View)
    requires
        s.wf(),
        s.pc + 1 < MEMORY_BYTES,
    ensures
        fetched(s) >> 8 == s.memory[s.pc as int],
        fetched(s) & 0xFF == s.memory[s.pc + 1],
        advanced(s).pc == s.pc + 2,
{
    let (hi, lo) = (s.memory[s.pc as int], s.memory[s.pc + 1]);
    let v = fetched(s);
    assert(v == hi * 256 + lo);
    assert(v >> 8 == hi && v & 0xFF == lo) by (bit_vector)
        requires
            v == hi * 256 + lo,
    ;
}

/// Register loads and moves: `6XNN`, `7XNN` (adds modulo 256 and leaves `VF`
/// alone), `8XY0`, and `8XY7` (the flag is 1 exactly when no borrow occurs).
pub proof fn law_register_loads(s: Chip8View, x: usize, y: usize, nn: u8)
    requires
        s.wf(),
        x < 15,
        y < 15,
    ensures
        next_state(s, Instruction::LoadImm(x, nn), 0).registers == s.registers.update(x as int, nn),
        ({
            let t = next_state(s, Instruction::AddImm(x, nn), 0);
            &&& (t.registers[x as int] as int - s.registers[x as int] - nn) % 256 == 0
            &&& t.registers[15] == s.registers[15]
            &&& forall|k: int| 0 <= k < 16 && k != x ==> #[trigger] t.registers[k] == s.registers[k]
        }),
        next_state(s, Instruction::Move(x, y), 0).registers[x as int] == s.registers[y as int],
        ({
            let t = next_state(s, Instruction::SubRev(x, y), 0);
            &&& t.registers[x as int] + s.registers[x as int] == s.registers[y as int] + 256 * (1
                - t.registers[15])
            &&& (t.registers[15] == 1) == (s.registers[y as int] >= s.registers[x as int])
        }),
{
}

/// The conditional skips `3XNN`, `4XNN`, `5XY0`, `9XY0` add 2 to the program
/// counter exactly when their comparison holds, and change nothing else.
pub proof fn law_conditional_skips(s: Chip8View, x: usize, y: usize, nn: u8)
    requires
        s.wf(),
        x < 16,
        y < 16,
        s.pc + 2 <= u16::MAX,
    ensures
        ({
            let (a, b) = (s.registers[x as int], s.registers[y as int]);
            let skipped = Chip8View { pc: (s.pc + 2) as u16, ..s };
            &&& next_state(s, Instruction::SkipEqImm(x, nn), 0) == if a == nn { skipped } else { s }
            &&& next_state(s, Instruction::SkipNeImm(x, nn), 0) == if a != nn { skipped } else { s }
            &&& next_state(s, Instruction::SkipEqReg(x, y), 0) == if a == b { skipped } else { s }
            &&& next_state(s, Instruction::SkipNeReg(x, y), 0) == if a != b { skipped } else { s }
        }),
{
}

/// Control flow and the index register: `1NNN` and `2NNN` go to `NNN` (the call
/// pushes the return address), `BNNN` goes to `NNN` plus `V0` (plus `VX`, X the high
/// nibble of `NNN`, with the jumping quirk), `ANNN` sets `I`, `FX1E` adds `VX` to
/// `I`, `FX29` points `I` at 0x50 + 5 * `VX`.
pub proof fn law_control_and_index(s: Chip8View, x: usize, nnn: u16)
    requires
        s.wf(),
        x < 16,
        nnn < 0x1000,
        s.index + s.registers[x as int] <= u16::MAX,
    ensures
        next_state(s, Instruction::Jump(nnn), 0) == (Chip8View { pc: nnn, ..s }),
        next_state(s, Instruction::Call(nnn), 0) == (Chip8View {
            pc: nnn,
            stack: s.stack.push(s.pc),
            ..s
        }),
        next_state(s, Instruction::JumpOffset(nnn), 0).pc == nnn + if s.quirks.jumping {
            s.registers[(nnn >> 8) as int]
        } else {
            s.registers[0]
        },
        next_state(s, Instruction::LoadIndex(nnn), 0) == (Chip8View { index: nnn, ..s }),
        next_state(s, Instruction::AddIndex(x), 0) == (Chip8View {
            index: (s.index + s.registers[x as int]) as u16,
            ..s
        }),
        next_state(s, Instruction::FontChar(x), 0).index == 0x50 + 5 * s.registers[x as int],
{
    assert(nnn >> 8 == nnn / 0x100) by (bit_vector);
}

/// The timer instructions: `FX07` reads the delay timer into `VX`, `FX15` and
/// `FX18` set the delay and sound timers from `VX`.
pub proof fn law_timer_instructions(s: Chip8View, x: usize)
    requires
        s.wf(),
        x < 16,
    ensures
        next_state(s, Instruction::GetDelay(x), 0).registers == s.registers.update(
            x as int,
            s.delay_timer,
        ),
        next_state(s, Instruction::SetDelay(x), 0) == (Chip8View {
            delay_timer: s.registers[x as int],
            ..s
        }),
        next_state(s, Instruction::SetSound(x), 0) == (Chip8View {
            sound_timer: s.registers[x as int],
            ..s
        }),
{
}

/// `00E0` turns every pixel off and flags the display for redrawing.
pub proof fn law_clear_screen(s: Chip8View)
    requires
        s.wf(),
    ensures
        ({
            let t = next_state(s, Instruction::ClearScreen, 0);
            &&& t.framebuffer.len() == FRAMEBUFFER_LEN
            &&& forall|p: int| 0 <= p < FRAMEBUFFER_LEN ==> !#[trigger] t.framebuffer[p]
            &&& t.draw_flag
            &&& t.registers == s.registers && t.memory == s.memory && t.pc == s.pc
        }),
{
}

/// `FX0A` stores the lowest key that was down before the latest `set_keys` and is
/// up now; while there is none, it leaves everything but the program counter
/// alone and moves the program counter back onto itself.
pub proof fn law_wait_key(s: Chip8View, x: usize)
    requires
        s.wf(),
        x < 16,
        s.pc >= 2,
    ensures
        ({
            let t = next_state(s, Instruction::WaitKey(x), 0);
            let k = t.registers[x as int] as int;
            (exists|j: int| 0 <= j < KEY_COUNT && s.last_keypad[j] && !#[trigger] s.keypad[j]) ==> {
                &&& 0 <= k < KEY_COUNT
                &&& s.last_keypad[k] && !s.keypad[k]
                &&& forall|j: int| 0 <= j < k ==> !(s.last_keypad[j] && !#[trigger] s.keypad[j])
                &&& t == (Chip8View { registers: s.registers.update(x as int, k as u8), ..s })
            }
        }),
        (forall|j: int| 0 <= j < KEY_COUNT ==> !(s.last_keypad[j] && !#[trigger] s.keypad[j]))
            ==> next_state(s, Instruction::WaitKey(x), 0) == (Chip8View {
            pc: (s.pc - 2) as u16,
            ..s
        }),
{
    lemma_first_released_spec(s, 0);
    let t = next_state(s, Instruction::WaitKey(x), 0);
    if exists|j: int| 0 <= j < KEY_COUNT && s.last_keypad[j] && !#[trigger] s.keypad[j] {
        let j = choose|j: int| 0 <= j < KEY_COUNT && s.last_keypad[j] && !#[trigger] s.keypad[j];
        assert(key_released(s, j));
        let f = first_released_from(s, 0);
        assert(f < KEY_COUNT);
        assert(t.registers[x as int] as int == f);
        assert forall|i: int| 0 <= i < f implies !(s.last_keypad[i] && !#[trigger] s.keypad[i]) by {
            assert(!key_released(s, i));
        }
    } else {
        assert forall|i: int| 0 <= i < KEY_COUNT implies !#[trigger] key_released(s, i) by {
            assert(!(s.last_keypad[i] && !s.keypad[i]));
        }
    }
}

/// `first_released_from(s, i)` is the least released key at or above `i`, or 16.
proof fn lemma_first_released_spec(s: Chip8View, i: int)
    requires
        0 <= i <= KEY_COUNT,
    ensures
        ({
            let f = first_released_from(s, i);
            &&& i <= f <= KEY_COUNT
            &&& f < KEY_COUNT ==> key_released(s, f)
            &&& forall|j: int| i <= j < f ==> !#[trigger] key_released(s, j)
        }),
    decreases KEY_COUNT - i,
{
    if i < KEY_COUNT {
        lemma_first_released_spec(s, i + 1);
    }
}

/// At power-on the display is blank, all registers, `I`, the timers and the stack
/// are empty or zero, no key is down, and execution starts at 0x200.
pub proof fn law_power_on(quirks: QuirkConfig)
    ensures
        ({
            let s = initial_state(quirks);
            &&& s.wf()
            &&& s.pc == 0x200
            &&& s.index == 0
            &&& s.stack.len() == 0
            &&& s.delay_timer == 0 && s.sound_timer == 0
            &&& forall|k: int| 0 <= k < 16 ==> #[trigger] s.registers[k] == 0
            &&& forall|k: int| 0 <= k < 16 ==> !#[trigger] s.keypad[k] && !s.last_keypad[k]
            &&& forall|p: int| 0 <= p < FRAMEBUFFER_LEN ==> !#[trigger] s.framebuffer[p]
            &&& forall|a: int| 0x200 <= a < MEMORY_BYTES ==> #[trigger] s.memory[a] == 0
            &&& !s.waiting_vblank && !s.draw_flag
            &&& s.quirks == quirks
        }),
{
}

/// `set_keys` makes the given keys the current keypad and the current keypad the previous one.
pub proof fn law_set_keys(s: Chip8View, keys: Seq<bool>)
    ensures
        with_keys(s, keys).keypad == keys,
        with_keys(s, keys).last_keypad == s.keypad,
        with_keys(s, keys) == (Chip8View { keypad: keys, last_keypad: s.keypad, ..s }),
{
}

/// Only two things fail: `00EE` with an empty stack (`StackUnderflow`) and a word
/// that is no instruction (`UnknownOpcode` carrying that word); everything else succeeds.
pub proof fn law_outcomes(s: Chip8View, ins: Instruction)
    ensures
        outcome(s, Instruction::Return) == if s.stack.len() == 0 {
            Err::<(), Chip8Error>(Chip8Error::StackUnderflow)
        } else {
            Ok(())
        },
        ins is Unknown ==> outcome(s, ins) == Err::<(), Chip8Error>(
            Chip8Error::UnknownOpcode(ins->Unknown_0),
        ),
        !(ins is Unknown) && !(ins is Return) ==> outcome(s, ins) == Ok::<(), Chip8Error>(()),
        decode_spec(0x0000) == Instruction::Unknown(0),
{
}

} // verus!
