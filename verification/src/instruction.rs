use vstd::prelude::*;

verus! {

/// A decoded CHIP-8 instruction. `x` and `y` name registers (`0..16`), `n` is a
/// nibble, `nn` a byte and `nnn` a 12-bit address taken from the opcode.
#[derive(Clone, Copy, Debug, PartialEq, Eq, Structural)]
pub enum Instruction {
    /// `00E0`: clear the display.
    ClearScreen,
    /// `00EE`: return from a subroutine.
    Return,
    /// `1NNN`: jump to `NNN`.
    Jump(u16),
    /// `2NNN`: call the subroutine at `NNN`.
    Call(u16),
    /// `3XNN`: skip the next instruction if `VX == NN`.
    SkipEqImm(usize, u8),
    /// `4XNN`: skip the next instruction if `VX != NN`.
    SkipNeImm(usize, u8),
    /// `5XY0`: skip the next instruction if `VX == VY`.
    SkipEqReg(usize, usize),
    /// `6XNN`: `VX = NN`.
    LoadImm(usize, u8),
    /// `7XNN`: `VX += NN` (wrapping, `VF` untouched).
    AddImm(usize, u8),
    /// `8XY0`: `VX = VY`.
    Move(usize, usize),
    /// `8XY1`: `VX |= VY`, `VF = 0`.
    Or(usize, usize),
    /// `8XY2`: `VX &= VY`, `VF = 0`.
    And(usize, usize),
    /// `8XY3`: `VX ^= VY`, `VF = 0`.
    Xor(usize, usize),
    /// `8XY4`: `VX += VY`, `VF` = carry.
    AddReg(usize, usize),
    /// `8XY5`: `VX -= VY`, `VF` = no borrow.
    SubReg(usize, usize),
    /// `8XY6`: shift right by one, `VF` = the bit shifted out.
    ShiftRight(usize, usize),
    /// `8XY7`: `VX = VY - VX`, `VF` = no borrow.
    SubRev(usize, usize),
    /// `8XYE`: shift left by one, `VF` = the bit shifted out.
    ShiftLeft(usize, usize),
    /// `9XY0`: skip the next instruction if `VX != VY`.
    SkipNeReg(usize, usize),
    /// `ANNN`: `I = NNN`.
    LoadIndex(u16),
    /// `BNNN`: jump to `NNN` plus a register.
    JumpOffset(u16),
    /// `CXNN`: `VX = random & NN`.
    Random(usize, u8),
    /// `DXYN`: draw an `N`-row sprite from `I` at `(VX, VY)`.
    Draw(usize, usize, usize),
    /// `EX9E`: skip the next instruction if key `VX` is down.
    SkipKeyDown(usize),
    /// `EXA1`: skip the next instruction if key `VX` is up.
    SkipKeyUp(usize),
    /// `FX0A`: wait for a key release and store the key in `VX`.
    WaitKey(usize),
    /// `FX07`: `VX = delay timer`.
    GetDelay(usize),
    /// `FX15`: `delay timer = VX`.
    SetDelay(usize),
    /// `FX18`: `sound timer = VX`.
    SetSound(usize),
    /// `FX1E`: `I += VX`.
    AddIndex(usize),
    /// `FX29`: point `I` at the font glyph of digit `VX`.
    FontChar(usize),
    /// `FX33`: store the decimal digits of `VX` at `I`, `I + 1`, `I + 2`.
    StoreBcd(usize),
    /// `FX55`: store `V0..=VX` at `I..=I + X`.
    StoreRegs(usize),
    /// `FX65`: load `V0..=VX` from `I..=I + X`.
    LoadRegs(usize),
    /// Any word that is none of the above.
    Unknown(u16),
}

/// The four nibbles of an opcode, most significant first.
pub open spec fn nibbles(op: u16) -> (u16, u16, u16, u16) {
    (op / 0x1000, (op / 0x100) % 0x10, (op / 0x10) % 0x10, op % 0x10)
}

/// The instruction that an opcode stands for.
pub open spec fn decode_spec(op: u16) -> Instruction {
    let (a, b, c, d) = nibbles(op);
    let x = b as usize;
    let y = c as usize;
    let n = d as usize;
    let nn = (op % 0x100) as u8;
    let nnn = (op % 0x1000) as u16;
    if a == 0x0 && b == 0x0 && c == 0xE && d == 0x0 {
        Instruction::ClearScreen
    } else if a == 0x0 && b == 0x0 && c == 0xE && d == 0xE {
        Instruction::Return
    } else if a == 0x1 {
        Instruction::Jump(nnn)
    } else if a == 0x2 {
        Instruction::Call(nnn)
    } else if a == 0x3 {
        Instruction::SkipEqImm(x, nn)
    } else if a == 0x4 {
        Instruction::SkipNeImm(x, nn)
    } else if a == 0x5 && d == 0x0 {
        Instruction::SkipEqReg(x, y)
    } else if a == 0x6 {
        Instruction::LoadImm(x, nn)
    } else if a == 0x7 {
        Instruction::AddImm(x, nn)
    } else if a == 0x8 && d == 0x0 {
        Instruction::Move(x, y)
    } else if a == 0x8 && d == 0x1 {
        Instruction::Or(x, y)
    } else if a == 0x8 && d == 0x2 {
        Instruction::And(x, y)
    } else if a == 0x8 && d == 0x3 {
        Instruction::Xor(x, y)
    } else if a == 0x8 && d == 0x4 {
        Instruction::AddReg(x, y)
    } else if a == 0x8 && d == 0x5 {
        Instruction::SubReg(x, y)
    } else if a == 0x8 && d == 0x6 {
        Instruction::ShiftRight(x, y)
    } else if a == 0x8 && d == 0x7 {
        Instruction::SubRev(x, y)
    } else if a == 0x8 && d == 0xE {
        Instruction::ShiftLeft(x, y)
    } else if a == 0x9 && d == 0x0 {
        Instruction::SkipNeReg(x, y)
    } else if a == 0xA {
        Instruction::LoadIndex(nnn)
    } else if a == 0xB {
        Instruction::JumpOffset(nnn)
    } else if a == 0xC {
        Instruction::Random(x, nn)
    } else if a == 0xD {
        Instruction::Draw(x, y, n)
    } else if a == 0xE && c == 0x9 && d == 0xE {
        Instruction::SkipKeyDown(x)
    } else if a == 0xE && c == 0xA && d == 0x1 {
        Instruction::SkipKeyUp(x)
    } else if a == 0xF && c == 0x0 && d == 0xA {
        Instruction::WaitKey(x)
    } else if a == 0xF && c == 0x0 && d == 0x7 {
        Instruction::GetDelay(x)
    } else if a == 0xF && c == 0x1 && d == 0x5 {
        Instruction::SetDelay(x)
    } else if a == 0xF && c == 0x1 && d == 0x8 {
        Instruction::SetSound(x)
    } else if a == 0xF && c == 0x1 && d == 0xE {
        Instruction::AddIndex(x)
    } else if a == 0xF && c == 0x2 && d == 0x9 {
        Instruction::FontChar(x)
    } else if a == 0xF && c == 0x3 && d == 0x3 {
        Instruction::StoreBcd(x)
    } else if a == 0xF && c == 0x5 && d == 0x5 {
        Instruction::StoreRegs(x)
    } else if a == 0xF && c == 0x6 && d == 0x5 {
        Instruction::LoadRegs(x)
    } else {
        Instruction::Unknown(op)
    }
}

impl Instruction {
    /// Register and nibble operands are below 16, addresses below 0x1000.
    pub open spec fn wf(self) -> bool {
        match self {
            Instruction::Jump(nnn) | Instruction::Call(nnn) | Instruction::LoadIndex(nnn)
            | Instruction::JumpOffset(nnn) => nnn < 0x1000,
            Instruction::SkipEqImm(x, _) | Instruction::SkipNeImm(x, _) | Instruction::LoadImm(x, _)
            | Instruction::AddImm(x, _) | Instruction::Random(x, _) => x < 16,
            Instruction::SkipEqReg(x, y) | Instruction::Move(x, y) | Instruction::Or(x, y)
            | Instruction::And(x, y) | Instruction::Xor(x, y) | Instruction::AddReg(x, y)
            | Instruction::SubReg(x, y) | Instruction::ShiftRight(x, y) | Instruction::SubRev(x, y)
            | Instruction::ShiftLeft(x, y) | Instruction::SkipNeReg(x, y) => x < 16 && y < 16,
            Instruction::Draw(x, y, n) => x < 16 && y < 16 && n < 16,
            Instruction::SkipKeyDown(x) | Instruction::SkipKeyUp(x) | Instruction::WaitKey(x)
            | Instruction::GetDelay(x) | Instruction::SetDelay(x) | Instruction::SetSound(x)
            | Instruction::AddIndex(x) | Instruction::FontChar(x) | Instruction::StoreBcd(x)
            | Instruction::StoreRegs(x) | Instruction::LoadRegs(x) => x < 16,
            _ => true,
        }
    }
}

/// Every opcode decodes to an instruction whose operands are in range.
pub proof fn lemma_decode_wf(op: u16)
    ensures
        decode_spec(op).wf(),
{
}

/// Splits an opcode into its nibbles, the way the interpreter masks and shifts it.
fn split_nibbles(opcode: u16) -> (r: (u16, u16, u16, u16))
    ensures
        r.0 == nibbles(opcode).0,
        r.1 == nibbles(opcode).1,
        r.2 == nibbles(opcode).2,
        r.3 == nibbles(opcode).3,
{
    let a = (opcode & 0xF000) >> 12;
    let b = (opcode & 0x0F00) >> 8;
    let c = (opcode & 0x00F0) >> 4;
    let d = opcode & 0x000F;
    assert(a == opcode / 0x1000 && b == (opcode / 0x100) % 0x10 && c == (opcode / 0x10) % 0x10
        && d == opcode % 0x10) by (bit_vector)
        requires
            a == (opcode & 0xF000) >> 12,
            b == (opcode & 0x0F00) >> 8,
            c == (opcode & 0x00F0) >> 4,
            d == opcode & 0x000F,
    ;
    (a, b, c, d)
}

/// Decodes a 16-bit opcode into the instruction it stands for.
pub fn decode(opcode: u16) -> (ins: Instruction)
    ensures
        ins == decode_spec(opcode),
        ins.wf(),
{
    let nibbles = split_nibbles(opcode);
    let x = nibbles.1 as usize;
    let y = nibbles.2 as usize;
    let n = nibbles.3 as usize;
    let nn = (opcode & 0x00FF) as u8;
    let nnn = opcode & 0x0FFF;
    assert(nn == opcode % 0x100 && nnn == opcode % 0x1000) by (bit_vector)
        requires
            nn == (opcode & 0x00FF) as u8,
            nnn == opcode & 0x0FFF,
    ;
    match nibbles {
        (0x0, 0x0, 0xE, 0x0) => Instruction::ClearScreen,
        (0x0, 0x0, 0xE, 0xE) => Instruction::Return,
        (0x1, _, _, _) => Instruction::Jump(nnn),
        (0x2, _, _, _) => Instruction::Call(nnn),
        (0x3, _, _, _) => Instruction::SkipEqImm(x, nn),
        (0x4, _, _, _) => Instruction::SkipNeImm(x, nn),
        (0x5, _, _, 0x0) => Instruction::SkipEqReg(x, y),
        (0x6, _, _, _) => Instruction::LoadImm(x, nn),
        (0x7, _, _, _) => Instruction::AddImm(x, nn),
        (0x8, _, _, 0x0) => Instruction::Move(x, y),
        (0x8, _, _, 0x1) => Instruction::Or(x, y),
        (0x8, _, _, 0x2) => Instruction::And(x, y),
        (0x8, _, _, 0x3) => Instruction::Xor(x, y),
        (0x8, _, _, 0x4) => Instruction::AddReg(x, y),
        (0x8, _, _, 0x5) => Instruction::SubReg(x, y),
        (0x8, _, _, 0x6) => Instruction::ShiftRight(x, y),
        (0x8, _, _, 0x7) => Instruction::SubRev(x, y),
        (0x8, _, _, 0xE) => Instruction::ShiftLeft(x, y),
        (0x9, _, _, 0x0) => Instruction::SkipNeReg(x, y),
        (0xA, _, _, _) => Instruction::LoadIndex(nnn),
        (0xB, _, _, _) => Instruction::JumpOffset(nnn),
        (0xC, _, _, _) => Instruction::Random(x, nn),
        (0xD, _, _, _) => Instruction::Draw(x, y, n),
        (0xE, _, 0x9, 0xE) => Instruction::SkipKeyDown(x),
        (0xE, _, 0xA, 0x1) => Instruction::SkipKeyUp(x),
        (0xF, _, 0x0, 0xA) => Instruction::WaitKey(x),
        (0xF, _, 0x0, 0x7) => Instruction::GetDelay(x),
        (0xF, _, 0x1, 0x5) => Instruction::SetDelay(x),
        (0xF, _, 0x1, 0x8) => Instruction::SetSound(x),
        (0xF, _, 0x1, 0xE) => Instruction::AddIndex(x),
        (0xF, _, 0x2, 0x9) => Instruction::FontChar(x),
        (0xF, _, 0x3, 0x3) => Instruction::StoreBcd(x),
        (0xF, _, 0x5, 0x5) => Instruction::StoreRegs(x),
        (0xF, _, 0x6, 0x5) => Instruction::LoadRegs(x),
        _ => Instruction::Unknown(opcode),
    }
}

} // verus!
