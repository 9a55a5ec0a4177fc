use vstd::prelude::*;

verus! {

/// Everything that can go wrong while loading or running a program.
#[derive(Clone, Copy, Debug, PartialEq, Eq, Structural)]
pub enum Chip8Error {
    /// The ROM does not fit between the program start address and the end of memory.
    RomTooLarge { rom_size: usize, available: usize },
    /// The fetched word is not a CHIP-8 instruction.
    UnknownOpcode(u16),
    /// `00EE` was executed with an empty call stack.
    StackUnderflow,
}

/// Result type of the interpreter's fallible operations.
pub type Result<T> = std::result::Result<T, Chip8Error>;

} // verus!
