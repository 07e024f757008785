use vstd::prelude::*;

verus! {

/// A fault raised by loading a program or by executing one instruction.
/// Every fault is handed back to the caller; none aborts the process.
#[derive(Debug, Clone, Copy, PartialEq, Eq, Structural)]
pub enum Chip8Error {
    /// The instruction word names no operation.
    InvalidOpcode(u16),
    /// A subroutine call with all sixteen stack slots in use.
    StackOverflow,
    /// A return with an empty call stack.
    StackUnderflow,
    /// An address outside the 4096-byte address space was computed or touched.
    InvalidMemoryAccess(usize),
    /// A register index outside `0..16`.
    InvalidRegister(u8),
    /// A key index outside `0..16` was read from a register.
    InvalidKey(u8),
    /// A font glyph was asked for a value above `0xF`.
    InvalidFontDigit(u8),
    /// A program image larger than the space above the reserved region.
    ProgramTooLarge(usize),
}

} // verus!
