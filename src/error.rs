use vstd::prelude::*;

verus! {

/// What can make a single interpreter step, or a program load, fail.
#[derive(Debug, Clone, Copy, PartialEq, Eq, Structural)]
pub enum Chip8Error {
    /// The fetched word matches no instruction of the set.
    UnknownOpcode(u16),
    /// A subroutine call was made with all sixteen stack slots in use.
    StackOverflow,
    /// A return was made with an empty call stack.
    StackUnderflow,
    /// The program does not fit between 0x200 and the end of memory.
    RomTooLarge,
}

} // verus!
