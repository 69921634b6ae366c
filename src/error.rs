use vstd::prelude::*;

verus! {

/// Fatal conditions reported by the decoder, the engine and the loader.
#[derive(Debug, Clone, Copy, PartialEq, Eq, Structural)]
pub enum VmError {
    /// No entry of the instruction table matches the word.
    InvalidOpcode(u16),
    /// A call was made with every stack slot in use.
    StackOverflow,
    /// A return was made with an empty call stack.
    StackUnderflow,
    /// A jump target or fetch address lies outside memory.
    InvalidAddress,
    /// Adding to the index register left addressable memory.
    AddressOverflow,
    /// A block of memory accessed by an instruction runs past the end of memory.
    MemoryOverflow,
    /// A digit sprite was requested for a value above 0xF.
    InvalidDigit,
    /// A program does not fit in the space above the reserved area.
    ProgramTooLarge,
}

} // verus!
