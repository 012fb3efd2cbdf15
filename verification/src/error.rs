use vstd::prelude::*;

verus! {

/// The faults that the machine reports to its host.
#[derive(Clone, Copy, Debug, PartialEq, Eq, Structural)]
pub enum ChipError {
    /// The program does not fit between the load address and the top of memory.
    RomTooLarge,
    /// A memory access would touch an address beyond the top of memory.
    AddressOutOfRange,
    /// A call was made with all sixteen stack slots in use.
    StackOverflow,
    /// A return was made with no return address on the stack.
    StackUnderflow,
}

} // verus!
