use vstd::prelude::*;

verus! {

/// A fatal condition of the machine itself: the run aborts at once and the
/// caller sees the reason, as opposed to a program-directed halt or revert.
#[derive(Clone, Copy, PartialEq, Eq, Structural, Debug)]
pub enum VmError {
    StackOverflow,
    StackUnderflow,
    OutOfGas,
    InvalidJumpDestination,
    InvalidOpcode,
    MemoryAccessFault,
}

} // verus!
