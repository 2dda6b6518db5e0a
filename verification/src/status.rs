//! Terminal outcomes of an execution frame.
use vstd::prelude::*;

verus! {

#[derive(Clone, Copy, Debug, PartialEq, Eq, Structural)]
/// The discriminated set of terminal outcomes. Every status but
/// `Completion` is an abnormal halt; there is no local recovery.
pub enum StatusCode {
    /// Normal halt: STOP, RETURN, or the program counter ran past the code.
    Completion,
    /// Reserved for intentional reverts in a stricter execution mode.
    Revert,
    /// The gas charge of an instruction exceeded the remaining budget.
    OutOfGas,
    /// A jump targeted an index at or past the end of the code.
    BadJumpDest,
    /// A push would have grown the stack past its capacity.
    StackOverflow,
    /// A pop found the stack empty.
    StackUnderflow,
    /// An index to peek or swap lay outside the stack.
    ArgOutOfRange,
    /// A memory range did not fit the address space; also reserved for
    /// out-of-range reads in a stricter mode.
    InvalidMemoryAccess,
    /// The opcode byte has no handler.
    UndefinedInstruction,
}

} // verus!
