//! The ways in which an invocation is rejected.
use vstd::prelude::*;

verus! {

/// Why an invocation failed. Every failure rejects the invocation as a whole.
#[derive(Clone, Copy, Debug, PartialEq, Eq, Structural)]
pub enum AccessError {
    /// The instruction buffer is empty or its first byte names no operation.
    UnknownOperation,
    /// The argument payload does not have the length the operation asks for.
    MalformedInstructionData,
    /// The account list does not have one account per role.
    AccountArityMismatch,
    /// The data account's bytes cannot be read as the fixed-layout record:
    /// their length, or the address they start at, does not fit it.
    RecordSizeMismatch,
}

} // verus!
