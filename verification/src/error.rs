//! The closed set of syscall errors. No syscall panics on what a caller supplies:
//! every path that can fail returns one of these.

use vstd::prelude::*;

verus! {

#[derive(Clone, Copy, PartialEq, Eq, Structural, Debug)]
pub enum SyscallError {
    InvalidCapability,
    InvalidArgument,
    IllegalOperation,
    RangeError,
    AlignmentError,
    FailedLookup,
    TruncatedMessage,
    NotEnoughMemory,
    /// Also means "no other thread is ready, so this operation cannot block without
    /// stranding the hart": there is no idle thread.
    Timeout,
}

impl SyscallError {
    pub open spec fn spec_code(self) -> usize {
        match self {
            SyscallError::InvalidCapability => 1,
            SyscallError::InvalidArgument => 2,
            SyscallError::IllegalOperation => 3,
            SyscallError::RangeError => 4,
            SyscallError::AlignmentError => 5,
            SyscallError::FailedLookup => 6,
            SyscallError::TruncatedMessage => 7,
            SyscallError::NotEnoughMemory => 8,
            SyscallError::Timeout => 9,
        }
    }

    /// The value that a caller finds in `mr0` after an error.
    #[verifier::when_used_as_spec(spec_code)]
    pub fn code(self) -> (code: usize)
        ensures
            code == self.spec_code(),
    {
        match self {
            SyscallError::InvalidCapability => 1,
            SyscallError::InvalidArgument => 2,
            SyscallError::IllegalOperation => 3,
            SyscallError::RangeError => 4,
            SyscallError::AlignmentError => 5,
            SyscallError::FailedLookup => 6,
            SyscallError::TruncatedMessage => 7,
            SyscallError::NotEnoughMemory => 8,
            SyscallError::Timeout => 9,
        }
    }
}

/// Two different errors never share a code, and no code is zero: a caller can tell
/// from `mr0` alone which error it got.
pub proof fn law_error_codes_are_distinct(a: SyscallError, b: SyscallError)
    ensures
        a.code() == b.code() <==> a == b,
        1 <= a.code() <= 9,
{
}

} // verus!
