use vstd::prelude::*;
use crate::identity::Address;

verus! {

/// Why the contract turned a call down.
#[derive(Clone, Copy, Debug, PartialEq, Eq)]
pub enum Error {
    AlreadyInitialized,
    NotInitialized,
    NoActiveSession,
    IncorrectHash,
    AlreadyRegistered,
    InvalidNickname,
}

impl Error {
    /// The number under which callers see this error.
    pub open spec fn code_spec(self) -> u32 {
        match self {
            Error::AlreadyInitialized => 1,
            Error::NotInitialized => 2,
            Error::NoActiveSession => 3,
            Error::IncorrectHash => 4,
            Error::AlreadyRegistered => 5,
            Error::InvalidNickname => 6,
        }
    }

    #[verifier::when_used_as_spec(code_spec)]
    pub fn code(self) -> (c: u32)
        ensures
            c == self.code_spec(),
    {
        match self {
            Error::AlreadyInitialized => 1,
            Error::NotInitialized => 2,
            Error::NoActiveSession => 3,
            Error::IncorrectHash => 4,
            Error::AlreadyRegistered => 5,
            Error::InvalidNickname => 6,
        }
    }
}

/// How a call that changes the ledger can fail: either an identity whose
/// consent the call needs has not given it, or the contract's own rules
/// turn the call down.
#[derive(Clone, Copy, Debug, PartialEq, Eq)]
pub enum Failure {
    /// The named identity did not authorize the call.
    Unauthorized(Address),
    /// The contract rejected the call.
    Contract(Error),
}

} // verus!
