//! The reasons for which a call is turned down.

use vstd::prelude::*;

verus! {

/// Why a call was rejected. A rejected call changes nothing.
#[derive(Copy, Clone, Debug, PartialEq, Eq, PartialOrd, Ord, Structural)]
pub enum Error {
    /// `init` was called on an instance that already holds a schedule.
    ContractAlreadyInitialized,
    /// `withdraw` was called on an instance that holds no schedule yet.
    ContractNotInitialized,
    /// The invoker is neither the holder nor the party.
    InvalidAuth,
    /// The current interval has not yet elapsed.
    PartyAlreadyWithdrawn,
    /// Reserved; no call produces it.
    InvalidInvoker,
    /// The step is zero, or the terms yield no installment.
    InvalidArguments,
}

impl Error {
    /// The number under which the error is reported to the caller.
    pub open spec fn spec_code(self) -> u32 {
        match self {
            Error::ContractAlreadyInitialized => 1,
            Error::ContractNotInitialized => 2,
            Error::InvalidAuth => 3,
            Error::PartyAlreadyWithdrawn => 4,
            Error::InvalidInvoker => 5,
            Error::InvalidArguments => 6,
        }
    }

    /// The number under which the error is reported to the caller.
    pub fn code(self) -> (c: u32)
        ensures
            c == self.spec_code(),
            1 <= c <= 6,
    {
        match self {
            Error::ContractAlreadyInitialized => 1,
            Error::ContractNotInitialized => 2,
            Error::InvalidAuth => 3,
            Error::PartyAlreadyWithdrawn => 4,
            Error::InvalidInvoker => 5,
            Error::InvalidArguments => 6,
        }
    }

    /// The error reported under `code`, if there is one.
    pub fn from_code(code: u32) -> (e: Option<Error>)
        ensures
            e is Some <==> 1 <= code <= 6,
            e is Some ==> e->0.spec_code() == code,
    {
        if code == 1 {
            Some(Error::ContractAlreadyInitialized)
        } else if code == 2 {
            Some(Error::ContractNotInitialized)
        } else if code == 3 {
            Some(Error::InvalidAuth)
        } else if code == 4 {
            Some(Error::PartyAlreadyWithdrawn)
        } else if code == 5 {
            Some(Error::InvalidInvoker)
        } else if code == 6 {
            Some(Error::InvalidArguments)
        } else {
            None
        }
    }
}

/// Distinct errors are reported under distinct numbers.
pub proof fn lemma_code_injective(a: Error, b: Error)
    requires
        a.spec_code() == b.spec_code(),
    ensures
        a == b,
{
}

} // verus!
