//! Who acts: account identifiers, and the proof that one approved a call.

use vstd::prelude::*;

verus! {

/// The two kinds of principal that a ledger knows.
#[derive(Copy, Clone, Debug, PartialEq, Eq, Structural)]
pub enum AccountKind {
    /// A key pair held by a person or a service.
    Account,
    /// A deployed program, such as a token ledger or a schedule.
    Contract,
}

/// The identifier of a principal: its kind and its 256-bit key, held as two
/// halves. Two identifiers name the same principal exactly when they are equal.
#[derive(Copy, Clone, Debug, PartialEq, Eq, Structural)]
pub struct AccountId {
    pub kind: AccountKind,
    pub high: u128,
    pub low: u128,
}

impl AccountId {
    /// The account with the given key.
    pub fn account(high: u128, low: u128) -> (id: AccountId)
        ensures
            id == (AccountId { kind: AccountKind::Account, high, low }),
    {
        AccountId { kind: AccountKind::Account, high, low }
    }

    /// The contract with the given key.
    pub fn contract(high: u128, low: u128) -> (id: AccountId)
        ensures
            id == (AccountId { kind: AccountKind::Contract, high, low }),
    {
        AccountId { kind: AccountKind::Contract, high, low }
    }
}

/// Evidence that a principal has approved the call it accompanies. Whoever
/// makes one vouches that the principal's approval was verified.
#[derive(Copy, Clone, Debug)]
pub struct Proof {
    principal: AccountId,
}

impl Proof {
    /// The principal who approved.
    pub closed spec fn spec_principal(&self) -> AccountId {
        self.principal
    }

    /// Whether this is `who`'s own approval.
    pub open spec fn covers(&self, who: AccountId) -> bool {
        self.spec_principal() == who
    }

    /// Records that `principal`'s approval of the current call was verified.
    pub fn authorize(principal: AccountId) -> (proof: Proof)
        ensures
            proof.spec_principal() == principal,
    {
        Proof { principal }
    }

    /// The principal who approved.
    pub fn principal(&self) -> (who: AccountId)
        ensures
            who == self.spec_principal(),
    {
        self.principal
    }
}

} // verus!
