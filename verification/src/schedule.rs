//! The persisted record of one schedule, and the transfer that a withdrawal orders.

use vstd::prelude::*;
use crate::account::AccountId;
use crate::amount::{spec_period_amount, spec_terms_valid};

verus! {

/// The six persisted values of a schedule. Only `latest` changes after the
/// schedule was made.
#[derive(Copy, Clone, Debug, PartialEq, Eq, Structural)]
pub struct Schedule {
    /// Owns the funds and has approved the schedule as a spender.
    pub holder: AccountId,
    /// Receives the installments.
    pub party: AccountId,
    /// The token ledger that the installments are drawn from.
    pub token: AccountId,
    /// The entitlement for one year.
    pub amount: i128,
    /// The least number of seconds between two withdrawals.
    pub step: u64,
    /// The start of the interval that was last paid out.
    pub latest: u64,
}

impl Schedule {
    /// The record's terms can run: see [`spec_terms_valid`].
    pub open spec fn wf(self) -> bool {
        spec_terms_valid(self.amount, self.step)
    }

    /// Whether `invoker` is one of the two who may trigger a withdrawal.
    pub open spec fn permits(self, invoker: AccountId) -> bool {
        invoker == self.holder || invoker == self.party
    }

    /// The time from which the next withdrawal is due.
    pub open spec fn due_from(self) -> int {
        self.latest + self.step
    }

    /// Whether a withdrawal is due at `now`.
    pub open spec fn is_due(self, now: u64) -> bool {
        now >= self.due_from()
    }

    /// The installment of this schedule.
    pub open spec fn installment(self) -> int {
        spec_period_amount(self.amount, self.step)
    }

    /// The record after one more withdrawal: `latest` has moved on by one step,
    /// whatever the time of the call was.
    pub open spec fn advanced(self) -> Schedule {
        Schedule { latest: (self.latest + self.step) as u64, ..self }
    }

    /// The value kept under `key`.
    pub open spec fn spec_get(self, key: StorageKey) -> Stored {
        match key {
            StorageKey::Holder => Stored::Account(self.holder),
            StorageKey::Party => Stored::Account(self.party),
            StorageKey::TokenAddress => Stored::Account(self.token),
            StorageKey::Amount => Stored::Amount(self.amount),
            StorageKey::Step => Stored::Time(self.step),
            StorageKey::Latest => Stored::Time(self.latest),
        }
    }

    /// The value kept under `key`.
    pub fn get(&self, key: StorageKey) -> (value: Stored)
        ensures
            value == self.spec_get(key),
    {
        match key {
            StorageKey::Holder => Stored::Account(self.holder),
            StorageKey::Party => Stored::Account(self.party),
            StorageKey::TokenAddress => Stored::Account(self.token),
            StorageKey::Amount => Stored::Amount(self.amount),
            StorageKey::Step => Stored::Time(self.step),
            StorageKey::Latest => Stored::Time(self.latest),
        }
    }
}

/// The names under which the six values of a schedule are persisted.
#[derive(Copy, Clone, Debug, PartialEq, Eq, Structural)]
pub enum StorageKey {
    /// The holder's identifier.
    Holder,
    /// The party's identifier.
    Party,
    /// The token ledger's identifier.
    TokenAddress,
    /// The yearly amount.
    Amount,
    /// The step, in seconds.
    Step,
    /// The start of the interval that was last paid out.
    Latest,
}

/// A persisted value.
#[derive(Copy, Clone, Debug, PartialEq, Eq, Structural)]
pub enum Stored {
    /// An identifier.
    Account(AccountId),
    /// An amount of the token.
    Amount(i128),
    /// A number of seconds: a span or a point in time.
    Time(u64),
}

/// The order that a successful withdrawal gives to the token ledger: move
/// `amount` from `from` to `to`, with `spender` drawing on the allowance that
/// `from` has granted it.
#[derive(Copy, Clone, Debug, PartialEq, Eq, Structural)]
pub struct Transfer {
    /// The ledger that is to carry out the transfer.
    pub token: AccountId,
    /// The schedule itself, as the approved spender.
    pub spender: AccountId,
    /// The holder.
    pub from: AccountId,
    /// The party.
    pub to: AccountId,
    /// One installment.
    pub amount: i128,
}

} // verus!
