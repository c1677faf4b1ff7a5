//! One schedule per instance: made once, then paid out step by step.

use vstd::prelude::*;
use crate::account::{AccountId, Proof};
use crate::amount::{lemma_period_amount_bounds, period_amount, spec_terms_valid, terms_valid};
use crate::error::Error;
use crate::ledger::{DisburseContract, LedgerState};
use crate::schedule::{Schedule, StorageKey, Stored, Transfer};

verus! {

/// What `init` answers in state `state`: it fails on an instance that already
/// holds a schedule, then on terms that cannot run.
pub open spec fn init_result(state: Option<Schedule>, amount: i128, step: u64) -> Result<
    (),
    Error,
> {
    if state is Some {
        Err(Error::ContractAlreadyInitialized)
    } else if !spec_terms_valid(amount, step) {
        Err(Error::InvalidArguments)
    } else {
        Ok(())
    }
}

/// The state after `init` at time `now`. Where `init` succeeds the first
/// interval starts one step before `now`, so that a withdrawal is due at once.
pub open spec fn init_next(
    state: Option<Schedule>,
    holder: AccountId,
    party: AccountId,
    token: AccountId,
    amount: i128,
    step: u64,
    now: u64,
) -> Option<Schedule> {
    if init_result(state, amount, step) is Ok {
        Some(Schedule { holder, party, token, amount, step, latest: (now - step) as u64 })
    } else {
        state
    }
}

/// The transfer that a withdrawal from `schedule` orders, for an instance
/// deployed at `address`.
pub open spec fn transfer_of(schedule: Schedule, address: AccountId) -> Transfer {
    Transfer {
        token: schedule.token,
        spender: address,
        from: schedule.holder,
        to: schedule.party,
        amount: schedule.installment() as i128,
    }
}

/// Whether `invoker` may ask for a withdrawal in state `state`: there must be
/// a schedule, and the invoker must be its holder or its party.
pub open spec fn access_result(state: Option<Schedule>, invoker: AccountId) -> Result<(), Error> {
    match state {
        None => Err(Error::ContractNotInitialized),
        Some(schedule) => if schedule.permits(invoker) {
            Ok(())
        } else {
            Err(Error::InvalidAuth)
        },
    }
}

/// What a withdrawal answers in state `state` to `invoker` at time `now`: the
/// transfer that it orders, or the reason for which it is turned down.
pub open spec fn withdraw_result(
    state: Option<Schedule>,
    address: AccountId,
    invoker: AccountId,
    now: u64,
) -> Result<Transfer, Error> {
    match state {
        None => Err(Error::ContractNotInitialized),
        Some(schedule) => if !schedule.permits(invoker) {
            Err(Error::InvalidAuth)
        } else if !schedule.is_due(now) {
            Err(Error::PartyAlreadyWithdrawn)
        } else {
            Ok(transfer_of(schedule, address))
        },
    }
}

/// The state after a withdrawal: advanced by one step where it succeeds,
/// unchanged where it fails.
pub open spec fn withdraw_next(state: Option<Schedule>, invoker: AccountId, now: u64) -> Option<
    Schedule,
> {
    match state {
        None => None,
        Some(schedule) => if schedule.permits(invoker) && schedule.is_due(now) {
            Some(schedule.advanced())
        } else {
            state
        },
    }
}

/// Whether the ledger deployed at `token`, in state `ledger`, can carry out
/// what a withdrawal orders: it is the ledger that the schedule names, the
/// allowance covers the installment, and the installment can move. Where the
/// withdrawal is turned down there is nothing to carry out.
pub open spec fn can_carry_out(
    state: Option<Schedule>,
    address: AccountId,
    invoker: AccountId,
    now: u64,
    token: AccountId,
    ledger: LedgerState,
) -> bool {
    match withdraw_result(state, address, invoker, now) {
        Ok(order) => token == order.token && ledger.can_transfer_from(
            order.spender,
            order.from,
            order.to,
            order.amount,
        ),
        Err(_) => true,
    }
}

/// The ledger after a withdrawal: the installment has moved where the
/// withdrawal succeeds, and nothing has changed where it fails.
pub open spec fn ledger_next(
    state: Option<Schedule>,
    address: AccountId,
    invoker: AccountId,
    now: u64,
    ledger: LedgerState,
) -> LedgerState {
    match withdraw_result(state, address, invoker, now) {
        Ok(order) => ledger.transferred_from(order.spender, order.from, order.to, order.amount),
        Err(_) => ledger,
    }
}

/// What `withdraw` answers: success where a transfer was ordered, and else the
/// reason for which the withdrawal is turned down.
pub open spec fn withdraw_answer(
    state: Option<Schedule>,
    address: AccountId,
    invoker: AccountId,
    now: u64,
) -> Result<(), Error> {
    match withdraw_result(state, address, invoker, now) {
        Ok(_) => Ok(()),
        Err(error) => Err(error),
    }
}

/// One deployed instance: its own identifier and, once `init` has succeeded,
/// its schedule.
pub struct AllowanceContract {
    address: AccountId,
    schedule: Option<Schedule>,
}

impl View for AllowanceContract {
    type V = Option<Schedule>;

    /// The schedule, if the instance holds one.
    closed spec fn view(&self) -> Option<Schedule> {
        self.schedule
    }
}

impl AllowanceContract {
    #[verifier::type_invariant]
    spec fn inv(self) -> bool {
        self.schedule is Some ==> self.schedule->0.wf()
    }

    /// The identifier under which this instance is deployed.
    pub closed spec fn spec_address(&self) -> AccountId {
        self.address
    }

    /// An instance deployed at `address` that holds no schedule yet.
    pub fn new(address: AccountId) -> (contract: AllowanceContract)
        ensures
            contract@ is None,
            contract.spec_address() == address,
    {
        AllowanceContract { address, schedule: None }
    }

    /// The instance that persisted `schedule` when it was last saved, if the
    /// record's terms can run; `None` for a record that no `init` can have made.
    pub fn restore(address: AccountId, schedule: Schedule) -> (contract: Option<AllowanceContract>)
        ensures
            contract is Some <==> schedule.wf(),
            contract is Some ==> contract->0@ == Some(schedule) && contract->0.spec_address()
                == address,
    {
        if terms_valid(schedule.amount, schedule.step) {
            Some(AllowanceContract { address, schedule: Some(schedule) })
        } else {
            None
        }
    }

    /// The identifier under which this instance is deployed.
    pub fn address(&self) -> (address: AccountId)
        ensures
            address == self.spec_address(),
    {
        self.address
    }

    /// Whether `init` has succeeded on this instance.
    pub fn is_initialized(&self) -> (initialized: bool)
        ensures
            initialized == (self@ is Some),
    {
        self.schedule.is_some()
    }

    /// The schedule, if the instance holds one. Its terms can run.
    pub fn schedule(&self) -> (schedule: Option<Schedule>)
        ensures
            schedule == self@,
            schedule is Some ==> schedule->0.wf(),
    {
        proof {
            use_type_invariant(self);
        }
        self.schedule
    }

    /// Whether a value is persisted under `key`: for every key alike, exactly
    /// when the instance holds a schedule.
    pub fn has(&self, key: StorageKey) -> (present: bool)
        ensures
            present == (self@ is Some),
    {
        self.schedule.is_some()
    }

    /// The value persisted under `key`, if the instance holds a schedule.
    pub fn get(&self, key: StorageKey) -> (value: Option<Stored>)
        ensures
            value == match self@ {
                Some(schedule) => Some(schedule.spec_get(key)),
                None => None,
            },
    {
        match &self.schedule {
            Some(schedule) => Some(schedule.get(key)),
            None => None,
        }
    }

    /// Sets up the schedule, once: `holder` grants `party` a yearly `amount` of
    /// the token at `token_address`, to be drawn one installment every `step`
    /// seconds. `now` is the current time.
    ///
    /// On an instance without a schedule the holder must have approved the
    /// call. Where the call succeeds, the clock must have run for at least one
    /// step, so that the first interval can start one step back.
    pub fn init(
        &mut self,
        holder: AccountId,
        party: AccountId,
        token_address: AccountId,
        amount: i128,
        step: u64,
        now: u64,
        proof: &Proof,
    ) -> (result: Result<(), Error>)
        requires
            old(self)@ is None ==> proof.covers(holder),
            init_result(old(self)@, amount, step) is Ok ==> step <= now,
        ensures
            result == init_result(old(self)@, amount, step),
            final(self)@ == init_next(old(self)@, holder, party, token_address, amount, step, now),
            final(self).spec_address() == old(self).spec_address(),
    {
        if self.schedule.is_some() {
            return Err(Error::ContractAlreadyInitialized);
        }
        if !terms_valid(amount, step) {
            return Err(Error::InvalidArguments);
        }
        self.schedule = Some(
            Schedule { holder, party, token: token_address, amount, step, latest: now - step },
        );
        Ok(())
    }

    /// Whether `invoker` may ask for a withdrawal. Whoever may must then approve
    /// the call itself.
    pub fn check_invoker(&self, invoker: AccountId) -> (result: Result<(), Error>)
        ensures
            result == access_result(self@, invoker),
    {
        match &self.schedule {
            None => Err(Error::ContractNotInitialized),
            Some(schedule) => if invoker != schedule.party && invoker != schedule.holder {
                Err(Error::InvalidAuth)
            } else {
                Ok(())
            },
        }
    }

    /// What a withdrawal by `invoker` at time `now` would order. Nothing
    /// changes. `invoker`, if it is the holder or the party, must have approved
    /// the call itself.
    pub fn pending(&self, invoker: AccountId, now: u64, proof: &Proof) -> (result: Result<
        Transfer,
        Error,
    >)
        requires
            access_result(self@, invoker) is Ok ==> proof.covers(invoker),
        ensures
            result == withdraw_result(self@, self.spec_address(), invoker, now),
    {
        proof {
            use_type_invariant(self);
        }
        let schedule = match self.schedule {
            None => {
                return Err(Error::ContractNotInitialized);
            },
            Some(schedule) => schedule,
        };
        if invoker != schedule.party && invoker != schedule.holder {
            return Err(Error::InvalidAuth);
        }
        if now < schedule.latest || now - schedule.latest < schedule.step {
            return Err(Error::PartyAlreadyWithdrawn);
        }
        proof {
            lemma_period_amount_bounds(schedule.amount, schedule.step);
        }
        Ok(
            Transfer {
                token: schedule.token,
                spender: self.address,
                from: schedule.holder,
                to: schedule.party,
                amount: period_amount(schedule.amount, schedule.step),
            },
        )
    }

    /// The withdrawal for a ledger that is kept elsewhere: if an installment
    /// is due, answers with the transfer that the ledger is to carry out and
    /// moves the schedule on by one step. The caller has the transfer carried
    /// out, and keeps the new state only if that succeeded. `invoker`, if it
    /// is the holder or the party, must have approved the call itself.
    ///
    /// The order and the step come together or not at all: where the call
    /// fails, the schedule is as it was.
    pub fn claim(&mut self, invoker: AccountId, now: u64, proof: &Proof) -> (result: Result<
        Transfer,
        Error,
    >)
        requires
            access_result(old(self)@, invoker) is Ok ==> proof.covers(invoker),
        ensures
            result == withdraw_result(old(self)@, old(self).spec_address(), invoker, now),
            final(self)@ == withdraw_next(old(self)@, invoker, now),
            final(self).spec_address() == old(self).spec_address(),
    {
        proof {
            use_type_invariant(&*self);
        }
        let transfer = self.pending(invoker, now, proof)?;
        match self.schedule {
            None => {},
            Some(schedule) => {
                self.schedule = Some(
                    Schedule {
                        holder: schedule.holder,
                        party: schedule.party,
                        token: schedule.token,
                        amount: schedule.amount,
                        step: schedule.step,
                        latest: schedule.latest + schedule.step,
                    },
                );
            },
        }
        Ok(transfer)
    }

    /// Pays out one installment if one is due: has `token` move it from the
    /// holder to the party, with this instance as the spender that the holder
    /// has approved, and moves the schedule on by one step, whatever the time
    /// of the call. `invoker` is the holder or the party and must have
    /// approved the call itself; `now` is the current time.
    ///
    /// Where an installment is due, `token` must be the ledger that the
    /// schedule names, and must be able to carry the transfer out: the
    /// allowance and the holder's balance cover the installment.
    /// [`AllowanceContract::try_withdraw`] asks nothing of the ledger.
    ///
    /// The transfer and the step come together or not at all: where the call
    /// fails, the schedule and the ledger are as they were.
    pub fn withdraw(
        &mut self,
        token: &mut DisburseContract,
        invoker: AccountId,
        now: u64,
        proof: &Proof,
    ) -> (result: Result<(), Error>)
        requires
            old(token).wf(),
            access_result(old(self)@, invoker) is Ok ==> proof.covers(invoker),
            can_carry_out(
                old(self)@,
                old(self).spec_address(),
                invoker,
                now,
                old(token).spec_address(),
                old(token)@,
            ),
        ensures
            result == withdraw_answer(old(self)@, old(self).spec_address(), invoker, now),
            final(self)@ == withdraw_next(old(self)@, invoker, now),
            final(token)@ == ledger_next(
                old(self)@,
                old(self).spec_address(),
                invoker,
                now,
                old(token)@,
            ),
            final(self).spec_address() == old(self).spec_address(),
            final(token).wf(),
            final(token).spec_address() == old(token).spec_address(),
    {
        let order = self.claim(invoker, now, proof)?;
        let spender = Proof::authorize(order.spender);
        token.transfer_from(order.spender, order.from, order.to, order.amount, &spender);
        Ok(())
    }

    /// The withdrawal on any ledger: `withdraw` where `token` can carry out
    /// what the withdrawal orders, and `None` where it cannot. In that case
    /// the call is abandoned: the transfer has failed, and the schedule and
    /// the ledger are as they were.
    pub fn try_withdraw(
        &mut self,
        token: &mut DisburseContract,
        invoker: AccountId,
        now: u64,
        proof: &Proof,
    ) -> (result: Option<Result<(), Error>>)
        requires
            old(token).wf(),
            access_result(old(self)@, invoker) is Ok ==> proof.covers(invoker),
        ensures
            can_carry_out(
                old(self)@,
                old(self).spec_address(),
                invoker,
                now,
                old(token).spec_address(),
                old(token)@,
            ) ==> {
                &&& result == Some(
                    withdraw_answer(old(self)@, old(self).spec_address(), invoker, now),
                )
                &&& final(self)@ == withdraw_next(old(self)@, invoker, now)
                &&& final(token)@ == ledger_next(
                    old(self)@,
                    old(self).spec_address(),
                    invoker,
                    now,
                    old(token)@,
                )
            },
            !can_carry_out(
                old(self)@,
                old(self).spec_address(),
                invoker,
                now,
                old(token).spec_address(),
                old(token)@,
            ) ==> {
                &&& result is None
                &&& final(self)@ == old(self)@
                &&& final(token)@ == old(token)@
            },
            final(self).spec_address() == old(self).spec_address(),
            final(token).wf(),
            final(token).spec_address() == old(token).spec_address(),
    {
        let feasible = match self.pending(invoker, now, proof) {
            Ok(order) => token.address() == order.token && token.can_transfer_from(
                order.spender,
                order.from,
                order.to,
                order.amount,
            ),
            Err(_) => true,
        };
        if feasible {
            Some(self.withdraw(token, invoker, now, proof))
        } else {
            None
        }
    }
}

} // verus!
