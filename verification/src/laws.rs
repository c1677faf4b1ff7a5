//! What holds of every schedule, whatever the calls and their order.

use vstd::prelude::*;
use crate::account::AccountId;
use crate::allowance::{
    init_next, init_result, ledger_next, transfer_of, withdraw_next, withdraw_result,
};
use crate::amount::{
    lemma_period_amount_bounds, lemma_periods_positive, periods_per_year, spec_period_amount,
    SECONDS_IN_YEAR,
};
use crate::error::Error;
use crate::ledger::{lemma_transfer_effect, LedgerState};
use crate::schedule::{Schedule, Transfer};

verus! {

/// One attempt to withdraw: who asked, and when.
pub struct Call {
    pub invoker: AccountId,
    pub now: u64,
}

/// The state after the attempts `calls`, made in order from `state`.
pub open spec fn state_after(state: Option<Schedule>, calls: Seq<Call>) -> Option<Schedule>
    decreases calls.len(),
{
    if calls.len() == 0 {
        state
    } else {
        withdraw_next(
            state_after(state, calls.drop_last()),
            calls.last().invoker,
            calls.last().now,
        )
    }
}

/// How many of the attempts `calls`, made in order from `state`, succeed.
pub open spec fn successes(state: Option<Schedule>, address: AccountId, calls: Seq<Call>) -> nat
    decreases calls.len(),
{
    if calls.len() == 0 {
        0
    } else {
        let before = state_after(state, calls.drop_last());
        let rest = successes(state, address, calls.drop_last());
        if withdraw_result(before, address, calls.last().invoker, calls.last().now) is Ok {
            rest + 1
        } else {
            rest
        }
    }
}

/// The sum of the transfers that the attempts `calls`, made in order from
/// `state`, order.
pub open spec fn total_ordered(state: Option<Schedule>, address: AccountId, calls: Seq<Call>) -> int
    decreases calls.len(),
{
    if calls.len() == 0 {
        0
    } else {
        let before = state_after(state, calls.drop_last());
        let rest = total_ordered(state, address, calls.drop_last());
        match withdraw_result(before, address, calls.last().invoker, calls.last().now) {
            Ok(transfer) => rest + transfer.amount,
            Err(_) => rest,
        }
    }
}

/// The ledger after the attempts `calls`, made in order from `state`, where
/// the ledger carries out each transfer that is ordered.
pub open spec fn ledger_after(
    state: Option<Schedule>,
    address: AccountId,
    ledger: LedgerState,
    calls: Seq<Call>,
) -> LedgerState
    decreases calls.len(),
{
    if calls.len() == 0 {
        ledger
    } else {
        ledger_next(
            state_after(state, calls.drop_last()),
            address,
            calls.last().invoker,
            calls.last().now,
            ledger_after(state, address, ledger, calls.drop_last()),
        )
    }
}

/// Whether the ledger can carry out every transfer that the attempts `calls`,
/// made in order from `state`, order.
pub open spec fn all_carried_out(
    state: Option<Schedule>,
    address: AccountId,
    ledger: LedgerState,
    calls: Seq<Call>,
) -> bool
    decreases calls.len(),
{
    if calls.len() == 0 {
        true
    } else {
        let before = state_after(state, calls.drop_last());
        let so_far = ledger_after(state, address, ledger, calls.drop_last());
        &&& all_carried_out(state, address, ledger, calls.drop_last())
        &&& match withdraw_result(before, address, calls.last().invoker, calls.last().now) {
            Ok(order) => so_far.can_transfer_from(
                order.spender,
                order.from,
                order.to,
                order.amount,
            ),
            Err(_) => true,
        }
    }
}

/// A schedule is made at most once. On an instance that holds a schedule,
/// `init` fails with `ContractAlreadyInitialized` whatever its arguments are,
/// and changes nothing; a successful `init` leaves a schedule, and no
/// withdrawal, successful or not, removes it.
pub proof fn lemma_single_init(
    state: Option<Schedule>,
    holder: AccountId,
    party: AccountId,
    token: AccountId,
    amount: i128,
    step: u64,
    now: u64,
    invoker: AccountId,
)
    ensures
        state is Some ==> init_result(state, amount, step) == Err::<(), Error>(
            Error::ContractAlreadyInitialized,
        ),
        state is Some ==> init_next(state, holder, party, token, amount, step, now) == state,
        init_result(state, amount, step) is Ok ==> init_next(
            state,
            holder,
            party,
            token,
            amount,
            step,
            now,
        ) is Some,
        state is Some ==> withdraw_next(state, invoker, now) is Some,
{
}

/// Two calls of `init` in a row: where the first succeeds, the second fails
/// with `ContractAlreadyInitialized` and leaves what the first one set up.
pub proof fn lemma_second_init_fails(
    state: Option<Schedule>,
    holder: AccountId,
    party: AccountId,
    token: AccountId,
    amount: i128,
    step: u64,
    now: u64,
    holder2: AccountId,
    party2: AccountId,
    token2: AccountId,
    amount2: i128,
    step2: u64,
    now2: u64,
)
    requires
        init_result(state, amount, step) is Ok,
    ensures
        ({
            let first = init_next(state, holder, party, token, amount, step, now);
            &&& init_result(first, amount2, step2) == Err::<(), Error>(
                Error::ContractAlreadyInitialized,
            )
            &&& init_next(first, holder2, party2, token2, amount2, step2, now2) == first
        }),
{
}

/// A step of zero is rejected: on an instance without a schedule, `init` with
/// a zero step fails with `InvalidArguments` for every amount, and leaves the
/// instance without a schedule.
pub proof fn lemma_zero_step_rejected(
    holder: AccountId,
    party: AccountId,
    token: AccountId,
    amount: i128,
    now: u64,
)
    ensures
        init_result(None, amount, 0) == Err::<(), Error>(Error::InvalidArguments),
        init_next(None, holder, party, token, amount, 0, now) is None,
{
}

/// Dust is rejected: the installment is zero exactly when the yearly amount
/// is smaller in size than the number of intervals in a year, and `init` then
/// fails with `InvalidArguments`.
pub proof fn lemma_dust_rejected(amount: i128, step: u64)
    requires
        0 < step <= SECONDS_IN_YEAR,
    ensures
        spec_period_amount(amount, step) == 0 <==> -periods_per_year(step) < amount
            < periods_per_year(step),
        -periods_per_year(step) < amount < periods_per_year(step) ==> init_result(
            None,
            amount,
            step,
        ) == Err::<(), Error>(Error::InvalidArguments),
{
    lemma_periods_positive(step);
    let n = periods_per_year(step);
    let a = amount as int;
    if a >= 0 {
        assert(a / n == 0 <==> a < n) by (nonlinear_arith)
            requires
                a >= 0,
                n >= 1,
        ;
    } else {
        assert((-a) / n == 0 <==> -a < n) by (nonlinear_arith)
            requires
                -a >= 0,
                n >= 1,
        ;
    }
}

/// A withdrawal is due as soon as the schedule is made: after a successful
/// `init` at time `start`, `withdraw` by the holder or the party succeeds at
/// every time from `start` on, and orders one installment for the party.
pub proof fn lemma_immediately_eligible(
    address: AccountId,
    holder: AccountId,
    party: AccountId,
    token: AccountId,
    amount: i128,
    step: u64,
    start: u64,
    invoker: AccountId,
    now: u64,
)
    requires
        init_result(None, amount, step) is Ok,
        step <= start,
        invoker == holder || invoker == party,
        now >= start,
    ensures
        ({
            let state = init_next(None, holder, party, token, amount, step, start);
            &&& withdraw_result(state, address, invoker, now) is Ok
            &&& withdraw_result(state, address, invoker, now)->Ok_0.amount == spec_period_amount(
                amount,
                step,
            )
            &&& withdraw_result(state, address, invoker, now)->Ok_0.to == party
            &&& withdraw_result(state, address, invoker, now)->Ok_0.from == holder
        }),
{
    lemma_period_amount_bounds(amount, step);
}

/// A successful withdrawal orders exactly one installment, from the holder to
/// the party with the instance as spender, and moves `latest` on by exactly
/// one step, however late the call comes.
pub proof fn lemma_withdrawal_is_one_installment(
    schedule: Schedule,
    address: AccountId,
    invoker: AccountId,
    now: u64,
)
    requires
        schedule.wf(),
        withdraw_result(Some(schedule), address, invoker, now) is Ok,
    ensures
        ({
            let transfer = withdraw_result(Some(schedule), address, invoker, now)->Ok_0;
            let next = withdraw_next(Some(schedule), invoker, now);
            &&& transfer.amount == spec_period_amount(schedule.amount, schedule.step)
            &&& transfer.from == schedule.holder
            &&& transfer.to == schedule.party
            &&& transfer.spender == address
            &&& transfer.token == schedule.token
            &&& next is Some
            &&& next->0.latest == schedule.latest + schedule.step
            &&& next->0.latest <= now
            &&& next->0 == (Schedule { latest: next->0.latest, ..schedule })
        }),
{
    lemma_period_amount_bounds(schedule.amount, schedule.step);
}

/// Fixed cadence. Of any attempts made in order on a schedule, `k` succeed;
/// then exactly `k` installments were ordered in all, `latest` has moved on by
/// exactly `k` steps, and nothing else in the record has changed. If no
/// attempt came later than `until`, the `k` steps end no later than `until`:
/// no more is ever ordered than the steps that have elapsed.
pub proof fn lemma_fixed_cadence(
    schedule: Schedule,
    address: AccountId,
    calls: Seq<Call>,
    until: u64,
)
    requires
        schedule.wf(),
        forall|i: int| 0 <= i < calls.len() ==> (#[trigger] calls[i]).now <= until,
    ensures
        ({
            let k = successes(Some(schedule), address, calls);
            let end = state_after(Some(schedule), calls);
            &&& k <= calls.len()
            &&& total_ordered(Some(schedule), address, calls) == k * spec_period_amount(
                schedule.amount,
                schedule.step,
            )
            &&& end is Some
            &&& end->0.latest == schedule.latest + k * schedule.step
            &&& end->0 == (Schedule { latest: end->0.latest, ..schedule })
            &&& k > 0 ==> schedule.latest + k * schedule.step <= until
        }),
    decreases calls.len(),
{
    if calls.len() > 0 {
        let earlier = calls.drop_last();
        assert forall|i: int| 0 <= i < earlier.len() implies (#[trigger] earlier[i]).now
            <= until by {
            assert(earlier[i] == calls[i]);
        }
        lemma_fixed_cadence(schedule, address, earlier, until);
        let k = successes(Some(schedule), address, earlier);
        let before = state_after(Some(schedule), earlier)->0;
        let last = calls.last();
        assert(last == calls[calls.len() - 1]);
        assert(before.wf());
        let p = spec_period_amount(schedule.amount, schedule.step);
        if withdraw_result(Some(before), address, last.invoker, last.now) is Ok {
            lemma_withdrawal_is_one_installment(before, address, last.invoker, last.now);
            assert((k + 1) * p == k * p + p) by (nonlinear_arith);
            assert((k + 1) * schedule.step == k * schedule.step + schedule.step)
                by (nonlinear_arith);
        }
    }
}

/// Withdrawals on time succeed. A schedule is made at time `start`; of the
/// attempts made since, `k` have succeeded. Then an attempt by the holder or
/// the party at any time from `start + k * step` on succeeds, however long
/// after that time it comes, and orders one installment.
pub proof fn lemma_due_after_each_step(
    address: AccountId,
    holder: AccountId,
    party: AccountId,
    token: AccountId,
    amount: i128,
    step: u64,
    start: u64,
    calls: Seq<Call>,
    invoker: AccountId,
    now: u64,
)
    requires
        init_result(None, amount, step) is Ok,
        step <= start,
        invoker == holder || invoker == party,
        now >= start + successes(
            init_next(None, holder, party, token, amount, step, start),
            address,
            calls,
        ) * step,
    ensures
        ({
            let made = init_next(None, holder, party, token, amount, step, start);
            let reached = state_after(made, calls);
            &&& withdraw_result(reached, address, invoker, now) is Ok
            &&& withdraw_result(reached, address, invoker, now)->Ok_0.amount == spec_period_amount(
                amount,
                step,
            )
        }),
{
    let made = init_next(None, holder, party, token, amount, step, start);
    assert forall|i: int| 0 <= i < calls.len() implies (#[trigger] calls[i]).now <= u64::MAX by {}
    lemma_fixed_cadence(made->0, address, calls, u64::MAX);
    lemma_period_amount_bounds(amount, step);
}

/// What the party has received. Of any attempts made in order on a schedule
/// whose holder is not its party, `k` succeed; if the ledger carried out each
/// transfer, the party's balance has grown by exactly `k` installments, and the
/// holder's balance and the allowance of the instance have shrunk by as much.
pub proof fn lemma_party_receives(
    schedule: Schedule,
    address: AccountId,
    ledger: LedgerState,
    calls: Seq<Call>,
)
    requires
        schedule.wf(),
        ledger.wf(),
        schedule.holder != schedule.party,
        all_carried_out(Some(schedule), address, ledger, calls),
    ensures
        ({
            let k = successes(Some(schedule), address, calls);
            let p = spec_period_amount(schedule.amount, schedule.step);
            let end = ledger_after(Some(schedule), address, ledger, calls);
            &&& end.wf()
            &&& end.balance(schedule.party) == ledger.balance(schedule.party) + k * p
            &&& end.balance(schedule.holder) == ledger.balance(schedule.holder) - k * p
            &&& end.allowance(schedule.holder, address) == ledger.allowance(
                schedule.holder,
                address,
            ) - k * p
        }),
    decreases calls.len(),
{
    if calls.len() > 0 {
        let earlier = calls.drop_last();
        lemma_party_receives(schedule, address, ledger, earlier);
        lemma_fixed_cadence(schedule, address, earlier, u64::MAX);
        let k = successes(Some(schedule), address, earlier);
        let before = state_after(Some(schedule), earlier)->0;
        let so_far = ledger_after(Some(schedule), address, ledger, earlier);
        let last = calls.last();
        let p = spec_period_amount(schedule.amount, schedule.step);
        assert(before.wf());
        if withdraw_result(Some(before), address, last.invoker, last.now) is Ok {
            lemma_withdrawal_is_one_installment(before, address, last.invoker, last.now);
            let order = withdraw_result(Some(before), address, last.invoker, last.now)->Ok_0;
            lemma_transfer_effect(so_far, order.spender, order.from, order.to, order.amount);
            assert((k + 1) * p == k * p + p) by (nonlinear_arith);
        }
    }
}

/// Too early: before `latest + step`, `withdraw` by the holder or the party
/// fails with `PartyAlreadyWithdrawn` and leaves the schedule, and so `latest`,
/// as it was.
pub proof fn lemma_too_early_rejected(
    schedule: Schedule,
    address: AccountId,
    invoker: AccountId,
    now: u64,
)
    requires
        schedule.permits(invoker),
        now < schedule.latest + schedule.step,
    ensures
        withdraw_result(Some(schedule), address, invoker, now) == Err::<Transfer, Error>(
            Error::PartyAlreadyWithdrawn,
        ),
        withdraw_next(Some(schedule), invoker, now) == Some(schedule),
{
}

/// Two may trigger, and no one else: when a withdrawal is due, `withdraw`
/// succeeds for the holder and for the party alike, with the same transfer to
/// the party; for every other invoker it fails with `InvalidAuth` at any
/// time, and changes nothing.
pub proof fn lemma_dual_trigger(
    schedule: Schedule,
    address: AccountId,
    invoker: AccountId,
    now: u64,
)
    ensures
        schedule.is_due(now) ==> withdraw_result(
            Some(schedule),
            address,
            schedule.holder,
            now,
        ) == Ok::<Transfer, Error>(transfer_of(schedule, address)),
        schedule.is_due(now) ==> withdraw_result(Some(schedule), address, schedule.party, now)
            == Ok::<Transfer, Error>(transfer_of(schedule, address)),
        transfer_of(schedule, address).to == schedule.party,
        invoker != schedule.holder && invoker != schedule.party ==> withdraw_result(
            Some(schedule),
            address,
            invoker,
            now,
        ) == Err::<Transfer, Error>(Error::InvalidAuth),
        invoker != schedule.holder && invoker != schedule.party ==> withdraw_next(
            Some(schedule),
            invoker,
            now,
        ) == Some(schedule),
{
}

/// Whatever the calls, a schedule keeps terms that can run.
pub proof fn lemma_terms_stay_valid(
    state: Option<Schedule>,
    holder: AccountId,
    party: AccountId,
    token: AccountId,
    amount: i128,
    step: u64,
    now: u64,
    invoker: AccountId,
)
    requires
        state is Some ==> state->0.wf(),
    ensures
        ({
            let made = init_next(state, holder, party, token, amount, step, now);
            made is Some ==> made->0.wf()
        }),
        ({
            let paid = withdraw_next(state, invoker, now);
            paid is Some ==> paid->0.wf()
        }),
{
}

} // verus!
