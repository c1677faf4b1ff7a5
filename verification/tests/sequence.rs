//! A schedule run against a ledger, call by call.

use allowance::{AccountId, AllowanceContract, DisburseContract, Error, Proof, Transfer};

const START: u64 = 1669726145;
const WEEK: u64 = 7 * 24 * 60 * 60;

struct World {
    contract_address: AccountId,
    client: AllowanceContract,
    token_address: AccountId,
    token: DisburseContract,
    u1: AccountId,
    u2: AccountId,
}

/// A ledger on which `u1` holds 1000000000 and lets the schedule spend
/// 500000000, and a schedule without terms yet.
fn world() -> World {
    let contract_address = AccountId::contract(7, 1);
    let client = AllowanceContract::new(contract_address);
    let u1 = AccountId::account(0, 1);
    let u2 = AccountId::account(0, 2);
    let token_address = AccountId::contract(7, 2);
    let mut token = DisburseContract::new(token_address, u1);
    assert!(token.can_receive(u1, 1000000000));
    token.mint(u1, 1000000000, &Proof::authorize(u1));
    token.increase_allowance(u1, contract_address, 500000000, &Proof::authorize(u1));
    assert_eq!(token.allowance(u1, contract_address), 500000000);
    World { contract_address, client, token_address, token, u1, u2 }
}

/// Reports a rejected call the way a caller of the deployed instance sees it.
fn accepted<T>(result: Result<T, Error>) -> T {
    match result {
        Ok(value) => value,
        Err(error) => panic!("Status(ContractError({}))", error.code()),
    }
}

fn init(w: &mut World, amount: i128, step: u64, now: u64) -> Result<(), Error> {
    assert!(w.client.is_initialized() || !allowance::terms_valid(amount, step) || step <= now);
    w.client.init(w.u1, w.u2, w.token_address, amount, step, now, &Proof::authorize(w.u1))
}

fn withdraw(w: &mut World, invoker: AccountId, now: u64) -> Result<(), Error> {
    let proof = Proof::authorize(invoker);
    match w.client.try_withdraw(&mut w.token, invoker, now, &proof) {
        Some(result) => result,
        None => panic!("the ledger cannot carry out the transfer"),
    }
}

#[test]
fn test_valid_sequence() {
    let mut w = world();
    let (u1, u2) = (w.u1, w.u2);
    accepted(init(&mut w, 500000000, WEEK, START));

    accepted(withdraw(&mut w, u1, START + 1));
    assert_eq!(w.token.balance(u2), 9615384);

    accepted(withdraw(&mut w, u2, (START + 1) + WEEK));
    assert_eq!(w.token.balance(u2), 9615384 * 2);

    accepted(withdraw(&mut w, u1, (START + 1) + WEEK + WEEK));
    assert_eq!(w.token.balance(u2), 9615384 * 3);
}

#[test]
#[should_panic(expected = "Status(ContractError(3))")]
fn test_invalid_auth() {
    let mut w = world();
    accepted(init(&mut w, 500000000, WEEK, START));

    let u3 = AccountId::account(0, 3);
    accepted(withdraw(&mut w, u3, START + 1));
}

#[test]
#[should_panic(expected = "Status(ContractError(4))")]
fn test_invalid_sequence() {
    let mut w = world();
    let (u1, u2) = (w.u1, w.u2);
    accepted(init(&mut w, 500000000, WEEK, START));

    accepted(withdraw(&mut w, u2, START + 1));
    assert_eq!(w.token.balance(u2), 9615384);

    accepted(withdraw(&mut w, u2, (START + 1) + WEEK));
    assert_eq!(w.token.balance(u2), 9615384 * 2);

    accepted(withdraw(&mut w, u1, (START + 1) + WEEK + 20));
}

#[test]
#[should_panic(expected = "Status(ContractError(6))")]
fn test_invalid_init() {
    let mut w = world();
    accepted(init(&mut w, 500000000, 0, START));
}

#[test]
#[should_panic(expected = "Status(ContractError(6))")]
fn test_invalid_init_withdrawal() {
    let mut w = world();
    accepted(init(&mut w, 1, 1, START));
}

#[test]
fn unknown_invoker_is_turned_away_and_nothing_moves() {
    let mut w = world();
    accepted(init(&mut w, 500000000, WEEK, START));
    let before = w.client.schedule();
    let u3 = AccountId::account(0, 3);
    assert_eq!(withdraw(&mut w, u3, START + 1), Err(Error::InvalidAuth));
    let token_address = w.token_address;
    assert_eq!(withdraw(&mut w, token_address, START + 10 * WEEK), Err(Error::InvalidAuth));
    assert_eq!(w.client.schedule(), before);
    assert_eq!(w.token.balance(w.u2), 0);
    assert_eq!(w.token.balance(w.u1), 1000000000);
}

#[test]
fn early_call_is_turned_away_and_latest_stays() {
    let mut w = world();
    let (u1, u2) = (w.u1, w.u2);
    accepted(init(&mut w, 500000000, WEEK, START));
    accepted(withdraw(&mut w, u2, START + 1));
    accepted(withdraw(&mut w, u2, (START + 1) + WEEK));
    let before = w.client.schedule().unwrap();
    assert_eq!(before.latest, START + WEEK);

    assert_eq!(withdraw(&mut w, u1, (START + 1) + WEEK + 20), Err(Error::PartyAlreadyWithdrawn));
    assert_eq!(withdraw(&mut w, u2, START + 2 * WEEK - 1), Err(Error::PartyAlreadyWithdrawn));
    assert_eq!(w.client.schedule(), Some(before));
    assert_eq!(w.token.balance(u2), 9615384 * 2);

    accepted(withdraw(&mut w, u1, START + 2 * WEEK));
    assert_eq!(w.client.schedule().unwrap().latest, START + 2 * WEEK);
    assert_eq!(w.token.balance(u2), 9615384 * 3);
}

#[test]
fn withdrawal_on_a_fresh_instance_is_turned_away() {
    let mut w = world();
    let (u1, u2) = (w.u1, w.u2);
    assert_eq!(withdraw(&mut w, u1, START), Err(Error::ContractNotInitialized));
    assert_eq!(withdraw(&mut w, u2, START), Err(Error::ContractNotInitialized));
    assert!(!w.client.is_initialized());
    assert_eq!(w.client.schedule(), None);
}

#[test]
fn first_withdrawal_is_due_at_the_time_of_init() {
    let mut w = world();
    let u2 = w.u2;
    accepted(init(&mut w, 500000000, WEEK, START));
    assert_eq!(w.client.schedule().unwrap().latest, START - WEEK);
    accepted(withdraw(&mut w, u2, START));
    assert_eq!(w.client.schedule().unwrap().latest, START);
    assert_eq!(w.token.balance(u2), 9615384);
    assert_eq!(withdraw(&mut w, u2, START), Err(Error::PartyAlreadyWithdrawn));
}

#[test]
fn late_calls_move_latest_by_one_step_each() {
    let mut w = world();
    let (u1, u2) = (w.u1, w.u2);
    accepted(init(&mut w, 500000000, WEEK, START));
    // The first call comes five weeks late.
    accepted(withdraw(&mut w, u1, START + 5 * WEEK + 3));
    assert_eq!(w.client.schedule().unwrap().latest, START);
    assert_eq!(w.token.balance(u2), 9615384);
    accepted(withdraw(&mut w, u2, START + 5 * WEEK + 4));
    assert_eq!(w.client.schedule().unwrap().latest, START + WEEK);
    assert_eq!(w.token.balance(u2), 2 * 9615384);
    assert_eq!(w.token.balance(u1), 1000000000 - 2 * 9615384);
    assert_eq!(w.token.allowance(u1, w.contract_address), 500000000 - 2 * 9615384);
}

#[test]
fn second_init_is_turned_away_whatever_it_asks() {
    let mut w = world();
    accepted(init(&mut w, 500000000, WEEK, START));
    let made = w.client.schedule();
    assert_eq!(init(&mut w, 500000000, WEEK, START), Err(Error::ContractAlreadyInitialized));
    assert_eq!(init(&mut w, 1, 1, START + 5), Err(Error::ContractAlreadyInitialized));
    assert_eq!(init(&mut w, 77, 0, 0), Err(Error::ContractAlreadyInitialized));
    let other = AccountId::account(9, 9);
    assert_eq!(
        w.client.init(other, other, other, i128::MAX, 1, 1, &Proof::authorize(other)),
        Err(Error::ContractAlreadyInitialized)
    );
    assert_eq!(w.client.schedule(), made);
    let u1 = w.u1;
    accepted(withdraw(&mut w, u1, START));
    assert_eq!(init(&mut w, 500000000, WEEK, START), Err(Error::ContractAlreadyInitialized));
}

#[test]
fn rejected_init_leaves_the_instance_fresh() {
    let mut w = world();
    assert_eq!(init(&mut w, 500000000, 0, START), Err(Error::InvalidArguments));
    assert_eq!(init(&mut w, 0, 0, START), Err(Error::InvalidArguments));
    assert_eq!(init(&mut w, -5, 0, START), Err(Error::InvalidArguments));
    assert_eq!(init(&mut w, 1, 1, START), Err(Error::InvalidArguments));
    assert_eq!(init(&mut w, 0, WEEK, START), Err(Error::InvalidArguments));
    assert_eq!(init(&mut w, 51, WEEK, START), Err(Error::InvalidArguments));
    assert_eq!(init(&mut w, -51, WEEK, START), Err(Error::InvalidArguments));
    assert_eq!(init(&mut w, 500000000, 31_536_001, START), Err(Error::InvalidArguments));
    assert!(!w.client.is_initialized());
    assert_eq!(init(&mut w, 52, WEEK, START), Ok(()));
    assert!(w.client.is_initialized());
}

#[test]
fn holder_who_is_the_party_keeps_the_balance() {
    let address = AccountId::contract(1, 1);
    let u1 = AccountId::account(0, 1);
    let token_address = AccountId::contract(1, 2);
    let mut client = AllowanceContract::new(address);
    let mut token = DisburseContract::new(token_address, u1);
    token.mint(u1, 100, &Proof::authorize(u1));
    token.increase_allowance(u1, address, 100, &Proof::authorize(u1));
    assert_eq!(client.init(u1, u1, token_address, 520, WEEK, START, &Proof::authorize(u1)), Ok(()));
    let order = client.pending(u1, START, &Proof::authorize(u1)).unwrap();
    assert_eq!(
        order,
        Transfer { token: token_address, spender: address, from: u1, to: u1, amount: 10 }
    );
    assert!(token.can_transfer_from(order.spender, order.from, order.to, order.amount));
    assert_eq!(token.address(), order.token);
    assert_eq!(client.withdraw(&mut token, u1, START, &Proof::authorize(u1)), Ok(()));
    assert_eq!(token.balance(u1), 100);
    assert_eq!(token.allowance(u1, address), 90);
}

#[test]
fn claim_orders_the_transfer_and_moves_on() {
    let address = AccountId::contract(1, 1);
    let u1 = AccountId::account(0, 1);
    let u2 = AccountId::account(0, 2);
    let token_address = AccountId::contract(1, 2);
    let mut client = AllowanceContract::new(address);
    assert_eq!(client.address(), address);
    assert_eq!(client.claim(u1, START, &Proof::authorize(u1)), Err(Error::ContractNotInitialized));
    assert_eq!(
        client.init(u1, u2, token_address, 500000000, WEEK, START, &Proof::authorize(u1)),
        Ok(())
    );
    let expected =
        Transfer { token: token_address, spender: address, from: u1, to: u2, amount: 9615384 };
    assert_eq!(client.pending(u2, START, &Proof::authorize(u2)), Ok(expected));
    assert_eq!(client.schedule().unwrap().latest, START - WEEK);
    assert_eq!(client.claim(u2, START, &Proof::authorize(u2)), Ok(expected));
    assert_eq!(client.schedule().unwrap().latest, START);
    assert_eq!(
        client.claim(u1, START + WEEK - 1, &Proof::authorize(u1)),
        Err(Error::PartyAlreadyWithdrawn)
    );
    assert_eq!(client.schedule().unwrap().latest, START);
    assert_eq!(client.claim(address, START + WEEK, &Proof::authorize(u1)), Err(Error::InvalidAuth));
    assert_eq!(client.claim(u1, START + WEEK, &Proof::authorize(u1)), Ok(expected));
    assert_eq!(client.schedule().unwrap().latest, START + WEEK);
}

#[test]
fn check_invoker_tells_who_may_ask() {
    let address = AccountId::contract(1, 1);
    let u1 = AccountId::account(0, 1);
    let u2 = AccountId::account(0, 2);
    let mut client = AllowanceContract::new(address);
    assert_eq!(client.check_invoker(u1), Err(Error::ContractNotInitialized));
    assert_eq!(client.init(u1, u2, address, 52, WEEK, WEEK, &Proof::authorize(u1)), Ok(()));
    assert_eq!(client.check_invoker(u1), Ok(()));
    assert_eq!(client.check_invoker(u2), Ok(()));
    assert_eq!(client.check_invoker(address), Err(Error::InvalidAuth));
    // An account and a contract with the same key are two principals.
    assert_eq!(client.check_invoker(AccountId::contract(0, 1)), Err(Error::InvalidAuth));
}

#[test]
fn negative_amount_is_accepted_and_orders_a_negative_installment() {
    let address = AccountId::contract(1, 1);
    let u1 = AccountId::account(0, 1);
    let u2 = AccountId::account(0, 2);
    let mut client = AllowanceContract::new(address);
    assert_eq!(
        client.init(u1, u2, address, -500000000, WEEK, START, &Proof::authorize(u1)),
        Ok(())
    );
    let order = client.pending(u1, START, &Proof::authorize(u1)).unwrap();
    assert_eq!(order.amount, -9615384);
    let mut ledger = DisburseContract::new(address, u1);
    ledger.mint(u1, 1000000000, &Proof::authorize(u1));
    ledger.increase_allowance(u1, address, 500000000, &Proof::authorize(u1));
    assert!(!ledger.can_transfer_from(order.spender, order.from, order.to, order.amount));
    assert_eq!(client.try_withdraw(&mut ledger, u1, START, &Proof::authorize(u1)), None);
    assert_eq!(ledger.balance(u1), 1000000000);
    assert_eq!(ledger.balance(u2), 0);
}

#[test]
fn withdrawal_that_the_ledger_cannot_pay_changes_nothing() {
    let mut w = world();
    let (u1, u2) = (w.u1, w.u2);
    accepted(init(&mut w, 500000000, WEEK, START));
    // The holder takes the allowance back.
    w.token.decrease_allowance(u1, w.contract_address, 500000000, &Proof::authorize(u1));
    let before = w.client.schedule();
    assert_eq!(w.client.try_withdraw(&mut w.token, u2, START, &Proof::authorize(u2)), None);
    assert_eq!(w.client.schedule(), before);
    assert_eq!(w.token.balance(u1), 1000000000);
    assert_eq!(w.token.balance(u2), 0);
    // A call that is turned down needs nothing of the ledger.
    let u3 = AccountId::account(0, 3);
    assert_eq!(
        w.client.try_withdraw(&mut w.token, u3, START, &Proof::authorize(u3)),
        Some(Err(Error::InvalidAuth))
    );
    // One installment less than needed is not enough.
    w.token.increase_allowance(u1, w.contract_address, 9615383, &Proof::authorize(u1));
    assert_eq!(w.client.try_withdraw(&mut w.token, u1, START, &Proof::authorize(u1)), None);
    w.token.increase_allowance(u1, w.contract_address, 1, &Proof::authorize(u1));
    assert_eq!(
        w.client.try_withdraw(&mut w.token, u1, START, &Proof::authorize(u1)),
        Some(Ok(()))
    );
    assert_eq!(w.token.balance(u2), 9615384);
    assert_eq!(w.token.allowance(u1, w.contract_address), 0);
    assert_eq!(w.client.schedule().unwrap().latest, START);
}

#[test]
fn another_ledger_than_the_named_one_is_not_drawn_on() {
    let mut w = world();
    let (u1, u2) = (w.u1, w.u2);
    accepted(init(&mut w, 500000000, WEEK, START));
    let mut other = DisburseContract::new(AccountId::contract(8, 8), u1);
    other.mint(u1, 1000000000, &Proof::authorize(u1));
    other.increase_allowance(u1, w.contract_address, 500000000, &Proof::authorize(u1));
    assert_eq!(w.client.try_withdraw(&mut other, u1, START, &Proof::authorize(u1)), None);
    assert_eq!(other.balance(u2), 0);
    assert_eq!(w.client.schedule().unwrap().latest, START - WEEK);
}

#[test]
fn frozen_party_receives_nothing_and_the_schedule_waits() {
    let mut w = world();
    let (u1, u2) = (w.u1, w.u2);
    accepted(init(&mut w, 500000000, WEEK, START));
    w.token.set_authorized(u2, false, &Proof::authorize(u1));
    assert_eq!(w.client.try_withdraw(&mut w.token, u1, START, &Proof::authorize(u1)), None);
    assert_eq!(w.client.schedule().unwrap().latest, START - WEEK);
    w.token.set_authorized(u2, true, &Proof::authorize(u1));
    assert_eq!(
        w.client.try_withdraw(&mut w.token, u1, START, &Proof::authorize(u1)),
        Some(Ok(()))
    );
    assert_eq!(w.token.balance(u2), 9615384);
}
