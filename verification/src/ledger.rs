//! A token ledger: balances, allowances, and an administrator who can freeze
//! an account or claw funds back.

use vstd::prelude::*;
use crate::account::{AccountId, Proof};

verus! {

/// Amounts are never negative. A negative amount is no input of the ledger:
/// every operation that takes an amount demands this of its caller.
pub fn check_nonnegative_amount(amount: i128)
    requires
        amount >= 0,
{
}

/// What the ledger keeps for one account.
#[derive(Copy, Clone, Debug)]
struct Holding {
    id: AccountId,
    balance: i128,
    authorized: bool,
}

/// What one account lets another spend.
#[derive(Copy, Clone, Debug)]
struct Grant {
    from: AccountId,
    spender: AccountId,
    amount: i128,
}

spec fn holds_at(holdings: Seq<Holding>, id: AccountId, i: int) -> bool {
    0 <= i < holdings.len() && holdings[i].id == id
}

spec fn holding_of(holdings: Seq<Holding>, id: AccountId) -> Option<Holding> {
    if exists|i: int| holds_at(holdings, id, i) {
        Some(holdings[choose|i: int| holds_at(holdings, id, i)])
    } else {
        None
    }
}

spec fn holdings_distinct(holdings: Seq<Holding>) -> bool {
    forall|i: int, j: int|
        0 <= i < j < holdings.len() ==> (#[trigger] holdings[i]).id != (#[trigger] holdings[j]).id
}

proof fn lemma_holding_found(holdings: Seq<Holding>, id: AccountId, i: int)
    requires
        holdings_distinct(holdings),
        holds_at(holdings, id, i),
    ensures
        holding_of(holdings, id) == Some(holdings[i]),
{
    let j = choose|j: int| holds_at(holdings, id, j);
    if i < j {
        assert(holdings[i].id != holdings[j].id);
    } else if j < i {
        assert(holdings[j].id != holdings[i].id);
    }
}

/// `after` is `before` with the entry of `holding.id` replaced at `i`.
spec fn holding_replaced(
    before: Seq<Holding>,
    after: Seq<Holding>,
    holding: Holding,
    i: int,
) -> bool {
    holds_at(before, holding.id, i) && after == before.update(i, holding)
}

/// `after` is `before` with `holding` added, where `before` had no entry of
/// `holding.id`.
spec fn holding_added(before: Seq<Holding>, after: Seq<Holding>, holding: Holding) -> bool {
    (forall|i: int| !holds_at(before, holding.id, i)) && after == before.push(holding)
}

proof fn lemma_holding_written(before: Seq<Holding>, after: Seq<Holding>, holding: Holding)
    requires
        holdings_distinct(before),
        (exists|i: int| holding_replaced(before, after, holding, i)) || holding_added(
            before,
            after,
            holding,
        ),
    ensures
        holdings_distinct(after),
        forall|id: AccountId| #[trigger]
            holding_of(after, id) == if id == holding.id {
                Some(holding)
            } else {
                holding_of(before, id)
            },
{
    let at: int = if exists|i: int| holding_replaced(before, after, holding, i) {
        choose|i: int| holding_replaced(before, after, holding, i)
    } else {
        before.len() as int
    };
    assert(holds_at(after, holding.id, at));
    assert forall|j: int| 0 <= j < after.len() && j != at implies after[j] == before[j]
        && after[j].id != holding.id by {
        if holds_at(before, holding.id, at) {
            if j < at {
                assert(before[j].id != before[at].id);
            } else {
                assert(before[at].id != before[j].id);
            }
        } else {
            assert(!holds_at(before, holding.id, j));
        }
    }
    assert forall|i: int, j: int| 0 <= i < j < after.len() implies (#[trigger] after[i]).id != (
    #[trigger] after[j]).id by {
        if i != at && j != at {
            assert(before[i].id != before[j].id);
        }
    }
    assert forall|id: AccountId| #[trigger]
        holding_of(after, id) == if id == holding.id {
            Some(holding)
        } else {
            holding_of(before, id)
        } by {
        if id == holding.id {
            lemma_holding_found(after, id, at);
        } else if exists|j: int| holds_at(before, id, j) {
            let j = choose|j: int| holds_at(before, id, j);
            assert(j != at);
            assert(holds_at(after, id, j));
            lemma_holding_found(after, id, j);
            lemma_holding_found(before, id, j);
        } else {
            assert forall|j: int| !holds_at(after, id, j) by {
                if 0 <= j < after.len() && j != at {
                    assert(!holds_at(before, id, j));
                }
            }
        }
    }
}

spec fn grants_at(grants: Seq<Grant>, from: AccountId, spender: AccountId, i: int) -> bool {
    0 <= i < grants.len() && grants[i].from == from && grants[i].spender == spender
}

spec fn grant_of(grants: Seq<Grant>, from: AccountId, spender: AccountId) -> Option<Grant> {
    if exists|i: int| grants_at(grants, from, spender, i) {
        Some(grants[choose|i: int| grants_at(grants, from, spender, i)])
    } else {
        None
    }
}

spec fn grants_distinct(grants: Seq<Grant>) -> bool {
    forall|i: int, j: int|
        0 <= i < j < grants.len() ==> !((#[trigger] grants[i]).from == (#[trigger] grants[j]).from
            && grants[i].spender == grants[j].spender)
}

proof fn lemma_grant_found(grants: Seq<Grant>, from: AccountId, spender: AccountId, i: int)
    requires
        grants_distinct(grants),
        grants_at(grants, from, spender, i),
    ensures
        grant_of(grants, from, spender) == Some(grants[i]),
{
    let j = choose|j: int| grants_at(grants, from, spender, j);
    if i < j {
        assert(!(grants[i].from == grants[j].from && grants[i].spender == grants[j].spender));
    } else if j < i {
        assert(!(grants[j].from == grants[i].from && grants[j].spender == grants[i].spender));
    }
}

/// `after` is `before` with the entry of `grant`'s pair replaced at `i`.
spec fn grant_replaced(before: Seq<Grant>, after: Seq<Grant>, grant: Grant, i: int) -> bool {
    grants_at(before, grant.from, grant.spender, i) && after == before.update(i, grant)
}

/// `after` is `before` with `grant` added, where `before` had no entry of
/// `grant`'s pair.
spec fn grant_added(before: Seq<Grant>, after: Seq<Grant>, grant: Grant) -> bool {
    (forall|i: int| !grants_at(before, grant.from, grant.spender, i)) && after == before.push(
        grant,
    )
}

proof fn lemma_grant_written(before: Seq<Grant>, after: Seq<Grant>, grant: Grant)
    requires
        grants_distinct(before),
        (exists|i: int| grant_replaced(before, after, grant, i)) || grant_added(
            before,
            after,
            grant,
        ),
    ensures
        grants_distinct(after),
        forall|from: AccountId, spender: AccountId| #[trigger]
            grant_of(after, from, spender) == if from == grant.from && spender == grant.spender {
                Some(grant)
            } else {
                grant_of(before, from, spender)
            },
{
    let at: int = if exists|i: int| grant_replaced(before, after, grant, i) {
        choose|i: int| grant_replaced(before, after, grant, i)
    } else {
        before.len() as int
    };
    assert(grants_at(after, grant.from, grant.spender, at));
    assert forall|j: int| 0 <= j < after.len() && j != at implies after[j] == before[j] && !(
    after[j].from == grant.from && after[j].spender == grant.spender) by {
        if grants_at(before, grant.from, grant.spender, at) {
            if j < at {
                assert(!(before[j].from == before[at].from && before[j].spender
                    == before[at].spender));
            } else {
                assert(!(before[at].from == before[j].from && before[at].spender
                    == before[j].spender));
            }
        } else {
            assert(!grants_at(before, grant.from, grant.spender, j));
        }
    }
    assert forall|i: int, j: int| 0 <= i < j < after.len() implies !((#[trigger] after[i]).from == (
    #[trigger] after[j]).from && after[i].spender == after[j].spender) by {
        if i != at && j != at {
            assert(!(before[i].from == before[j].from && before[i].spender == before[j].spender));
        }
    }
    assert forall|from: AccountId, spender: AccountId| #[trigger]
        grant_of(after, from, spender) == if from == grant.from && spender == grant.spender {
            Some(grant)
        } else {
            grant_of(before, from, spender)
        } by {
        if from == grant.from && spender == grant.spender {
            lemma_grant_found(after, from, spender, at);
        } else if exists|j: int| grants_at(before, from, spender, j) {
            let j = choose|j: int| grants_at(before, from, spender, j);
            assert(j != at);
            assert(grants_at(after, from, spender, j));
            lemma_grant_found(after, from, spender, j);
            lemma_grant_found(before, from, spender, j);
        } else {
            assert forall|j: int| !grants_at(after, from, spender, j) by {
                if 0 <= j < after.len() && j != at {
                    assert(!grants_at(before, from, spender, j));
                }
            }
        }
    }
}

/// The ledger as a mathematical value. Every account has a balance and every
/// pair of accounts an allowance: zero until something was credited or
/// granted. An account is authorized until the administrator freezes it.
pub struct LedgerState {
    /// Who may mint, freeze, claw back and name a successor.
    pub admin: AccountId,
    /// The balance of each account.
    pub balances: Map<AccountId, i128>,
    /// The accounts that may neither spend nor receive.
    pub frozen: Set<AccountId>,
    /// What each account lets each other account spend, by (owner, spender).
    pub allowances: Map<(AccountId, AccountId), i128>,
}

impl LedgerState {
    /// Every account and every pair has an entry, and no entry is negative.
    pub open spec fn wf(self) -> bool {
        &&& forall|id: AccountId| self.balances.dom().contains(id)
        &&& forall|pair: (AccountId, AccountId)| self.allowances.dom().contains(pair)
        &&& forall|id: AccountId| #[trigger] self.balances[id] >= 0
        &&& forall|pair: (AccountId, AccountId)| #[trigger] self.allowances[pair] >= 0
    }

    /// The ledger on which nobody holds or has granted anything and nobody is
    /// frozen, administered by `admin`.
    pub open spec fn empty(admin: AccountId) -> LedgerState {
        LedgerState {
            admin,
            balances: Map::total(|id: AccountId| 0i128),
            frozen: Set::empty(),
            allowances: Map::total(|pair: (AccountId, AccountId)| 0i128),
        }
    }

    /// The balance of `id`.
    pub open spec fn balance(self, id: AccountId) -> i128 {
        self.balances[id]
    }

    /// What `from` lets `spender` spend.
    pub open spec fn allowance(self, from: AccountId, spender: AccountId) -> i128 {
        self.allowances[(from, spender)]
    }

    /// Whether `id` may spend and receive.
    pub open spec fn authorized(self, id: AccountId) -> bool {
        !self.frozen.contains(id)
    }

    /// Whether `amount` can leave `id`: the account is authorized and holds
    /// that much.
    pub open spec fn can_spend(self, id: AccountId, amount: i128) -> bool {
        0 <= amount <= self.balance(id) && self.authorized(id)
    }

    /// Whether `amount` can reach `id`: the account is authorized and its
    /// balance stays within the range of amounts.
    pub open spec fn can_receive(self, id: AccountId, amount: i128) -> bool {
        0 <= amount && self.balance(id) + amount <= i128::MAX && self.authorized(id)
    }

    /// The ledger with `amount` taken from `id`.
    pub open spec fn debited(self, id: AccountId, amount: i128) -> LedgerState {
        LedgerState {
            balances: self.balances.insert(id, (self.balance(id) - amount) as i128),
            ..self
        }
    }

    /// The ledger with `amount` given to `id`.
    pub open spec fn credited(self, id: AccountId, amount: i128) -> LedgerState {
        LedgerState {
            balances: self.balances.insert(id, (self.balance(id) + amount) as i128),
            ..self
        }
    }

    /// The ledger in which `from` lets `spender` spend `amount`.
    pub open spec fn granting(
        self,
        from: AccountId,
        spender: AccountId,
        amount: i128,
    ) -> LedgerState {
        LedgerState { allowances: self.allowances.insert((from, spender), amount), ..self }
    }

    /// The ledger in which `id` is authorized, or frozen, as `authorize` says.
    pub open spec fn with_authorization(self, id: AccountId, authorize: bool) -> LedgerState {
        LedgerState {
            frozen: if authorize {
                self.frozen.remove(id)
            } else {
                self.frozen.insert(id)
            },
            ..self
        }
    }

    /// The ledger administered by `admin`.
    pub open spec fn administered_by(self, admin: AccountId) -> LedgerState {
        LedgerState { admin, ..self }
    }

    /// What is left of an allowance of `allowance` after it was lowered by
    /// `amount`: nothing, where `amount` is the greater.
    pub open spec fn lowered(allowance: i128, amount: i128) -> i128 {
        if amount >= allowance {
            0
        } else {
            (allowance - amount) as i128
        }
    }

    /// Whether `amount` can move from `from` to `to`.
    pub open spec fn can_transfer(self, from: AccountId, to: AccountId, amount: i128) -> bool {
        self.can_spend(from, amount) && self.debited(from, amount).can_receive(to, amount)
    }

    /// The ledger after `amount` has moved from `from` to `to`.
    pub open spec fn transferred(
        self,
        from: AccountId,
        to: AccountId,
        amount: i128,
    ) -> LedgerState {
        self.debited(from, amount).credited(to, amount)
    }

    /// Whether `spender` can move `amount` from `from` to `to`: the allowance
    /// covers it, and the amount can move.
    pub open spec fn can_transfer_from(
        self,
        spender: AccountId,
        from: AccountId,
        to: AccountId,
        amount: i128,
    ) -> bool {
        amount <= self.allowance(from, spender) && self.can_transfer(from, to, amount)
    }

    /// The ledger after `spender` has moved `amount` from `from` to `to`: the
    /// allowance is smaller by `amount`, and the amount has moved.
    pub open spec fn transferred_from(
        self,
        spender: AccountId,
        from: AccountId,
        to: AccountId,
        amount: i128,
    ) -> LedgerState {
        self.granting(from, spender, (self.allowance(from, spender) - amount) as i128).transferred(
            from,
            to,
            amount,
        )
    }
}

/// What a transfer changes, account by account: the sender has `amount`
/// less and the receiver `amount` more, unless they are one and the same,
/// and every other balance is as it was. With `transferred_from` the
/// allowance of the spender is lower by `amount`, and no other allowance has
/// changed.
pub proof fn lemma_transfer_effect(
    state: LedgerState,
    spender: AccountId,
    from: AccountId,
    to: AccountId,
    amount: i128,
)
    requires
        state.wf(),
        state.can_transfer_from(spender, from, to, amount),
    ensures
        ({
            let after = state.transferred_from(spender, from, to, amount);
            &&& after.wf()
            &&& after.admin == state.admin
            &&& after.frozen == state.frozen
            &&& after.allowance(from, spender) == state.allowance(from, spender) - amount
            &&& forall|a: AccountId, b: AccountId|
                !(a == from && b == spender) ==> #[trigger] after.allowance(a, b)
                    == state.allowance(a, b)
            &&& from != to ==> after.balance(from) == state.balance(from) - amount
            &&& from != to ==> after.balance(to) == state.balance(to) + amount
            &&& from == to ==> after.balance(from) == state.balance(from)
            &&& forall|id: AccountId|
                id != from && id != to ==> #[trigger] after.balance(id) == state.balance(id)
            &&& after.balances == state.transferred(from, to, amount).balances
        }),
{
    let after = state.transferred_from(spender, from, to, amount);
    assert(state.allowances[(from, spender)] >= 0);
    assert(state.balances[from] >= 0);
    assert(state.balances[to] >= 0);
    assert forall|id: AccountId| #[trigger] after.balances[id] >= 0 by {
        assert(state.balances[id] >= 0);
    }
    assert forall|pair: (AccountId, AccountId)| #[trigger] after.allowances[pair] >= 0 by {
        assert(state.allowances[pair] >= 0);
    }
}

/// A token ledger with an administrator.
pub struct DisburseContract {
    address: AccountId,
    admin: AccountId,
    holdings: Vec<Holding>,
    grants: Vec<Grant>,
}

impl View for DisburseContract {
    type V = LedgerState;

    closed spec fn view(&self) -> LedgerState {
        LedgerState {
            admin: self.admin,
            balances: Map::total(
                |id: AccountId|
                    match holding_of(self.holdings@, id) {
                        Some(holding) => holding.balance,
                        None => 0i128,
                    },
            ),
            frozen: Set::new(
                |id: AccountId|
                    match holding_of(self.holdings@, id) {
                        Some(holding) => !holding.authorized,
                        None => false,
                    },
            ),
            allowances: Map::total(
                |pair: (AccountId, AccountId)|
                    match grant_of(self.grants@, pair.0, pair.1) {
                        Some(grant) => grant.amount,
                        None => 0i128,
                    },
            ),
        }
    }
}

impl DisburseContract {
    /// The ledger is consistent: it keeps one entry for an account and one for
    /// a pair at most, and none of them is negative.
    pub closed spec fn wf(&self) -> bool {
        &&& holdings_distinct(self.holdings@)
        &&& grants_distinct(self.grants@)
        &&& forall|i: int|
            0 <= i < self.holdings@.len() ==> (#[trigger] self.holdings@[i]).balance >= 0
        &&& forall|i: int|
            0 <= i < self.grants@.len() ==> (#[trigger] self.grants@[i]).amount >= 0
    }

    /// The identifier under which this ledger is deployed. It never changes.
    pub closed spec fn spec_address(&self) -> AccountId {
        self.address
    }

    /// A ledger deployed at `address` and administered by `admin`, on which
    /// nobody holds or has granted anything.
    pub fn new(address: AccountId, admin: AccountId) -> (ledger: DisburseContract)
        ensures
            ledger.wf(),
            ledger.spec_address() == address,
            ledger@ == LedgerState::empty(admin),
    {
        let ledger = DisburseContract { address, admin, holdings: Vec::new(), grants: Vec::new() };
        proof {
            assert(ledger@.balances =~= LedgerState::empty(admin).balances);
            assert(ledger@.frozen =~= LedgerState::empty(admin).frozen);
            assert(ledger@.allowances =~= LedgerState::empty(admin).allowances);
        }
        ledger
    }

    fn find_holding(&self, id: AccountId) -> (found: Option<usize>)
        ensures
            match found {
                Some(i) => holds_at(self.holdings@, id, i as int),
                None => forall|i: int| !holds_at(self.holdings@, id, i),
            },
    {
        let mut i: usize = 0;
        while i < self.holdings.len()
            invariant
                i <= self.holdings@.len(),
                forall|j: int| 0 <= j < i ==> !holds_at(self.holdings@, id, j),
            decreases self.holdings@.len() - i,
        {
            if self.holdings[i].id == id {
                return Some(i);
            }
            i += 1;
        }
        None
    }

    fn holding(&self, id: AccountId) -> (holding: Holding)
        requires
            self.wf(),
        ensures
            holding.id == id,
            holding.balance == self@.balance(id),
            holding.authorized == self@.authorized(id),
            holding.balance >= 0,
    {
        match self.find_holding(id) {
            Some(i) => {
                proof {
                    lemma_holding_found(self.holdings@, id, i as int);
                }
                self.holdings[i]
            },
            None => Holding { id, balance: 0, authorized: true },
        }
    }

    fn put_holding(&mut self, holding: Holding)
        requires
            old(self).wf(),
            holding.balance >= 0,
        ensures
            final(self).wf(),
            final(self).spec_address() == old(self).spec_address(),
            final(self)@.admin == old(self)@.admin,
            final(self)@.allowances == old(self)@.allowances,
            final(self)@.balances == old(self)@.balances.insert(holding.id, holding.balance),
            final(self)@.frozen == if holding.authorized {
                old(self)@.frozen.remove(holding.id)
            } else {
                old(self)@.frozen.insert(holding.id)
            },
    {
        let ghost before = self.holdings@;
        match self.find_holding(holding.id) {
            Some(i) => {
                self.holdings.set(i, holding);
                assert(holding_replaced(before, self.holdings@, holding, i as int));
            },
            None => {
                self.holdings.push(holding);
                assert(holding_added(before, self.holdings@, holding));
            },
        }
        proof {
            lemma_holding_written(before, self.holdings@, holding);
            assert(self@.balances =~= old(self)@.balances.insert(holding.id, holding.balance));
            if holding.authorized {
                assert(self@.frozen =~= old(self)@.frozen.remove(holding.id));
            } else {
                assert(self@.frozen =~= old(self)@.frozen.insert(holding.id));
            }
        }
    }

    fn find_grant(&self, from: AccountId, spender: AccountId) -> (found: Option<usize>)
        ensures
            match found {
                Some(i) => grants_at(self.grants@, from, spender, i as int),
                None => forall|i: int| !grants_at(self.grants@, from, spender, i),
            },
    {
        let mut i: usize = 0;
        while i < self.grants.len()
            invariant
                i <= self.grants@.len(),
                forall|j: int| 0 <= j < i ==> !grants_at(self.grants@, from, spender, j),
            decreases self.grants@.len() - i,
        {
            if self.grants[i].from == from && self.grants[i].spender == spender {
                return Some(i);
            }
            i += 1;
        }
        None
    }

    fn put_grant(&mut self, grant: Grant)
        requires
            old(self).wf(),
            grant.amount >= 0,
        ensures
            final(self).wf(),
            final(self).spec_address() == old(self).spec_address(),
            final(self)@.admin == old(self)@.admin,
            final(self)@.balances == old(self)@.balances,
            final(self)@.frozen == old(self)@.frozen,
            final(self)@.allowances == old(self)@.allowances.insert(
                (grant.from, grant.spender),
                grant.amount,
            ),
    {
        let ghost before = self.grants@;
        match self.find_grant(grant.from, grant.spender) {
            Some(i) => {
                self.grants.set(i, grant);
                assert(grant_replaced(before, self.grants@, grant, i as int));
            },
            None => {
                self.grants.push(grant);
                assert(grant_added(before, self.grants@, grant));
            },
        }
        proof {
            lemma_grant_written(before, self.grants@, grant);
            assert(self@.allowances =~= old(self)@.allowances.insert(
                (grant.from, grant.spender),
                grant.amount,
            ));
        }
    }

    fn spend_balance(&mut self, id: AccountId, amount: i128)
        requires
            old(self).wf(),
            old(self)@.can_spend(id, amount),
        ensures
            final(self).wf(),
            final(self).spec_address() == old(self).spec_address(),
            final(self)@ == old(self)@.debited(id, amount),
    {
        let holding = self.holding(id);
        self.put_holding(Holding { id, balance: holding.balance - amount, authorized: true });
        proof {
            assert(self@.frozen =~= old(self)@.frozen);
        }
    }

    fn receive_balance(&mut self, id: AccountId, amount: i128)
        requires
            old(self).wf(),
            old(self)@.can_receive(id, amount),
        ensures
            final(self).wf(),
            final(self).spec_address() == old(self).spec_address(),
            final(self)@ == old(self)@.credited(id, amount),
    {
        let holding = self.holding(id);
        self.put_holding(Holding { id, balance: holding.balance + amount, authorized: true });
        proof {
            assert(self@.frozen =~= old(self)@.frozen);
        }
    }

    fn spend_allowance(&mut self, from: AccountId, spender: AccountId, amount: i128)
        requires
            old(self).wf(),
            0 <= amount <= old(self)@.allowance(from, spender),
        ensures
            final(self).wf(),
            final(self).spec_address() == old(self).spec_address(),
            final(self)@ == old(self)@.granting(
                from,
                spender,
                (old(self)@.allowance(from, spender) - amount) as i128,
            ),
    {
        let allowance = self.allowance(from, spender);
        self.put_grant(Grant { from, spender, amount: allowance - amount });
    }

    /// In a consistent ledger every account has a balance and every pair an
    /// allowance, and none is negative.
    pub proof fn lemma_state_wf(&self)
        requires
            self.wf(),
        ensures
            self@.wf(),
    {
        assert forall|id: AccountId| #[trigger] self@.balances[id] >= 0 by {
            if exists|i: int| holds_at(self.holdings@, id, i) {
                let i = choose|i: int| holds_at(self.holdings@, id, i);
                assert(self.holdings@[i].balance >= 0);
            }
        }
        assert forall|pair: (AccountId, AccountId)| #[trigger] self@.allowances[pair] >= 0 by {
            if exists|i: int| grants_at(self.grants@, pair.0, pair.1, i) {
                let i = choose|i: int| grants_at(self.grants@, pair.0, pair.1, i);
                assert(self.grants@[i].amount >= 0);
            }
        }
    }

    /// The identifier under which this ledger is deployed.
    pub fn address(&self) -> (address: AccountId)
        ensures
            address == self.spec_address(),
    {
        self.address
    }

    /// The administrator.
    pub fn admin(&self) -> (admin: AccountId)
        ensures
            admin == self@.admin,
    {
        self.admin
    }

    /// What `from` lets `spender` spend.
    pub fn allowance(&self, from: AccountId, spender: AccountId) -> (allowance: i128)
        requires
            self.wf(),
        ensures
            allowance == self@.allowance(from, spender),
            allowance >= 0,
    {
        match self.find_grant(from, spender) {
            Some(i) => {
                proof {
                    lemma_grant_found(self.grants@, from, spender, i as int);
                }
                self.grants[i].amount
            },
            None => 0,
        }
    }

    /// Raises what `from` lets `spender` spend by `amount`. `from` must have
    /// approved the call, and the new allowance must be in the range of
    /// amounts.
    pub fn increase_allowance(
        &mut self,
        from: AccountId,
        spender: AccountId,
        amount: i128,
        proof: &Proof,
    )
        requires
            old(self).wf(),
            proof.covers(from),
            amount >= 0,
            old(self)@.allowance(from, spender) + amount <= i128::MAX,
        ensures
            final(self).wf(),
            final(self).spec_address() == old(self).spec_address(),
            final(self)@ == old(self)@.granting(
                from,
                spender,
                (old(self)@.allowance(from, spender) + amount) as i128,
            ),
    {
        check_nonnegative_amount(amount);
        let allowance = self.allowance(from, spender);
        self.put_grant(Grant { from, spender, amount: allowance + amount });
    }

    /// Lowers what `from` lets `spender` spend by `amount`, to nothing where
    /// `amount` is at least the allowance. `from` must have approved the call.
    pub fn decrease_allowance(
        &mut self,
        from: AccountId,
        spender: AccountId,
        amount: i128,
        proof: &Proof,
    )
        requires
            old(self).wf(),
            proof.covers(from),
            amount >= 0,
        ensures
            final(self).wf(),
            final(self).spec_address() == old(self).spec_address(),
            final(self)@ == old(self)@.granting(
                from,
                spender,
                LedgerState::lowered(old(self)@.allowance(from, spender), amount),
            ),
    {
        check_nonnegative_amount(amount);
        let allowance = self.allowance(from, spender);
        if amount >= allowance {
            self.put_grant(Grant { from, spender, amount: 0 });
        } else {
            self.put_grant(Grant { from, spender, amount: allowance - amount });
        }
    }

    /// The balance of `id`.
    pub fn balance(&self, id: AccountId) -> (balance: i128)
        requires
            self.wf(),
        ensures
            balance == self@.balance(id),
            balance >= 0,
    {
        self.holding(id).balance
    }

    /// What `id` can spend: its balance.
    pub fn spendable_balance(&self, id: AccountId) -> (balance: i128)
        requires
            self.wf(),
        ensures
            balance == self@.balance(id),
            balance >= 0,
    {
        self.holding(id).balance
    }

    /// Whether `id` may spend and receive.
    pub fn authorized(&self, id: AccountId) -> (authorized: bool)
        requires
            self.wf(),
        ensures
            authorized == self@.authorized(id),
    {
        self.holding(id).authorized
    }

    /// Whether `amount` can leave `id`.
    pub fn can_spend(&self, id: AccountId, amount: i128) -> (ok: bool)
        requires
            self.wf(),
        ensures
            ok == self@.can_spend(id, amount),
    {
        let holding = self.holding(id);
        0 <= amount && amount <= holding.balance && holding.authorized
    }

    /// Whether `amount` can reach `id`.
    pub fn can_receive(&self, id: AccountId, amount: i128) -> (ok: bool)
        requires
            self.wf(),
        ensures
            ok == self@.can_receive(id, amount),
    {
        let holding = self.holding(id);
        0 <= amount && holding.balance <= i128::MAX - amount && holding.authorized
    }

    /// Whether `amount` can move from `from` to `to`.
    pub fn can_transfer(&self, from: AccountId, to: AccountId, amount: i128) -> (ok: bool)
        requires
            self.wf(),
        ensures
            ok == self@.can_transfer(from, to, amount),
    {
        if !self.can_spend(from, amount) {
            return false;
        }
        if from == to {
            return true;
        }
        self.can_receive(to, amount)
    }

    /// Whether `spender` can move `amount` from `from` to `to`.
    pub fn can_transfer_from(
        &self,
        spender: AccountId,
        from: AccountId,
        to: AccountId,
        amount: i128,
    ) -> (ok: bool)
        requires
            self.wf(),
        ensures
            ok == self@.can_transfer_from(spender, from, to, amount),
    {
        amount <= self.allowance(from, spender) && self.can_transfer(from, to, amount)
    }

    /// Creates `amount` and gives it to `to`. The administrator must have
    /// approved the call, and `to` must be able to receive the amount.
    pub fn mint(&mut self, to: AccountId, amount: i128, proof: &Proof)
        requires
            old(self).wf(),
            proof.covers(old(self)@.admin),
            old(self)@.can_receive(to, amount),
        ensures
            final(self).wf(),
            final(self).spec_address() == old(self).spec_address(),
            final(self)@ == old(self)@.credited(to, amount),
    {
        check_nonnegative_amount(amount);
        self.receive_balance(to, amount);
    }

    /// Moves `amount` from `from` to `to`. `from` must have approved the call,
    /// and the amount must be able to move.
    pub fn transfer(&mut self, from: AccountId, to: AccountId, amount: i128, proof: &Proof)
        requires
            old(self).wf(),
            proof.covers(from),
            old(self)@.can_transfer(from, to, amount),
        ensures
            final(self).wf(),
            final(self).spec_address() == old(self).spec_address(),
            final(self)@ == old(self)@.transferred(from, to, amount),
    {
        check_nonnegative_amount(amount);
        self.spend_balance(from, amount);
        self.receive_balance(to, amount);
    }

    /// Moves `amount` from `from` to `to` on the strength of the allowance that
    /// `from` has granted `spender`, and lowers that allowance by `amount`.
    /// `spender` must have approved the call, the allowance must cover the
    /// amount, and the amount must be able to move.
    pub fn transfer_from(
        &mut self,
        spender: AccountId,
        from: AccountId,
        to: AccountId,
        amount: i128,
        proof: &Proof,
    )
        requires
            old(self).wf(),
            proof.covers(spender),
            old(self)@.can_transfer_from(spender, from, to, amount),
        ensures
            final(self).wf(),
            final(self).spec_address() == old(self).spec_address(),
            final(self)@ == old(self)@.transferred_from(spender, from, to, amount),
    {
        check_nonnegative_amount(amount);
        self.spend_allowance(from, spender, amount);
        self.spend_balance(from, amount);
        self.receive_balance(to, amount);
    }

    /// Takes `amount` from `from` and destroys it. The administrator must have
    /// approved the call, and the amount must be able to leave `from`.
    pub fn clawback(&mut self, from: AccountId, amount: i128, proof: &Proof)
        requires
            old(self).wf(),
            proof.covers(old(self)@.admin),
            old(self)@.can_spend(from, amount),
        ensures
            final(self).wf(),
            final(self).spec_address() == old(self).spec_address(),
            final(self)@ == old(self)@.debited(from, amount),
    {
        check_nonnegative_amount(amount);
        self.spend_balance(from, amount);
    }

    /// Authorizes `id`, or freezes it. The administrator must have approved
    /// the call.
    pub fn set_authorized(&mut self, id: AccountId, authorize: bool, proof: &Proof)
        requires
            old(self).wf(),
            proof.covers(old(self)@.admin),
        ensures
            final(self).wf(),
            final(self).spec_address() == old(self).spec_address(),
            final(self)@ == old(self)@.with_authorization(id, authorize),
    {
        let holding = self.holding(id);
        self.put_holding(Holding { id, balance: holding.balance, authorized: authorize });
        proof {
            assert(self@.balances =~= old(self)@.balances);
        }
    }

    /// Hands the administration over to `new_admin`. The administrator must
    /// have approved the call.
    pub fn set_admin(&mut self, new_admin: AccountId, proof: &Proof)
        requires
            old(self).wf(),
            proof.covers(old(self)@.admin),
        ensures
            final(self).wf(),
            final(self).spec_address() == old(self).spec_address(),
            final(self)@ == old(self)@.administered_by(new_admin),
    {
        self.admin = new_admin;
    }
}

} // verus!
