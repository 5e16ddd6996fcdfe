use vstd::prelude::*;

use crate::error::ContractError;

verus! {

/// One holder of the token. The staked part of the balance and the accrued
/// rewards live beside the balance, so that `staked_balance <= balance` is a
/// property of a single record.
#[derive(Clone, Debug, PartialEq, Eq)]
pub struct Account {
    pub address: String,
    pub balance: u128,
    pub staked_balance: u128,
    pub rewards: u128,
}

/// Total supply and per-account records. An address without a record holds
/// nothing: every amount reads as zero.
#[derive(Clone, Debug)]
pub struct Ledger {
    pub total_supply: u128,
    pub accounts: Vec<Account>,
}

/// The record of `addr` in `s`, searching from the end.
pub open spec fn lookup(s: Seq<Account>, addr: Seq<char>) -> Option<Account>
    decreases s.len(),
{
    if s.len() == 0 {
        None
    } else if s.last().address@ == addr {
        Some(s.last())
    } else {
        lookup(s.drop_last(), addr)
    }
}

pub open spec fn balance_in(s: Seq<Account>, addr: Seq<char>) -> int {
    match lookup(s, addr) {
        Some(a) => a.balance as int,
        None => 0,
    }
}

pub open spec fn staked_in(s: Seq<Account>, addr: Seq<char>) -> int {
    match lookup(s, addr) {
        Some(a) => a.staked_balance as int,
        None => 0,
    }
}

pub open spec fn rewards_in(s: Seq<Account>, addr: Seq<char>) -> int {
    match lookup(s, addr) {
        Some(a) => a.rewards as int,
        None => 0,
    }
}

/// The sum of all balances.
pub open spec fn sum_balances(s: Seq<Account>) -> int
    decreases s.len(),
{
    if s.len() == 0 {
        0
    } else {
        sum_balances(s.drop_last()) + s.last().balance
    }
}

pub open spec fn distinct_addresses(s: Seq<Account>) -> bool {
    forall|i: int, j: int|
        0 <= i < j < s.len() ==> #[trigger] s[i].address@ != #[trigger] s[j].address@
}

/// Every record has its staked part within its balance.
pub open spec fn stakes_covered(s: Seq<Account>) -> bool {
    forall|i: int| 0 <= i < s.len() ==> #[trigger] s[i].staked_balance <= s[i].balance
}

impl Ledger {
    pub open spec fn balance_of(&self, addr: Seq<char>) -> int {
        balance_in(self.accounts@, addr)
    }

    pub open spec fn staked_of(&self, addr: Seq<char>) -> int {
        staked_in(self.accounts@, addr)
    }

    pub open spec fn rewards_of(&self, addr: Seq<char>) -> int {
        rewards_in(self.accounts@, addr)
    }

    /// Balance minus staked balance.
    pub open spec fn available_of(&self, addr: Seq<char>) -> int {
        self.balance_of(addr) - self.staked_of(addr)
    }

    /// One record per address, stakes covered, and the supply equal to the
    /// sum of the balances.
    pub open spec fn wf(&self) -> bool {
        &&& distinct_addresses(self.accounts@)
        &&& stakes_covered(self.accounts@)
        &&& self.total_supply == sum_balances(self.accounts@)
    }

    /// `self` and `other` agree on every address but `a` and `b`.
    pub open spec fn agrees_except(&self, other: &Ledger, a: Seq<char>, b: Seq<char>) -> bool {
        forall|c: Seq<char>|
            c != a && c != b ==> #[trigger] lookup(other.accounts@, c) == lookup(self.accounts@, c)
    }

    /// `new` is `self` with `amount` added to the balance of `addr` and to
    /// the supply.
    pub open spec fn minted(&self, new: &Ledger, addr: Seq<char>, amount: int) -> bool {
        &&& new.total_supply == self.total_supply + amount
        &&& new.balance_of(addr) == self.balance_of(addr) + amount
        &&& new.staked_of(addr) == self.staked_of(addr)
        &&& new.rewards_of(addr) == self.rewards_of(addr)
        &&& self.agrees_except(new, addr, addr)
    }

    /// `new` is `self` with `amount` taken from the balance of `addr` and
    /// from the supply.
    pub open spec fn burned(&self, new: &Ledger, addr: Seq<char>, amount: int) -> bool {
        self.minted(new, addr, -amount)
    }

    /// `new` is `self` with `amount` moved from `from` to `to`; the supply
    /// and every staked balance and reward stay.
    pub open spec fn transferred(
        &self,
        new: &Ledger,
        from: Seq<char>,
        to: Seq<char>,
        amount: int,
    ) -> bool {
        &&& new.total_supply == self.total_supply
        &&& from != to ==> new.balance_of(from) == self.balance_of(from) - amount
        &&& from != to ==> new.balance_of(to) == self.balance_of(to) + amount
        &&& from == to ==> new.balance_of(from) == self.balance_of(from)
        &&& new.staked_of(from) == self.staked_of(from)
        &&& new.rewards_of(from) == self.rewards_of(from)
        &&& new.staked_of(to) == self.staked_of(to)
        &&& new.rewards_of(to) == self.rewards_of(to)
        &&& self.agrees_except(new, from, to)
    }

    /// The empty ledger.
    pub fn new() -> (r: Ledger)
        ensures
            r.wf(),
            r.total_supply == 0,
            forall|a: Seq<char>| lookup(r.accounts@, a) is None,
    {
        Ledger { total_supply: 0, accounts: Vec::new() }
    }

    /// The index of the record of `addr`, if there is one.
    pub fn position(&self, addr: &String) -> (r: Option<usize>)
        ensures
            match r {
                Some(i) => i < self.accounts@.len() && self.accounts@[i as int].address@ == addr@,
                None => forall|i: int|
                    0 <= i < self.accounts@.len() ==> #[trigger] self.accounts@[i].address@
                        != addr@,
            },
    {
        let mut i: usize = 0;
        while i < self.accounts.len()
            invariant
                i <= self.accounts@.len(),
                forall|k: int| 0 <= k < i ==> #[trigger] self.accounts@[k].address@ != addr@,
            decreases self.accounts@.len() - i,
        {
            if self.accounts[i].address == *addr {
                return Some(i);
            }
            i += 1;
        }
        None
    }

    pub fn balance(&self, addr: &String) -> (r: u128)
        requires
            self.wf(),
        ensures
            r == self.balance_of(addr@),
    {
        match self.position(addr) {
            Some(i) => {
                proof {
                    lemma_lookup_at(self.accounts@, i as int);
                }
                self.accounts[i].balance
            },
            None => {
                proof {
                    lemma_lookup_absent(self.accounts@, addr@);
                }
                0
            },
        }
    }

    pub fn staked_balance(&self, addr: &String) -> (r: u128)
        requires
            self.wf(),
        ensures
            r == self.staked_of(addr@),
    {
        match self.position(addr) {
            Some(i) => {
                proof {
                    lemma_lookup_at(self.accounts@, i as int);
                }
                self.accounts[i].staked_balance
            },
            None => {
                proof {
                    lemma_lookup_absent(self.accounts@, addr@);
                }
                0
            },
        }
    }

    pub fn rewards(&self, addr: &String) -> (r: u128)
        requires
            self.wf(),
        ensures
            r == self.rewards_of(addr@),
    {
        match self.position(addr) {
            Some(i) => {
                proof {
                    lemma_lookup_at(self.accounts@, i as int);
                }
                self.accounts[i].rewards
            },
            None => {
                proof {
                    lemma_lookup_absent(self.accounts@, addr@);
                }
                0
            },
        }
    }

    /// The balance that is not staked.
    pub fn available_balance(&self, addr: &String) -> (r: u128)
        requires
            self.wf(),
        ensures
            r == self.available_of(addr@),
    {
        proof {
            lemma_stake_covered(self.accounts@, addr@);
        }
        self.balance(addr) - self.staked_balance(addr)
    }

    /// Gives `addr` the three amounts, adding a record if it has none.
    pub(crate) fn put(&mut self, addr: &String, balance: u128, staked: u128, rewards: u128)
        requires
            distinct_addresses(old(self).accounts@),
        ensures
            distinct_addresses(final(self).accounts@),
            lookup(final(self).accounts@, addr@) is Some,
            final(self).balance_of(addr@) == balance,
            final(self).staked_of(addr@) == staked,
            final(self).rewards_of(addr@) == rewards,
            old(self).agrees_except(final(self), addr@, addr@),
            sum_balances(final(self).accounts@) == sum_balances(old(self).accounts@)
                - old(self).balance_of(addr@) + balance,
            final(self).total_supply == old(self).total_supply,
            stakes_covered(old(self).accounts@) && staked <= balance ==> stakes_covered(
                final(self).accounts@,
            ),
    {
        let ghost s = self.accounts@;
        match self.position(addr) {
            Some(i) => {
                proof {
                    lemma_lookup_at(s, i as int);
                }
                self.accounts[i].balance = balance;
                self.accounts[i].staked_balance = staked;
                self.accounts[i].rewards = rewards;
                proof {
                    let x = self.accounts@[i as int];
                    assert(self.accounts@ == s.update(i as int, x));
                    assert(distinct_addresses(self.accounts@)) by {
                        assert forall|p: int, q: int|
                            0 <= p < q < self.accounts@.len() implies #[trigger] self.accounts@[p].address@
                            != #[trigger] self.accounts@[q].address@ by {
                            assert(s[p].address@ != s[q].address@);
                        }
                    }
                    lemma_lookup_at(self.accounts@, i as int);
                    assert forall|c: Seq<char>| c != addr@ implies #[trigger] lookup(
                        self.accounts@,
                        c,
                    ) == lookup(s, c) by {
                        lemma_lookup_update(s, i as int, x, c);
                    }
                    lemma_sum_update(s, i as int, x);
                    if stakes_covered(s) && staked <= balance {
                        assert forall|p: int| 0 <= p < self.accounts@.len() implies #[trigger] self.accounts@[p].staked_balance
                            <= self.accounts@[p].balance by {
                            if p != i {
                                assert(s[p].staked_balance <= s[p].balance);
                            }
                        }
                    }
                }
            },
            None => {
                proof {
                    lemma_lookup_absent(s, addr@);
                }
                let acct = Account {
                    address: addr.clone(),
                    balance: balance,
                    staked_balance: staked,
                    rewards: rewards,
                };
                self.accounts.push(acct);
                proof {
                    let t = self.accounts@;
                    assert(t.drop_last() == s);
                    assert(distinct_addresses(t)) by {
                        assert forall|p: int, q: int|
                            0 <= p < q < t.len() implies #[trigger] t[p].address@
                            != #[trigger] t[q].address@ by {
                            if q < s.len() {
                                assert(s[p].address@ != s[q].address@);
                            } else {
                                assert(s[p].address@ != addr@);
                            }
                        }
                    }
                    if stakes_covered(s) && staked <= balance {
                        assert forall|p: int| 0 <= p < t.len() implies #[trigger] t[p].staked_balance
                            <= t[p].balance by {
                            if p < s.len() {
                                assert(s[p].staked_balance <= s[p].balance);
                            }
                        }
                    }
                }
            },
        }
    }

    /// Adds `amount` to the balance of `addr` and to the supply; refused
    /// with `Overflow` when the supply would exceed `u128::MAX`.
    pub fn mint(&mut self, addr: &String, amount: u128) -> (r: Result<(), ContractError>)
        requires
            old(self).wf(),
        ensures
            final(self).wf(),
            final(self).total_supply == sum_balances(final(self).accounts@),
            r is Err <==> old(self).total_supply + amount > u128::MAX,
            r is Err ==> r == Err::<(), ContractError>(ContractError::Overflow) && *final(self)
                == *old(self),
            r is Ok ==> old(self).minted(final(self), addr@, amount as int),
    {
        if amount > u128::MAX - self.total_supply {
            return Err(ContractError::Overflow);
        }
        proof {
            lemma_balance_le_sum(self.accounts@, addr@, addr@);
            lemma_stake_covered(self.accounts@, addr@);
        }
        let bal = self.balance(addr);
        let staked = self.staked_balance(addr);
        let rewards = self.rewards(addr);
        self.put(addr, bal + amount, staked, rewards);
        self.total_supply = self.total_supply + amount;
        Ok(())
    }

    /// Takes `amount` from the balance of `addr` and from the supply; refused
    /// with `InsufficientFunds` when it exceeds the balance that is not
    /// staked, since a staked balance never exceeds the balance.
    pub fn burn(&mut self, addr: &String, amount: u128) -> (r: Result<(), ContractError>)
        requires
            old(self).wf(),
        ensures
            final(self).wf(),
            final(self).total_supply == sum_balances(final(self).accounts@),
            r is Err <==> amount > old(self).available_of(addr@),
            r is Err ==> r == Err::<(), ContractError>(ContractError::InsufficientFunds)
                && *final(self) == *old(self),
            r is Ok ==> old(self).burned(final(self), addr@, amount as int),
    {
        let available = self.available_balance(addr);
        if amount > available {
            return Err(ContractError::InsufficientFunds);
        }
        proof {
            lemma_balance_le_sum(self.accounts@, addr@, addr@);
        }
        let bal = self.balance(addr);
        let staked = self.staked_balance(addr);
        let rewards = self.rewards(addr);
        self.put(addr, bal - amount, staked, rewards);
        self.total_supply = self.total_supply - amount;
        Ok(())
    }

    /// Moves `amount` from `from` to `to`; refused with `InsufficientFunds`
    /// when it exceeds the balance of `from` that is not staked.
    pub fn transfer(&mut self, from: &String, to: &String, amount: u128) -> (r: Result<
        (),
        ContractError,
    >)
        requires
            old(self).wf(),
        ensures
            final(self).wf(),
            final(self).total_supply == sum_balances(final(self).accounts@),
            r is Err <==> amount > old(self).available_of(from@),
            r is Err ==> r == Err::<(), ContractError>(ContractError::InsufficientFunds)
                && *final(self) == *old(self),
            r is Ok ==> old(self).transferred(final(self), from@, to@, amount as int),
    {
        let available = self.available_balance(from);
        if amount > available {
            return Err(ContractError::InsufficientFunds);
        }
        if *from == *to {
            return Ok(());
        }
        proof {
            lemma_balance_le_sum(self.accounts@, from@, to@);
        }
        let ghost s0 = self.accounts@;
        let from_bal = self.balance(from);
        let from_staked = self.staked_balance(from);
        let from_rewards = self.rewards(from);
        let to_bal = self.balance(to);
        let to_staked = self.staked_balance(to);
        let to_rewards = self.rewards(to);
        proof {
            lemma_stake_covered(s0, from@);
            lemma_stake_covered(s0, to@);
        }
        self.put(from, from_bal - amount, from_staked, from_rewards);
        let ghost s1 = self.accounts@;
        proof {
            assert(lookup(s1, to@) == lookup(s0, to@));
        }
        self.put(to, to_bal + amount, to_staked, to_rewards);
        proof {
            assert(lookup(self.accounts@, from@) == lookup(s1, from@));
        }
        Ok(())
    }
}

pub proof fn lemma_lookup_at(s: Seq<Account>, i: int)
    requires
        distinct_addresses(s),
        0 <= i < s.len(),
    ensures
        lookup(s, s[i].address@) == Some(s[i]),
    decreases s.len(),
{
    if i < s.len() - 1 {
        let t = s.drop_last();
        assert(s[i].address@ != s[s.len() - 1].address@);
        assert(distinct_addresses(t)) by {
            assert forall|p: int, q: int|
                0 <= p < q < t.len() implies #[trigger] t[p].address@ != #[trigger] t[q].address@ by {
                assert(s[p].address@ != s[q].address@);
            }
        }
        assert(t[i] == s[i]);
        lemma_lookup_at(t, i);
    }
}

pub proof fn lemma_lookup_absent(s: Seq<Account>, a: Seq<char>)
    requires
        forall|i: int| 0 <= i < s.len() ==> #[trigger] s[i].address@ != a,
    ensures
        lookup(s, a) is None,
    decreases s.len(),
{
    if s.len() > 0 {
        let t = s.drop_last();
        assert(s[s.len() - 1].address@ != a);
        assert forall|i: int| 0 <= i < t.len() implies #[trigger] t[i].address@ != a by {
            assert(s[i].address@ != a);
        }
        lemma_lookup_absent(t, a);
    }
}

pub proof fn lemma_lookup_update(s: Seq<Account>, i: int, x: Account, c: Seq<char>)
    requires
        0 <= i < s.len(),
        x.address@ == s[i].address@,
        c != x.address@,
    ensures
        lookup(s.update(i, x), c) == lookup(s, c),
    decreases s.len(),
{
    let t = s.update(i, x);
    if i == s.len() - 1 {
        assert(t.drop_last() == s.drop_last());
    } else {
        assert(t.drop_last() == s.drop_last().update(i, x));
        lemma_lookup_update(s.drop_last(), i, x, c);
    }
}

pub proof fn lemma_sum_update(s: Seq<Account>, i: int, x: Account)
    requires
        0 <= i < s.len(),
    ensures
        sum_balances(s.update(i, x)) == sum_balances(s) - s[i].balance + x.balance,
    decreases s.len(),
{
    let t = s.update(i, x);
    if i == s.len() - 1 {
        assert(t.drop_last() == s.drop_last());
    } else {
        assert(t.drop_last() == s.drop_last().update(i, x));
        lemma_sum_update(s.drop_last(), i, x);
    }
}

/// The balances of two addresses, counted once each, fit in the sum of all
/// balances.
pub proof fn lemma_balance_le_sum(s: Seq<Account>, a: Seq<char>, b: Seq<char>)
    ensures
        0 <= balance_in(s, a) <= sum_balances(s),
        a != b ==> balance_in(s, a) + balance_in(s, b) <= sum_balances(s),
    decreases s.len(),
{
    if s.len() > 0 {
        lemma_balance_le_sum(s.drop_last(), a, b);
        lemma_balance_le_sum(s.drop_last(), b, a);
    }
}

/// A record that is found has its stake covered.
pub proof fn lemma_stake_covered(s: Seq<Account>, a: Seq<char>)
    requires
        stakes_covered(s),
    ensures
        0 <= staked_in(s, a) <= balance_in(s, a),
        0 <= rewards_in(s, a),
    decreases s.len(),
{
    if s.len() > 0 {
        let t = s.drop_last();
        assert(s[s.len() - 1].staked_balance <= s[s.len() - 1].balance);
        assert forall|i: int| 0 <= i < t.len() implies #[trigger] t[i].staked_balance
            <= t[i].balance by {
            assert(s[i].staked_balance <= s[i].balance);
        }
        lemma_stake_covered(t, a);
    }
}

} // verus!
