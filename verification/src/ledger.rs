//! The account ledger: a sparse map from account to balance, plus the total
//! supply counter.
//!
//! The map is sparse: an account without a stored entry has balance zero.
//! The ledger is a pure storage primitive; it performs no validation and no
//! overflow checking, which is the caller's responsibility.

use vstd::pervasive::VecAdditionalExecFns;
use vstd::prelude::*;

verus! {

/// Sum of the balance values stored in `s`.
///
/// With unique keys and the convention that a missing entry means balance
/// zero, this is exactly the sum of all account balances, so the conservation
/// invariant `total_supply == sum of all balances` is stated over it.
pub open spec fn sum_balances(s: Seq<(u64, u64)>) -> int
    decreases s.len(),
{
    if s.len() == 0 {
        0
    } else {
        s[0].1 + sum_balances(s.drop_first())
    }
}

/// Each account has at most one stored entry.
pub open spec fn keys_unique(s: Seq<(u64, u64)>) -> bool {
    forall|i: int, j: int|
        0 <= i < s.len() && 0 <= j < s.len() && i != j ==> s[i].0 != s[j].0
}

/// Some entry in `s` is keyed by `account`.
pub open spec fn has_account(s: Seq<(u64, u64)>, account: u64) -> bool {
    exists|i: int| 0 <= i < s.len() && s[i].0 == account
}

/// The balance stored for `account`; a missing entry means zero.
pub open spec fn stored_balance(s: Seq<(u64, u64)>, account: u64) -> u64 {
    if has_account(s, account) {
        s[choose|i: int| 0 <= i < s.len() && s[i].0 == account].1
    } else {
        0
    }
}

proof fn lemma_sum_nonneg(s: Seq<(u64, u64)>)
    ensures
        sum_balances(s) >= 0,
    decreases s.len(),
{
    if s.len() > 0 {
        lemma_sum_nonneg(s.drop_first());
    }
}

proof fn lemma_sum_elem(s: Seq<(u64, u64)>, i: int)
    requires
        0 <= i < s.len(),
    ensures
        s[i].1 <= sum_balances(s),
    decreases s.len(),
{
    lemma_sum_nonneg(s.drop_first());
    if i > 0 {
        lemma_sum_elem(s.drop_first(), i - 1);
        assert(s.drop_first()[i - 1] == s[i]);
    }
}

proof fn lemma_sum_two_elems(s: Seq<(u64, u64)>, i: int, j: int)
    requires
        0 <= i < s.len(),
        0 <= j < s.len(),
        i != j,
    ensures
        s[i].1 + s[j].1 <= sum_balances(s),
    decreases s.len(),
{
    if i == 0 {
        lemma_sum_elem(s.drop_first(), j - 1);
        assert(s.drop_first()[j - 1] == s[j]);
    } else if j == 0 {
        lemma_sum_elem(s.drop_first(), i - 1);
        assert(s.drop_first()[i - 1] == s[i]);
    } else {
        lemma_sum_two_elems(s.drop_first(), i - 1, j - 1);
        assert(s.drop_first()[i - 1] == s[i]);
        assert(s.drop_first()[j - 1] == s[j]);
    }
}

proof fn lemma_sum_update(s: Seq<(u64, u64)>, i: int, p: (u64, u64))
    requires
        0 <= i < s.len(),
    ensures
        sum_balances(s.update(i, p)) == sum_balances(s) - s[i].1 + p.1,
    decreases s.len(),
{
    let t = s.update(i, p);
    if i == 0 {
        assert(t.drop_first() =~= s.drop_first());
        assert(t[0] == p);
    } else {
        assert(t.drop_first() =~= s.drop_first().update(i - 1, p));
        lemma_sum_update(s.drop_first(), i - 1, p);
        assert(t[0] == s[0]);
    }
}

proof fn lemma_sum_push(s: Seq<(u64, u64)>, p: (u64, u64))
    ensures
        sum_balances(s.push(p)) == sum_balances(s) + p.1,
    decreases s.len(),
{
    let t = s.push(p);
    if s.len() == 0 {
        assert(t.drop_first() =~= s);
        assert(t[0] == p);
        assert(sum_balances(s) == 0);
        assert(sum_balances(t) == t[0].1 + sum_balances(t.drop_first()));
    } else {
        assert(t.drop_first() =~= s.drop_first().push(p));
        lemma_sum_push(s.drop_first(), p);
        assert(t[0] == s[0]);
    }
}

proof fn lemma_stored_at(s: Seq<(u64, u64)>, i: int)
    requires
        keys_unique(s),
        0 <= i < s.len(),
    ensures
        stored_balance(s, s[i].0) == s[i].1,
{
    let a = s[i].0;
    assert(has_account(s, a));
    let j = choose|k: int| 0 <= k < s.len() && s[k].0 == a;
    if j != i {
        assert(s[i].0 != s[j].0);
    }
}

proof fn lemma_stored_absent(s: Seq<(u64, u64)>, account: u64)
    requires
        forall|k: int| 0 <= k < s.len() ==> s[k].0 != account,
    ensures
        stored_balance(s, account) == 0,
{
    assert(!has_account(s, account));
}

/// Replacing the value of the entry at `i`, keeping its key, leaves every
/// other account's stored balance unchanged and keeps the keys unique.
proof fn lemma_stored_update(s: Seq<(u64, u64)>, i: int, v: u64)
    requires
        keys_unique(s),
        0 <= i < s.len(),
    ensures
        keys_unique(s.update(i, (s[i].0, v))),
        stored_balance(s.update(i, (s[i].0, v)), s[i].0) == v,
        forall|a: u64|
            a != s[i].0 ==> stored_balance(s.update(i, (s[i].0, v)), a) == stored_balance(s, a),
{
    let t = s.update(i, (s[i].0, v));
    assert(forall|k: int| 0 <= k < s.len() ==> t[k].0 == s[k].0);
    lemma_stored_at(t, i);
    assert forall|a: u64| a != s[i].0 implies stored_balance(t, a) == stored_balance(s, a) by {
        lemma_stored_same_keys(s, t, a);
    }
}

/// Two entry sequences with identical keys, agreeing on the values of every
/// entry keyed by `a`, store the same balance for `a`.
proof fn lemma_stored_same_keys(s: Seq<(u64, u64)>, t: Seq<(u64, u64)>, a: u64)
    requires
        keys_unique(s),
        s.len() == t.len(),
        forall|k: int| 0 <= k < s.len() ==> t[k].0 == s[k].0,
        forall|k: int| 0 <= k < s.len() && s[k].0 == a ==> t[k].1 == s[k].1,
    ensures
        stored_balance(t, a) == stored_balance(s, a),
{
    if has_account(s, a) {
        let j = choose|k: int| 0 <= k < s.len() && s[k].0 == a;
        assert(t[j].0 == a);
        assert(has_account(t, a));
        let j2 = choose|k: int| 0 <= k < t.len() && t[k].0 == a;
        assert(s[j2].0 == a);
        if j2 != j {
            assert(s[j].0 != s[j2].0);
        }
        assert(t[j2].1 == s[j].1);
    } else {
        if has_account(t, a) {
            let j2 = choose|k: int| 0 <= k < t.len() && t[k].0 == a;
            assert(s[j2].0 == a);
            assert(false);
        }
    }
}

/// Appending an entry for an account with no stored entry yet.
proof fn lemma_stored_push(s: Seq<(u64, u64)>, account: u64, amount: u64)
    requires
        keys_unique(s),
        forall|k: int| 0 <= k < s.len() ==> s[k].0 != account,
    ensures
        keys_unique(s.push((account, amount))),
        stored_balance(s.push((account, amount)), account) == amount,
        forall|a: u64|
            a != account ==> stored_balance(s.push((account, amount)), a) == stored_balance(s, a),
{
    let t = s.push((account, amount));
    assert forall|i: int, j: int|
        0 <= i < t.len() && 0 <= j < t.len() && i != j implies t[i].0 != t[j].0 by {
        if i < s.len() && j < s.len() {
            assert(s[i].0 != s[j].0);
        }
    }
    assert(t[s.len() as int].0 == account);
    assert(has_account(t, account));
    let j = choose|k: int| 0 <= k < t.len() && t[k].0 == account;
    if j < s.len() {
        assert(s[j].0 != account);
    }
    assert(stored_balance(t, account) == amount);
    assert forall|a: u64| a != account implies stored_balance(t, a) == stored_balance(s, a) by {
        if has_account(s, a) {
            let m = choose|k: int| 0 <= k < s.len() && s[k].0 == a;
            assert(t[m].0 == a);
            assert(has_account(t, a));
            let j2 = choose|k: int| 0 <= k < t.len() && t[k].0 == a;
            if j2 == s.len() as int {
                assert(t[j2].0 == account);
                assert(false);
            }
            assert(s[j2].0 == a);
            if j2 != m {
                assert(s[j2].0 != s[m].0);
                assert(false);
            }
            assert(t[j2].1 == s[m].1);
        } else {
            if has_account(t, a) {
                let j2 = choose|k: int| 0 <= k < t.len() && t[k].0 == a;
                if j2 < s.len() {
                    assert(s[j2].0 == a);
                    assert(has_account(s, a));
                } else {
                    assert(t[j2].0 == account);
                }
                assert(false);
            }
        }
    }
}

/// Per-account balances and the total supply counter.
///
/// `entries` is the sparse balance map as a sequence of `(account, balance)`
/// pairs with unique keys; an account without an entry has balance zero.
pub struct AccountLedger {
    pub entries: Vec<(u64, u64)>,
    pub total_supply: u64,
}

impl AccountLedger {
    /// Well-formedness of the representation: the stored keys are unique, so
    /// each account has exactly one stored balance.
    pub open spec fn wf(self) -> bool {
        keys_unique(self.entries@)
    }

    /// The balance of `account`: the stored value, or zero when absent.
    pub open spec fn spec_balance(self, account: u64) -> u64 {
        stored_balance(self.entries@, account)
    }

    pub open spec fn spec_total_supply(self) -> u64 {
        self.total_supply
    }

    /// The mathematical sum of all account balances.
    pub open spec fn sum(self) -> int {
        sum_balances(self.entries@)
    }

    /// A fresh ledger: every balance is zero and so is the total supply.
    pub fn new() -> (r: AccountLedger)
        ensures
            r.wf(),
            r.spec_total_supply() == 0,
            r.sum() == 0,
            forall|a: u64| r.spec_balance(a) == 0,
    {
        AccountLedger { entries: Vec::new(), total_supply: 0 }
    }

    /// The index of the entry for `account`, if one is stored.
    fn find(&self, account: u64) -> (r: Option<usize>)
        ensures
            match r {
                Some(i) => i < self.entries@.len() && self.entries@[i as int].0 == account,
                None => forall|k: int|
                    0 <= k < self.entries@.len() ==> self.entries@[k].0 != account,
            },
    {
        let n = self.entries.len();
        let mut i: usize = 0;
        while i < n
            invariant
                i <= n,
                n == self.entries@.len(),
                forall|k: int| 0 <= k < i ==> self.entries@[k].0 != account,
            decreases n - i,
        {
            if self.entries[i].0 == account {
                return Some(i);
            }
            i = i + 1;
        }
        None
    }

    /// Returns the balance of `account`; zero when no entry exists. Never
    /// fails.
    pub fn get_balance(&self, account: u64) -> (r: u64)
        requires
            self.wf(),
        ensures
            r == self.spec_balance(account),
    {
        match self.find(account) {
            Some(i) => {
                proof {
                    lemma_stored_at(self.entries@, i as int);
                }
                self.entries[i].1
            }
            None => {
                proof {
                    lemma_stored_absent(self.entries@, account);
                }
                0
            }
        }
    }

    /// Overwrites the stored balance of `account`. Pure storage primitive: no
    /// validation and no overflow checking happens here. A zero amount is
    /// stored rather than pruned, which leaves the read semantics unchanged:
    /// a stored zero and a missing entry both read as balance zero.
    pub fn set_balance(&mut self, account: u64, amount: u64)
        requires
            old(self).wf(),
        ensures
            final(self).wf(),
            final(self).spec_balance(account) == amount,
            forall|a: u64| a != account ==> final(self).spec_balance(a) == old(self).spec_balance(a),
            final(self).sum() == old(self).sum() - old(self).spec_balance(account) + amount,
            final(self).spec_total_supply() == old(self).spec_total_supply(),
    {
        match self.find(account) {
            Some(i) => {
                proof {
                    lemma_stored_at(self.entries@, i as int);
                    lemma_sum_update(self.entries@, i as int, (account, amount));
                    lemma_stored_update(self.entries@, i as int, amount);
                }
                self.entries.set(i, (account, amount));
            }
            None => {
                proof {
                    lemma_stored_absent(self.entries@, account);
                    lemma_sum_push(self.entries@, (account, amount));
                    lemma_stored_push(self.entries@, account, amount);
                }
                self.entries.push((account, amount));
            }
        }
    }

    /// Returns the total supply.
    pub fn get_total_supply(&self) -> (r: u64)
        ensures
            r == self.spec_total_supply(),
    {
        self.total_supply
    }

    /// Overwrites the total supply. Pure storage primitive: callers validate.
    pub fn set_total_supply(&mut self, amount: u64)
        requires
            old(self).wf(),
        ensures
            final(self).wf(),
            final(self).spec_total_supply() == amount,
            final(self).sum() == old(self).sum(),
            forall|a: u64| final(self).spec_balance(a) == old(self).spec_balance(a),
    {
        self.total_supply = amount;
    }

    /// No single account holds more than the sum of all balances.
    pub proof fn lemma_balance_le_sum(self, account: u64)
        requires
            self.wf(),
        ensures
            0 <= self.spec_balance(account) <= self.sum(),
    {
        lemma_sum_nonneg(self.entries@);
        if has_account(self.entries@, account) {
            let j = choose|k: int|
                0 <= k < self.entries@.len() && self.entries@[k].0 == account;
            lemma_sum_elem(self.entries@, j);
        }
    }

    /// Two distinct accounts together hold no more than the sum of all
    /// balances.
    pub proof fn lemma_two_balances_le_sum(self, a: u64, b: u64)
        requires
            self.wf(),
            a != b,
        ensures
            self.spec_balance(a) + self.spec_balance(b) <= self.sum(),
    {
        let s = self.entries@;
        lemma_sum_nonneg(s);
        if has_account(s, a) && has_account(s, b) {
            let i = choose|k: int| 0 <= k < s.len() && s[k].0 == a;
            let j = choose|k: int| 0 <= k < s.len() && s[k].0 == b;
            assert(i != j);
            lemma_sum_two_elems(s, i, j);
        } else if has_account(s, a) {
            let i = choose|k: int| 0 <= k < s.len() && s[k].0 == a;
            lemma_sum_elem(s, i);
        } else if has_account(s, b) {
            let j = choose|k: int| 0 <= k < s.len() && s[k].0 == b;
            lemma_sum_elem(s, j);
        }
    }
}

} // verus!
