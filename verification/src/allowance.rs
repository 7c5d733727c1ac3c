//! The allowance registry: a sparse map from `(owner, spender)` to the amount
//! the owner permits the spender to transfer on its behalf.
//!
//! The map is sparse: a pair without a stored entry has allowance zero. The
//! registry is a pure storage primitive; it performs no validation, which is
//! the caller's responsibility.

use vstd::pervasive::VecAdditionalExecFns;
use vstd::prelude::*;

verus! {

/// Each `(owner, spender)` pair has at most one stored entry.
pub open spec fn pairs_unique(s: Seq<(u64, u64, u64)>) -> bool {
    forall|i: int, j: int|
        0 <= i < s.len() && 0 <= j < s.len() && i != j ==> !(s[i].0 == s[j].0 && s[i].1
            == s[j].1)
}

/// Some entry in `s` is keyed by `(owner, spender)`.
pub open spec fn has_pair(s: Seq<(u64, u64, u64)>, owner: u64, spender: u64) -> bool {
    exists|i: int| 0 <= i < s.len() && s[i].0 == owner && s[i].1 == spender
}

/// The allowance stored for `(owner, spender)`; a missing entry means zero.
pub open spec fn stored_allowance(s: Seq<(u64, u64, u64)>, owner: u64, spender: u64) -> u64 {
    if has_pair(s, owner, spender) {
        s[choose|i: int| 0 <= i < s.len() && s[i].0 == owner && s[i].1 == spender].2
    } else {
        0
    }
}

proof fn lemma_allowance_at(s: Seq<(u64, u64, u64)>, i: int)
    requires
        pairs_unique(s),
        0 <= i < s.len(),
    ensures
        stored_allowance(s, s[i].0, s[i].1) == s[i].2,
{
    let o = s[i].0;
    let p = s[i].1;
    assert(has_pair(s, o, p));
    let j = choose|k: int| 0 <= k < s.len() && s[k].0 == o && s[k].1 == p;
    if j != i {
        assert(!(s[i].0 == s[j].0 && s[i].1 == s[j].1));
    }
}

proof fn lemma_allowance_absent(s: Seq<(u64, u64, u64)>, owner: u64, spender: u64)
    requires
        forall|k: int| 0 <= k < s.len() ==> !(s[k].0 == owner && s[k].1 == spender),
    ensures
        stored_allowance(s, owner, spender) == 0,
{
    assert(!has_pair(s, owner, spender));
}

/// Replacing the value of the entry at `i`, keeping its key pair, leaves
/// every other pair's stored allowance unchanged and keeps the keys unique.
proof fn lemma_allowance_update(s: Seq<(u64, u64, u64)>, i: int, v: u64)
    requires
        pairs_unique(s),
        0 <= i < s.len(),
    ensures
        pairs_unique(s.update(i, (s[i].0, s[i].1, v))),
        stored_allowance(s.update(i, (s[i].0, s[i].1, v)), s[i].0, s[i].1) == v,
        forall|o: u64, p: u64|
            !(o == s[i].0 && p == s[i].1) ==> stored_allowance(
                s.update(i, (s[i].0, s[i].1, v)),
                o,
                p,
            ) == stored_allowance(s, o, p),
{
    let t = s.update(i, (s[i].0, s[i].1, v));
    assert(forall|k: int| 0 <= k < s.len() ==> t[k].0 == s[k].0 && t[k].1 == s[k].1);
    lemma_allowance_at(t, i);
    assert forall|o: u64, p: u64| !(o == s[i].0 && p == s[i].1) implies stored_allowance(t, o, p)
        == stored_allowance(s, o, p) by {
        lemma_allowance_same_keys(s, t, o, p);
    }
}

/// Two entry sequences with identical key pairs, agreeing on the values of
/// every entry keyed by `(o, p)`, store the same allowance for `(o, p)`.
proof fn lemma_allowance_same_keys(s: Seq<(u64, u64, u64)>, t: Seq<(u64, u64, u64)>, o: u64, p: u64)
    requires
        pairs_unique(s),
        s.len() == t.len(),
        forall|k: int| 0 <= k < s.len() ==> t[k].0 == s[k].0 && t[k].1 == s[k].1,
        forall|k: int| 0 <= k < s.len() && s[k].0 == o && s[k].1 == p ==> t[k].2 == s[k].2,
    ensures
        stored_allowance(t, o, p) == stored_allowance(s, o, p),
{
    if has_pair(s, o, p) {
        let j = choose|k: int| 0 <= k < s.len() && s[k].0 == o && s[k].1 == p;
        assert(t[j].0 == o && t[j].1 == p);
        assert(has_pair(t, o, p));
        let j2 = choose|k: int| 0 <= k < t.len() && t[k].0 == o && t[k].1 == p;
        assert(s[j2].0 == o && s[j2].1 == p);
        if j2 != j {
            assert(!(s[j].0 == s[j2].0 && s[j].1 == s[j2].1));
        }
        assert(t[j2].2 == s[j].2);
    } else {
        if has_pair(t, o, p) {
            let j2 = choose|k: int| 0 <= k < t.len() && t[k].0 == o && t[k].1 == p;
            assert(s[j2].0 == o && s[j2].1 == p);
            assert(false);
        }
    }
}

/// Appending an entry for a pair with no stored entry yet.
proof fn lemma_allowance_push(s: Seq<(u64, u64, u64)>, owner: u64, spender: u64, amount: u64)
    requires
        pairs_unique(s),
        forall|k: int| 0 <= k < s.len() ==> !(s[k].0 == owner && s[k].1 == spender),
    ensures
        pairs_unique(s.push((owner, spender, amount))),
        stored_allowance(s.push((owner, spender, amount)), owner, spender) == amount,
        forall|o: u64, p: u64|
            !(o == owner && p == spender) ==> stored_allowance(
                s.push((owner, spender, amount)),
                o,
                p,
            ) == stored_allowance(s, o, p),
{
    let t = s.push((owner, spender, amount));
    assert forall|i: int, j: int|
        0 <= i < t.len() && 0 <= j < t.len() && i != j implies !(t[i].0 == t[j].0 && t[i].1
        == t[j].1) by {
        if i < s.len() && j < s.len() {
            assert(!(s[i].0 == s[j].0 && s[i].1 == s[j].1));
        }
    }
    assert(t[s.len() as int].0 == owner && t[s.len() as int].1 == spender);
    assert(has_pair(t, owner, spender));
    let j = choose|k: int| 0 <= k < t.len() && t[k].0 == owner && t[k].1 == spender;
    if j < s.len() {
        assert(!(s[j].0 == owner && s[j].1 == spender));
    }
    assert(stored_allowance(t, owner, spender) == amount);
    assert forall|o: u64, p: u64| !(o == owner && p == spender) implies stored_allowance(t, o, p)
        == stored_allowance(s, o, p) by {
        if has_pair(s, o, p) {
            let m = choose|k: int| 0 <= k < s.len() && s[k].0 == o && s[k].1 == p;
            assert(t[m].0 == o && t[m].1 == p);
            assert(has_pair(t, o, p));
            let j2 = choose|k: int| 0 <= k < t.len() && t[k].0 == o && t[k].1 == p;
            if j2 == s.len() as int {
                assert(t[j2].0 == owner && t[j2].1 == spender);
                assert(false);
            }
            assert(s[j2].0 == o && s[j2].1 == p);
            if j2 != m {
                assert(!(s[j2].0 == s[m].0 && s[j2].1 == s[m].1));
                assert(false);
            }
            assert(t[j2].2 == s[m].2);
        } else {
            if has_pair(t, o, p) {
                let j2 = choose|k: int| 0 <= k < t.len() && t[k].0 == o && t[k].1 == p;
                if j2 < s.len() {
                    assert(s[j2].0 == o && s[j2].1 == p);
                    assert(has_pair(s, o, p));
                } else {
                    assert(t[j2].0 == owner && t[j2].1 == spender);
                }
                assert(false);
            }
        }
    }
}

/// Delegated spending allowances, keyed by `(owner, spender)`.
///
/// `entries` is the sparse allowance map as a sequence of
/// `(owner, spender, allowance)` triples with unique key pairs; a pair
/// without an entry has allowance zero.
pub struct AllowanceRegistry {
    pub entries: Vec<(u64, u64, u64)>,
}

impl AllowanceRegistry {
    /// Well-formedness of the representation: the stored key pairs are
    /// unique, so each pair has exactly one stored allowance.
    pub open spec fn wf(self) -> bool {
        pairs_unique(self.entries@)
    }

    /// The allowance of `(owner, spender)`: the stored value, or zero when
    /// absent.
    pub open spec fn spec_allowance(self, owner: u64, spender: u64) -> u64 {
        stored_allowance(self.entries@, owner, spender)
    }

    /// A fresh registry: every allowance is zero.
    pub fn new() -> (r: AllowanceRegistry)
        ensures
            r.wf(),
            forall|o: u64, p: u64| r.spec_allowance(o, p) == 0,
    {
        AllowanceRegistry { entries: Vec::new() }
    }

    /// The index of the entry for `(owner, spender)`, if one is stored.
    fn find(&self, owner: u64, spender: u64) -> (r: Option<usize>)
        ensures
            match r {
                Some(i) => i < self.entries@.len() && self.entries@[i as int].0 == owner
                    && self.entries@[i as int].1 == spender,
                None => forall|k: int|
                    0 <= k < self.entries@.len() ==> !(self.entries@[k].0 == owner
                        && self.entries@[k].1 == spender),
            },
    {
        let n = self.entries.len();
        let mut i: usize = 0;
        while i < n
            invariant
                i <= n,
                n == self.entries@.len(),
                forall|k: int|
                    0 <= k < i ==> !(self.entries@[k].0 == owner && self.entries@[k].1 == spender),
            decreases n - i,
        {
            if self.entries[i].0 == owner && self.entries[i].1 == spender {
                return Some(i);
            }
            i = i + 1;
        }
        None
    }

    /// Returns the allowance of `(owner, spender)`; zero when no entry
    /// exists. Never fails.
    pub fn get_allowance(&self, owner: u64, spender: u64) -> (r: u64)
        requires
            self.wf(),
        ensures
            r == self.spec_allowance(owner, spender),
    {
        match self.find(owner, spender) {
            Some(i) => {
                proof {
                    lemma_allowance_at(self.entries@, i as int);
                }
                self.entries[i].2
            }
            None => {
                proof {
                    lemma_allowance_absent(self.entries@, owner, spender);
                }
                0
            }
        }
    }

    /// Overwrites the stored allowance of `(owner, spender)`. Pure storage
    /// primitive: no validation happens here.
    pub fn set_allowance(&mut self, owner: u64, spender: u64, amount: u64)
        requires
            old(self).wf(),
        ensures
            final(self).wf(),
            final(self).spec_allowance(owner, spender) == amount,
            forall|o: u64, p: u64|
                !(o == owner && p == spender) ==> final(self).spec_allowance(o, p) == old(
                    self,
                ).spec_allowance(o, p),
    {
        match self.find(owner, spender) {
            Some(i) => {
                proof {
                    lemma_allowance_update(self.entries@, i as int, amount);
                }
                self.entries.set(i, (owner, spender, amount));
            }
            None => {
                proof {
                    lemma_allowance_push(self.entries@, owner, spender, amount);
                }
                self.entries.push((owner, spender, amount));
            }
        }
    }
}

} // verus!
