//! An association table from account identifiers to counters, with at most
//! one entry per account. Both contracts keep their per-account bookkeeping
//! in such a table.

use vstd::prelude::*;

verus! {

/// Sum of the counter components of an association sequence.
pub open spec fn seq_sum(s: Seq<(u64, u32)>) -> int
    decreases s.len(),
{
    if s.len() == 0 {
        0
    } else {
        seq_sum(s.drop_last()) + s.last().1
    }
}

proof fn lemma_seq_sum_push(s: Seq<(u64, u32)>, p: (u64, u32))
    ensures
        seq_sum(s.push(p)) == seq_sum(s) + p.1,
{
    assert(s.push(p).drop_last() =~= s);
    assert(s.push(p).last() == p);
}

proof fn lemma_seq_sum_update(s: Seq<(u64, u32)>, i: int, p: (u64, u32))
    requires
        0 <= i < s.len(),
    ensures
        seq_sum(s.update(i, p)) == seq_sum(s) - s[i].1 + p.1,
    decreases s.len(),
{
    if i == s.len() - 1 {
        assert(s.update(i, p).drop_last() =~= s.drop_last());
        assert(s.update(i, p).last() == p);
    } else {
        assert(s.update(i, p).drop_last() =~= s.drop_last().update(i, p));
        assert(s.update(i, p).last() == s.last());
        lemma_seq_sum_update(s.drop_last(), i, p);
    }
}

/// A table of per-account counters; each account holds at most one entry.
pub struct CountTable {
    entries: Vec<(u64, u32)>,
}

impl CountTable {
    /// No two entries share an account.
    pub closed spec fn wf(self) -> bool {
        forall|i: int, j: int|
            #![trigger self.entries@[i], self.entries@[j]]
            0 <= i < j < self.entries@.len() ==> self.entries@[i].0 != self.entries@[j].0
    }

    /// Whether an entry stands for the account.
    pub closed spec fn contains(self, key: u64) -> bool {
        exists|i: int| 0 <= i < self.entries@.len() && self.entries@[i].0 == key
    }

    /// The counter stored for the account; meaningful only where an entry stands.
    pub closed spec fn value_of(self, key: u64) -> u32 {
        let i = choose|i: int| 0 <= i < self.entries@.len() && self.entries@[i].0 == key;
        self.entries@[i].1
    }

    /// The counter of an account, zero where no entry stands.
    pub open spec fn count(self, key: u64) -> u32 {
        if self.contains(key) {
            self.value_of(key)
        } else {
            0u32
        }
    }

    /// Sum of all stored counters.
    pub closed spec fn total(self) -> int {
        seq_sum(self.entries@)
    }

    proof fn lemma_entry_value(self, i: int)
        requires
            self.wf(),
            0 <= i < self.entries@.len(),
        ensures
            self.contains(self.entries@[i].0),
            self.value_of(self.entries@[i].0) == self.entries@[i].1,
    {
        let key = self.entries@[i].0;
        assert(self.contains(key));
        let w = choose|w: int| 0 <= w < self.entries@.len() && self.entries@[w].0 == key;
        if w < i {
            assert(self.entries@[w].0 != self.entries@[i].0);
        } else if i < w {
            assert(self.entries@[i].0 != self.entries@[w].0);
        }
    }

    /// An empty table.
    pub fn new() -> (t: CountTable)
        ensures
            t.wf(),
            t.total() == 0,
            forall|k: u64| !t.contains(k),
    {
        CountTable { entries: Vec::new() }
    }

    /// The entry stored for the account, if one stands.
    pub fn lookup(&self, key: u64) -> (r: Option<u32>)
        requires
            self.wf(),
        ensures
            self.contains(key) ==> r == Some(self.value_of(key)),
            !self.contains(key) ==> r is None,
    {
        let n = self.entries.len();
        let mut i: usize = 0;
        while i < n
            invariant
                n == self.entries@.len(),
                i <= n,
                self.wf(),
                forall|j: int| 0 <= j < i ==> self.entries@[j].0 != key,
            decreases n - i,
        {
            let (k, v) = self.entries[i];
            if k == key {
                proof {
                    self.lemma_entry_value(i as int);
                }
                return Some(v);
            }
            i += 1;
        }
        None
    }

    /// Stores a counter for the account, replacing any entry that stood for it.
    pub fn store(&mut self, key: u64, val: u32)
        requires
            old(self).wf(),
        ensures
            final(self).wf(),
            final(self).contains(key),
            final(self).value_of(key) == val,
            forall|k: u64| k != key ==> final(self).contains(k) == old(self).contains(k),
            forall|k: u64|
                k != key && old(self).contains(k) ==> final(self).value_of(k) == old(self).value_of(
                    k,
                ),
            final(self).total() == old(self).total() + val - old(self).count(key),
    {
        let ghost s0 = self.entries@;
        let n = self.entries.len();
        let mut i: usize = 0;
        while i < n
            invariant
                n == self.entries@.len(),
                i <= n,
                self == old(self),
                self.entries@ == s0,
                self.wf(),
                forall|j: int| 0 <= j < i ==> self.entries@[j].0 != key,
            decreases n - i,
        {
            let (k, _v) = self.entries[i];
            if k == key {
                proof {
                    self.lemma_entry_value(i as int);
                    lemma_seq_sum_update(s0, i as int, (key, val));
                }
                self.entries[i] = (key, val);
                proof {
                    self.lemma_store_updated(s0, i as int, key, val);
                }
                return;
            }
            i += 1;
        }
        proof {
            lemma_seq_sum_push(s0, (key, val));
        }
        self.entries.push((key, val));
        proof {
            self.lemma_store_pushed(s0, key, val);
        }
    }

    proof fn lemma_store_updated(self, s0: Seq<(u64, u32)>, i: int, key: u64, val: u32)
        requires
            0 <= i < s0.len(),
            s0[i].0 == key,
            forall|a: int, b: int|
                #![trigger s0[a], s0[b]]
                0 <= a < b < s0.len() ==> s0[a].0 != s0[b].0,
            self.entries@ == s0.update(i, (key, val)),
        ensures
            self.wf(),
            self.contains(key),
            self.value_of(key) == val,
            forall|k: u64|
                k != key ==> self.contains(k) == (exists|a: int|
                    0 <= a < s0.len() && s0[a].0 == k),
            forall|k: u64, a: int|
                k != key && 0 <= a < s0.len() && s0[a].0 == k ==> self.value_of(k) == s0[a].1,
    {
        assert(forall|j: int| 0 <= j < s0.len() ==> self.entries@[j].0 == s0[j].0);
        assert(self.wf());
        self.lemma_entry_value(i);
        assert forall|k: u64, a: int|
            k != key && 0 <= a < s0.len() && s0[a].0 == k implies self.value_of(k) == s0[a].1 by {
            assert(self.entries@[a] == s0[a]);
            self.lemma_entry_value(a);
        }
        assert forall|k: u64| k != key && self.contains(k) implies (exists|a: int|
            0 <= a < s0.len() && s0[a].0 == k) by {
            let w = choose|w: int| 0 <= w < self.entries@.len() && self.entries@[w].0 == k;
            assert(s0[w].0 == k);
        }
    }

    proof fn lemma_store_pushed(self, s0: Seq<(u64, u32)>, key: u64, val: u32)
        requires
            forall|a: int, b: int|
                #![trigger s0[a], s0[b]]
                0 <= a < b < s0.len() ==> s0[a].0 != s0[b].0,
            forall|j: int| 0 <= j < s0.len() ==> s0[j].0 != key,
            self.entries@ == s0.push((key, val)),
        ensures
            self.wf(),
            self.contains(key),
            self.value_of(key) == val,
            forall|k: u64|
                k != key ==> self.contains(k) == (exists|a: int|
                    0 <= a < s0.len() && s0[a].0 == k),
            forall|k: u64, a: int|
                k != key && 0 <= a < s0.len() && s0[a].0 == k ==> self.value_of(k) == s0[a].1,
    {
        assert(forall|j: int| 0 <= j < s0.len() ==> self.entries@[j] == s0[j]);
        assert(self.entries@[s0.len() as int] == (key, val));
        assert(self.wf());
        self.lemma_entry_value(s0.len() as int);
        assert forall|k: u64, a: int|
            k != key && 0 <= a < s0.len() && s0[a].0 == k implies self.value_of(k) == s0[a].1 by {
            self.lemma_entry_value(a);
        }
        assert forall|k: u64| k != key && self.contains(k) implies (exists|a: int|
            0 <= a < s0.len() && s0[a].0 == k) by {
            let w = choose|w: int| 0 <= w < self.entries@.len() && self.entries@[w].0 == k;
            assert(w < s0.len());
            assert(s0[w].0 == k);
        }
    }
}

} // verus!
