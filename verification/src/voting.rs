//! The voting ledger: per-account vote counters saturating at two, an
//! aggregate total, and a fixed statement and threshold chosen at
//! construction.

use vstd::prelude::*;

use crate::counts::CountTable;

verus! {

/// A ledger of votes. Each account may contribute at most two votes; further
/// votes from the same account are silently ignored. The aggregate total
/// always equals the sum of the per-account counters.
pub struct VotingContract {
    statement: String,
    threshold: u32,
    voted_count: u32,
    voted_parties: CountTable,
}

/// One vote by an account: its counter grows by one until it reaches two,
/// then stays there.
pub open spec fn saturating_step(c: u32) -> u32 {
    if c < 2 {
        (c + 1) as u32
    } else {
        c
    }
}

impl VotingContract {
    /// The table is well formed, every stored counter lies in 1..=2, and the
    /// aggregate equals the sum of the stored counters.
    pub closed spec fn wf(self) -> bool {
        &&& self.voted_parties.wf()
        &&& forall|k: u64|
            self.voted_parties.contains(k) ==> 1 <= #[trigger] self.voted_parties.value_of(k) <= 2
        &&& self.voted_count == self.voted_parties.total()
    }

    /// The statement chosen at construction.
    pub closed spec fn spec_statement(self) -> Seq<char> {
        self.statement@
    }

    /// The threshold chosen at construction.
    pub closed spec fn spec_threshold(self) -> u32 {
        self.threshold
    }

    /// The aggregate number of recorded votes.
    pub closed spec fn spec_total(self) -> u32 {
        self.voted_count
    }

    /// The recorded votes of one account, zero where it never voted.
    pub closed spec fn spec_count(self, id: u64) -> u32 {
        self.voted_parties.count(id)
    }

    /// Creates a ledger with the given statement and threshold, no votes
    /// recorded, and every account at zero.
    pub fn new(init_statement: String, init_threshold: u32) -> (c: VotingContract)
        ensures
            c.wf(),
            is_fresh(c, init_statement@, init_threshold),
    {
        VotingContract {
            statement: init_statement,
            threshold: init_threshold,
            voted_count: 0,
            voted_parties: CountTable::new(),
        }
    }

    /// Creates a ledger with an empty statement and a zero threshold.
    pub fn default() -> (c: VotingContract)
        ensures
            c.wf(),
            is_fresh(c, Seq::<char>::empty(), 0),
    {
        VotingContract::new(String::new(), 0)
    }

    /// The statement chosen at construction.
    pub fn get_statement(&self) -> (r: String)
        ensures
            r@ == self.spec_statement(),
    {
        self.statement.clone()
    }

    /// The threshold chosen at construction.
    pub fn get_threshold(&self) -> (r: u32)
        ensures
            r == self.spec_threshold(),
    {
        self.threshold
    }

    /// The aggregate number of recorded votes.
    pub fn get_current_vote_count(&self) -> (r: u32)
        ensures
            r == self.spec_total(),
    {
        self.voted_count
    }

    /// The recorded votes of the calling account.
    pub fn what_my_vote(&self, caller: u64) -> (r: u32)
        requires
            self.wf(),
        ensures
            r == self.spec_count(caller),
    {
        match self.voted_parties.lookup(caller) {
            Some(v) => v,
            None => 0,
        }
    }

    /// Records one vote by the calling account. The caller's counter
    /// saturates at two: a third and any later vote changes nothing. The
    /// aggregate grows by one exactly when the caller's counter did.
    pub fn vote(&mut self, caller: u64)
        requires
            old(self).wf(),
            old(self).spec_count(caller) == 2 || old(self).spec_total() < u32::MAX,
        ensures
            final(self).wf(),
            final(self).spec_statement() == old(self).spec_statement(),
            final(self).spec_threshold() == old(self).spec_threshold(),
            final(self).spec_count(caller) == saturating_step(old(self).spec_count(caller)),
            forall|id: u64|
                id != caller ==> final(self).spec_count(id) == old(self).spec_count(id),
            final(self).spec_total() == old(self).spec_total() + (if old(self).spec_count(caller)
                < 2 {
                1int
            } else {
                0int
            }),
    {
        let voted_value = match self.voted_parties.lookup(caller) {
            Some(v) => v,
            None => 0,
        };
        if voted_value < 2 {
            let party_count = voted_value + 1;
            self.voted_parties.store(caller, party_count);
            self.voted_count = self.voted_count + 1;
        }
    }

    /// In a well-formed ledger every account's counter lies in 0..=2.
    pub proof fn lemma_counts_bounded(self, id: u64)
        requires
            self.wf(),
        ensures
            self.spec_count(id) <= 2,
    {
    }

    /// Whether the aggregate has reached the threshold.
    pub fn check(&self) -> (r: bool)
        ensures
            r == (self.spec_total() >= self.spec_threshold()),
    {
        self.voted_count >= self.threshold
    }
}

/// A ledger as construction leaves it: the given statement and threshold, no
/// votes recorded, every account at zero.
pub open spec fn is_fresh(c: VotingContract, statement: Seq<char>, threshold: u32) -> bool {
    &&& c.spec_statement() == statement
    &&& c.spec_threshold() == threshold
    &&& c.spec_total() == 0
    &&& forall|id: u64| c.spec_count(id) == 0
}

/// The counter one account holds after a sequence of votes, each vote named
/// by the account that cast it.
pub open spec fn count_after(calls: Seq<u64>, id: u64) -> u32
    decreases calls.len(),
{
    if calls.len() == 0 {
        0u32
    } else if calls.last() == id {
        saturating_step(count_after(calls.drop_last(), id))
    } else {
        count_after(calls.drop_last(), id)
    }
}

/// The aggregate after a sequence of votes: each vote adds one exactly when
/// the caster's counter still stood below two.
pub open spec fn total_after(calls: Seq<u64>) -> int
    decreases calls.len(),
{
    if calls.len() == 0 {
        0
    } else {
        total_after(calls.drop_last()) + (if count_after(calls.drop_last(), calls.last()) < 2 {
            1int
        } else {
            0int
        })
    }
}

/// The ledger shows exactly the counters and the aggregate that the given
/// sequence of votes produces.
pub open spec fn reflects(c: VotingContract, calls: Seq<u64>) -> bool {
    &&& c.spec_total() == total_after(calls)
    &&& forall|id: u64| c.spec_count(id) == count_after(calls, id)
}

/// A freshly constructed ledger reflects the empty sequence of votes.
pub proof fn lemma_fresh_reflects_empty(c: VotingContract, statement: Seq<char>, threshold: u32)
    requires
        is_fresh(c, statement, threshold),
    ensures
        reflects(c, Seq::<u64>::empty()),
{
}

/// One vote, as the contract of `vote` describes it, carries a ledger that
/// reflects a sequence of votes to one that reflects the sequence extended by
/// the caller.
pub proof fn lemma_vote_extends_trace(
    pre: VotingContract,
    post: VotingContract,
    calls: Seq<u64>,
    caller: u64,
)
    requires
        reflects(pre, calls),
        post.spec_count(caller) == saturating_step(pre.spec_count(caller)),
        forall|id: u64| id != caller ==> post.spec_count(id) == pre.spec_count(id),
        post.spec_total() == pre.spec_total() + (if pre.spec_count(caller) < 2 {
            1int
        } else {
            0int
        }),
    ensures
        reflects(post, calls.push(caller)),
{
    let ext = calls.push(caller);
    assert(ext.drop_last() =~= calls);
    assert(ext.last() == caller);
    assert forall|id: u64| post.spec_count(id) == count_after(ext, id) by {
        if id != caller {
            assert(count_after(ext, id) == count_after(calls, id));
        }
    }
}

/// After any number of votes all cast by one account, that account's counter
/// is the number of those votes, capped at two.
pub proof fn lemma_repeated_votes(calls: Seq<u64>, id: u64)
    requires
        forall|i: int| 0 <= i < calls.len() ==> calls[i] == id,
    ensures
        count_after(calls, id) == (if calls.len() >= 2 {
            2int
        } else {
            calls.len() as int
        }),
    decreases calls.len(),
{
    if calls.len() > 0 {
        let prev = calls.drop_last();
        assert(calls.last() == id);
        assert(forall|i: int| 0 <= i < prev.len() ==> prev[i] == calls[i]);
        lemma_repeated_votes(prev, id);
    }
}

/// An account that cast no vote holds a counter of zero.
pub proof fn lemma_absent_account_counts_zero(calls: Seq<u64>, id: u64)
    requires
        !calls.contains(id),
    ensures
        count_after(calls, id) == 0,
    decreases calls.len(),
{
    if calls.len() > 0 {
        let prev = calls.drop_last();
        assert(calls.last() != id);
        assert(!prev.contains(id)) by {
            if prev.contains(id) {
                let w = choose|w: int| 0 <= w < prev.len() && prev[w] == id;
                assert(calls[w] == id);
            }
        }
        lemma_absent_account_counts_zero(prev, id);
    }
}

/// Sum, over the given accounts, of the counters a sequence of votes
/// produces.
pub open spec fn sum_counts(calls: Seq<u64>, ids: Seq<u64>) -> int
    decreases ids.len(),
{
    if ids.len() == 0 {
        0
    } else {
        sum_counts(calls, ids.drop_last()) + count_after(calls, ids.last())
    }
}

proof fn lemma_sum_counts_empty_calls(ids: Seq<u64>)
    ensures
        sum_counts(Seq::<u64>::empty(), ids) == 0,
    decreases ids.len(),
{
    if ids.len() > 0 {
        lemma_sum_counts_empty_calls(ids.drop_last());
    }
}

proof fn lemma_sum_counts_step(calls: Seq<u64>, x: u64, ids: Seq<u64>)
    requires
        forall|i: int, j: int|
            #![trigger ids[i], ids[j]]
            0 <= i < j < ids.len() ==> ids[i] != ids[j],
    ensures
        sum_counts(calls.push(x), ids) == sum_counts(calls, ids) + (if ids.contains(x)
            && count_after(calls, x) < 2 {
            1int
        } else {
            0int
        }),
    decreases ids.len(),
{
    let ext = calls.push(x);
    assert(ext.drop_last() =~= calls);
    assert(ext.last() == x);
    if ids.len() == 0 {
        assert(!ids.contains(x));
    } else {
        let rest = ids.drop_last();
        let last = ids.last();
        assert(forall|i: int| 0 <= i < rest.len() ==> rest[i] == ids[i]);
        lemma_sum_counts_step(calls, x, rest);
        if last == x {
            assert(!rest.contains(x)) by {
                if rest.contains(x) {
                    let w = choose|w: int| 0 <= w < rest.len() && rest[w] == x;
                    assert(ids[w] == ids[ids.len() - 1]);
                }
            }
            assert(ids.contains(x)) by {
                assert(ids[ids.len() - 1] == x);
            }
            assert(count_after(ext, last) == saturating_step(count_after(calls, last)));
        } else {
            assert(count_after(ext, last) == count_after(calls, last));
            assert(ids.contains(x) == rest.contains(x)) by {
                if ids.contains(x) {
                    let w = choose|w: int| 0 <= w < ids.len() && ids[w] == x;
                    assert(w < ids.len() - 1);
                    assert(rest[w] == x);
                }
                if rest.contains(x) {
                    let w = choose|w: int| 0 <= w < rest.len() && rest[w] == x;
                    assert(ids[w] == x);
                }
            }
        }
    }
}

/// After any sequence of votes, the aggregate equals the sum of the
/// per-account counters, taken over any duplicate-free family of accounts
/// that covers every vote cast.
pub proof fn lemma_total_is_sum_of_counts(calls: Seq<u64>, ids: Seq<u64>)
    requires
        forall|i: int, j: int|
            #![trigger ids[i], ids[j]]
            0 <= i < j < ids.len() ==> ids[i] != ids[j],
        forall|i: int| 0 <= i < calls.len() ==> ids.contains(calls[i]),
    ensures
        total_after(calls) == sum_counts(calls, ids),
    decreases calls.len(),
{
    if calls.len() == 0 {
        assert(calls =~= Seq::<u64>::empty());
        lemma_sum_counts_empty_calls(ids);
    } else {
        let prev = calls.drop_last();
        let x = calls.last();
        assert(prev.push(x) =~= calls);
        assert(forall|i: int| 0 <= i < prev.len() ==> prev[i] == calls[i]);
        lemma_total_is_sum_of_counts(prev, ids);
        lemma_sum_counts_step(prev, x, ids);
        assert(ids.contains(x)) by {
            assert(calls[calls.len() - 1] == x);
        }
    }
}

/// Two freshly constructed ledgers with identical arguments agree on every
/// observation: statement, threshold, aggregate, every account's counter, and
/// the threshold check.
pub proof fn lemma_construction_deterministic(
    a: VotingContract,
    b: VotingContract,
    statement: Seq<char>,
    threshold: u32,
)
    requires
        is_fresh(a, statement, threshold),
        is_fresh(b, statement, threshold),
    ensures
        a.spec_statement() == b.spec_statement(),
        a.spec_threshold() == b.spec_threshold(),
        a.spec_total() == b.spec_total(),
        forall|id: u64| a.spec_count(id) == b.spec_count(id),
        (a.spec_total() >= a.spec_threshold()) == (b.spec_total() >= b.spec_threshold()),
{
}

/// Immediately after construction the threshold check passes exactly when the
/// threshold is zero.
pub proof fn lemma_check_at_construction(
    c: VotingContract,
    statement: Seq<char>,
    threshold: u32,
)
    requires
        is_fresh(c, statement, threshold),
    ensures
        (c.spec_total() >= c.spec_threshold()) <==> threshold == 0,
{
}

} // verus!
