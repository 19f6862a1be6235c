//! The ordinal assigned to each emitted log entry.
use vstd::prelude::*;

verus! {

/// The largest value in `s`, or 0 when `s` is empty.
pub open spec fn seq_max(s: Seq<u64>) -> u64
    decreases s.len(),
{
    if s.len() == 0 {
        0
    } else {
        let m = seq_max(s.drop_last());
        if s.last() > m {
            s.last()
        } else {
            m
        }
    }
}

/// The first index a log may use after the entries whose indices are `existing`:
/// one past the largest, or 0 for an empty log.
pub open spec fn start_index(existing: Seq<u64>) -> int {
    if existing.len() == 0 {
        0
    } else {
        seq_max(existing) + 1
    }
}

/// The indices handed out by `n` successive requests to a provider at `start`.
pub open spec fn issued(start: int, n: nat) -> Seq<int> {
    Seq::new(n, |j: int| start + j)
}

pub proof fn lemma_seq_max_bounds(s: Seq<u64>)
    ensures
        forall|i: int| 0 <= i < s.len() ==> s[i] <= seq_max(s),
        s.len() > 0 ==> exists|i: int| 0 <= i < s.len() && s[i] == seq_max(s),
    decreases s.len(),
{
    if s.len() > 0 {
        lemma_seq_max_bounds(s.drop_last());
        assert forall|i: int| 0 <= i < s.len() implies s[i] <= seq_max(s) by {
            if i < s.len() - 1 {
                assert(s[i] == s.drop_last()[i]);
            }
        }
        if s.len() > 1 && seq_max(s) == seq_max(s.drop_last()) {
            let k = choose|k: int| 0 <= k < s.len() - 1 && s.drop_last()[k] == seq_max(s.drop_last());
            assert(s[k] == seq_max(s));
        } else {
            assert(s[s.len() - 1] == seq_max(s));
        }
    }
}

/// A log resumed from the entries whose indices are `existing` hands out
/// indices that strictly increase and that none of those entries holds, so no
/// index repeats within the log across restarts.
pub proof fn lemma_resumed_indices_fresh(existing: Seq<u64>, n: nat)
    ensures
        forall|i: int, j: int|
            0 <= i < j < n ==> #[trigger] issued(start_index(existing), n)[i] < #[trigger] issued(
                start_index(existing),
                n,
            )[j],
        forall|i: int, k: int|
            0 <= i < existing.len() && 0 <= k < n ==> #[trigger] existing[i] < #[trigger] issued(
                start_index(existing),
                n,
            )[k],
{
    lemma_seq_max_bounds(existing);
}

/// Hands out entry indices, one larger each time.
pub struct EntryIndexProvider {
    next: u64,
}

impl EntryIndexProvider {
    /// The index that the next request returns.
    pub closed spec fn next_index(&self) -> u64 {
        self.next
    }

    /// A provider for an empty log.
    pub fn new() -> (r: EntryIndexProvider)
        ensures
            r.next_index() == 0,
    {
        EntryIndexProvider { next: 0 }
    }

    /// A provider that continues the log whose stored entries have the indices
    /// `existing`.
    pub fn start_from(existing: &Vec<u64>) -> (r: EntryIndexProvider)
        requires
            forall|i: int| 0 <= i < existing@.len() ==> existing@[i] < u64::MAX,
        ensures
            r.next_index() == start_index(existing@),
    {
        proof {
            lemma_seq_max_bounds(existing@);
        }
        if existing.len() == 0 {
            return EntryIndexProvider { next: 0 };
        }
        let mut m: u64 = 0;
        let mut i: usize = 0;
        while i < existing.len()
            invariant
                0 <= i <= existing@.len(),
                existing@.len() > 0,
                m == seq_max(existing@.subrange(0, i as int)),
            decreases existing@.len() - i,
        {
            assert(existing@.subrange(0, i + 1).drop_last() =~= existing@.subrange(0, i as int));
            if existing[i] > m {
                m = existing[i];
            }
            i = i + 1;
        }
        assert(existing@.subrange(0, existing@.len() as int) =~= existing@);
        EntryIndexProvider { next: m + 1 }
    }

    /// The index that the next request returns.
    pub fn current(&self) -> (r: u64)
        ensures
            r == self.next_index(),
    {
        self.next
    }

    /// Hands out the current index and moves past it.
    pub fn next(&mut self) -> (r: u64)
        requires
            old(self).next_index() < u64::MAX,
        ensures
            r == old(self).next_index(),
            final(self).next_index() == r + 1,
    {
        let r = self.next;
        self.next = self.next + 1;
        r
    }
}

} // verus!
