//! The summary of a raft directory's state: its term, its vote and the range of indexes its log
//! and snapshots hold.

use vstd::prelude::*;

use crate::dqlite::{DqliteState, RaftSegment, RaftSnapshot};

verus! {

/// Shows the summary of a raft directory's state.
#[derive(Clone, Copy, Debug, PartialEq, Eq)]
pub struct InfoCommand {
    /// Whether to show everything.
    pub full: bool,
}

/// The summary of a raft directory's state.
#[derive(Clone, Debug, PartialEq, Eq)]
pub struct RaftInfo {
    pub folder: String,
    pub running: bool,
    pub term: u64,
    pub voted_for: u64,
    /// The range `index_start..index_end` of the log.
    pub index_start: u64,
    pub index_end: u64,
}

/// The smallest index of the snapshots, or 0 without snapshots.
pub open spec fn min_snapshot_index(s: Seq<RaftSnapshot>) -> u64
    decreases s.len(),
{
    if s.len() == 0 {
        0
    } else if s.len() == 1 {
        s[0].index
    } else {
        let m = min_snapshot_index(s.drop_last());
        if s.last().index < m {
            s.last().index
        } else {
            m
        }
    }
}

/// The end of the last closed segment among the first `k`, or 0 before any.
pub open spec fn closed_end_at(segs: Seq<RaftSegment>, k: int) -> u64
    decreases k,
{
    if k <= 0 {
        0
    } else {
        match segs[k - 1] {
            RaftSegment::Closed { index_end, .. } => index_end,
            RaftSegment::Open { .. } => closed_end_at(segs, k - 1),
        }
    }
}

/// The first index after the first `k` segments: the smallest snapshot index, lowered to the
/// start of any closed segment that starts before it.
pub open spec fn first_at(segs: Seq<RaftSegment>, snaps: Seq<RaftSnapshot>, k: int) -> u64
    decreases k,
{
    if k <= 0 {
        min_snapshot_index(snaps)
    } else {
        let f = first_at(segs, snaps, k - 1);
        match segs[k - 1] {
            RaftSegment::Closed { index_start, .. } => if f > index_start {
                index_start
            } else {
                f
            },
            RaftSegment::Open { .. } => f,
        }
    }
}

/// The entries of the open segments among the first `k`, `counts[i]` being those of segment
/// `i`.
pub open spec fn open_sum(segs: Seq<RaftSegment>, counts: Seq<u64>, k: int) -> int
    decreases k,
{
    if k <= 0 {
        0
    } else {
        open_sum(segs, counts, k - 1) + match segs[k - 1] {
            RaftSegment::Closed { .. } => 0,
            RaftSegment::Open { .. } => counts[k - 1] as int,
        }
    }
}

/// Whether the summary can be made: each closed segment starts right after the one before it,
/// if any, and no count runs past 64 bits.
pub open spec fn range_computable(segs: Seq<RaftSegment>, counts: Seq<u64>) -> bool {
    &&& counts.len() == segs.len()
    &&& closed_end_at(segs, segs.len() as int) + open_sum(segs, counts, segs.len() as int) <= u64::MAX
    &&& forall|k: int|
        0 <= k < segs.len() ==> match #[trigger] segs[k] {
            RaftSegment::Closed { index_start, .. } => closed_end_at(segs, k) < u64::MAX && (index_start
                == closed_end_at(segs, k) + 1 || closed_end_at(segs, k) == 0),
            RaftSegment::Open { .. } => true,
        }
}

/// The smallest snapshot index is at most every snapshot's index and is one of them; it is 0
/// where there is no snapshot.
pub proof fn lemma_min_snapshot_index(s: Seq<RaftSnapshot>)
    ensures
        s.len() == 0 ==> min_snapshot_index(s) == 0,
        forall|i: int| 0 <= i < s.len() ==> min_snapshot_index(s) <= #[trigger] s[i].index,
        s.len() > 0 ==> exists|i: int| 0 <= i < s.len() && min_snapshot_index(s) == #[trigger] s[i].index,
    decreases s.len(),
{
    if s.len() > 1 {
        let init = s.drop_last();
        lemma_min_snapshot_index(init);
        let m = min_snapshot_index(init);
        assert forall|i: int| 0 <= i < s.len() implies min_snapshot_index(s) <= #[trigger] s[i].index by {
            if i < s.len() - 1 {
                assert(s[i] == init[i]);
            }
        }
        if s.last().index < m {
            assert(min_snapshot_index(s) == s[s.len() - 1].index);
        } else {
            let w = choose|i: int| 0 <= i < init.len() && m == #[trigger] init[i].index;
            assert(s[w] == init[w]);
            assert(min_snapshot_index(s) == s[w].index);
        }
    } else if s.len() == 1 {
        assert(min_snapshot_index(s) == s[0].index);
    }
}

/// The start of the index range after the first `k` segments is at most every snapshot's index
/// and the start of every closed segment among them; with snapshots it is one of their indexes
/// or the start of one of those closed segments, and without snapshots it is 0.
pub proof fn lemma_first_at_is_least(segs: Seq<RaftSegment>, snaps: Seq<RaftSnapshot>, k: int)
    requires
        0 <= k <= segs.len(),
    ensures
        forall|i: int| 0 <= i < snaps.len() ==> first_at(segs, snaps, k) <= #[trigger] snaps[i].index,
        forall|j: int| 0 <= j < k ==> match #[trigger] segs[j] {
            RaftSegment::Closed { index_start, .. } => first_at(segs, snaps, k) <= index_start,
            RaftSegment::Open { .. } => true,
        },
        snaps.len() == 0 ==> first_at(segs, snaps, k) == 0,
        snaps.len() > 0 ==> (exists|i: int| 0 <= i < snaps.len() && first_at(segs, snaps, k) == #[trigger] snaps[i].index)
            || (exists|j: int| 0 <= j < k && (#[trigger] segs[j] matches RaftSegment::Closed { index_start, .. }
                && first_at(segs, snaps, k) == index_start)),
    decreases k,
{
    lemma_min_snapshot_index(snaps);
    if k > 0 {
        lemma_first_at_is_least(segs, snaps, k - 1);
        let f = first_at(segs, snaps, k - 1);
        match segs[k - 1] {
            RaftSegment::Closed { index_start, .. } => {
                if f > index_start {
                    assert(segs[k - 1] matches RaftSegment::Closed { index_start: st, .. } && first_at(segs, snaps, k) == st);
                }
            },
            RaftSegment::Open { .. } => {},
        }
    }
}

proof fn lemma_open_sum_mono(segs: Seq<RaftSegment>, counts: Seq<u64>, a: int, b: int)
    requires
        0 <= a <= b <= segs.len(),
        counts.len() == segs.len(),
    ensures
        open_sum(segs, counts, a) <= open_sum(segs, counts, b),
    decreases b - a,
{
    if a < b {
        lemma_open_sum_mono(segs, counts, a, b - 1);
    }
}

fn min_snapshot(snapshots: &Vec<RaftSnapshot>) -> (r: u64)
    ensures
        r == min_snapshot_index(snapshots@),
{
    if snapshots.len() == 0 {
        return 0;
    }
    let mut m = snapshots[0].index;
    let mut k: usize = 1;
    assert(snapshots@.take(1) =~= seq![snapshots@[0]]);
    while k < snapshots.len()
        invariant
            1 <= k <= snapshots.len(),
            m == min_snapshot_index(snapshots@.take(k as int)),
        decreases snapshots.len() - k,
    {
        assert(snapshots@.take(k + 1).drop_last() =~= snapshots@.take(k as int));
        if snapshots[k].index < m {
            m = snapshots[k].index;
        }
        k += 1;
    }
    assert(snapshots@.take(k as int) =~= snapshots@);
    m
}

impl InfoCommand {
    /// The range of indexes of the state: from the first index, which is the smallest
    /// snapshot index lowered to the start of any closed segment that starts before it, to the
    /// end of the last closed segment plus the entries of the open segments (`open_counts[i]`
    /// for segment `i`).
    pub fn index_range(state: &DqliteState, open_counts: &[u64]) -> (r: (u64, u64))
        requires
            range_computable(state.segments@, open_counts@),
        ensures
            r.0 == first_at(state.segments@, state.snapshots@, state.segments@.len() as int),
            r.1 == closed_end_at(state.segments@, state.segments@.len() as int) + open_sum(
                state.segments@,
                open_counts@,
                state.segments@.len() as int,
            ),
            forall|i: int| 0 <= i < state.snapshots@.len() ==> r.0 <= #[trigger] state.snapshots@[i].index,
            forall|j: int| 0 <= j < state.segments@.len() ==> match #[trigger] state.segments@[j] {
                RaftSegment::Closed { index_start, .. } => r.0 <= index_start,
                RaftSegment::Open { .. } => true,
            },
            state.snapshots@.len() == 0 ==> r.0 == 0,
            state.snapshots@.len() > 0 ==> (exists|i: int| 0 <= i < state.snapshots@.len() && r.0 == #[trigger] state.snapshots@[i].index)
                || (exists|j: int| 0 <= j < state.segments@.len() && (#[trigger] state.segments@[j] matches RaftSegment::Closed { index_start, .. }
                    && r.0 == index_start)),
    {
        proof {
            lemma_first_at_is_least(state.segments@, state.snapshots@, state.segments@.len() as int);
        }
        let segs = &state.segments;
        let ghost sv = segs@;
        let n = segs.len();
        let mut open_entry_count: u64 = 0;
        let mut closed_entry_index: u64 = 0;
        let mut first_index = min_snapshot(&state.snapshots);
        let mut k: usize = 0;
        while k < n
            invariant
                k <= n,
                n == sv.len(),
                sv == state.segments@,
                segs@ == sv,
                range_computable(sv, open_counts@),
                open_entry_count == open_sum(sv, open_counts@, k as int),
                closed_entry_index == closed_end_at(sv, k as int),
                first_index == first_at(sv, state.snapshots@, k as int),
            decreases n - k,
        {
            proof {
                lemma_open_sum_mono(sv, open_counts@, k + 1, n as int);
            }
            match &segs[k] {
                RaftSegment::Closed { index_start, index_end } => {
                    if first_index > *index_start {
                        first_index = *index_start;
                    }
                    closed_entry_index = *index_end;
                },
                RaftSegment::Open { .. } => {
                    assert(open_sum(sv, open_counts@, k + 1) == open_entry_count + open_counts@[k as int]);
                    open_entry_count = open_entry_count + open_counts[k];
                },
            }
            k += 1;
        }
        (first_index, closed_entry_index + open_entry_count)
    }

    /// The summary of `state`, `running` telling whether dqlite holds the directory.
    pub fn summary(state: &DqliteState, running: bool, open_counts: &[u64]) -> (r: RaftInfo)
        requires
            range_computable(state.segments@, open_counts@),
        ensures
            r.folder@ == state.folder@,
            r.running == running,
            r.term == state.term,
            r.voted_for == state.voted_for,
            r.index_start == first_at(state.segments@, state.snapshots@, state.segments@.len() as int),
            r.index_end == closed_end_at(state.segments@, state.segments@.len() as int) + open_sum(
                state.segments@,
                open_counts@,
                state.segments@.len() as int,
            ),
    {
        let (index_start, index_end) = InfoCommand::index_range(state, open_counts);
        RaftInfo {
            folder: state.folder.clone(),
            running,
            term: state.term,
            voted_for: state.voted_for,
            index_start,
            index_end,
        }
    }
}

} // verus!
