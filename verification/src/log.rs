//! The text of the raft log: one block per entry, newest first, with a line each time the term
//! changes.

use vstd::prelude::*;

use crate::dir::{
    duplicate_entries, ContentView, DqliteDir, DqliteFrame, DqliteLogEntry, DqliteLogEntryContent,
    DqliteSegment, DqliteSnapshot, EntryView, FrameView, entries_view, frames_view, log_entries_view,
};
use crate::raft::{RaftRole, RaftServer, ServerView, servers_view};
use crate::text::{decimal, push_decimal, push_str};

verus! {

/// How a role is shown in the log: its variant name.
pub open spec fn role_debug_spec(role: RaftRole) -> Seq<char> {
    match role {
        RaftRole::Standby => "Standby"@,
        RaftRole::Voter => "Voter"@,
        RaftRole::Spare => "Spare"@,
    }
}

/// The line that opens a new term: `╭` for the first term shown, `├` for the others; nothing
/// where the term is the one shown last.
pub open spec fn term_text(prev: Option<u64>, term: u64) -> Seq<char> {
    if prev == Some(term) {
        Seq::empty()
    } else {
        (if prev is None {
            "╭"@
        } else {
            "├"@
        }) + " TERM "@ + decimal(term as nat) + "\n"@
    }
}

/// The line that names an entry: its index, its kind, the file it concerns if any, and `tag`.
pub open spec fn header_text(index: u64, c: ContentView, tag: Seq<char>) -> Seq<char> {
    "│ "@ + decimal(index as nat) + " "@ + match c {
        ContentView::Barrier => "BARRIER "@ + tag,
        ContentView::Change(_) => "CONFIG "@ + tag,
        ContentView::CommandOpen { filename } => "OPEN "@ + filename + " "@ + tag,
        ContentView::CommandFrames { filename, is_commit, .. } => (if is_commit {
            "COMMIT"@
        } else {
            "FRAMES"@
        }) + " "@ + filename + " "@ + tag,
        ContentView::CommandUndo { .. } => "ROLLBACK "@ + tag,
        ContentView::CommandCheckpoint { filename } => "CHECKPOINT "@ + filename + " "@ + tag,
    } + "\n"@
}

/// The lines of the servers of a configuration.
pub open spec fn servers_text(s: Seq<ServerView>) -> Seq<char>
    decreases s.len(),
{
    if s.len() == 0 {
        Seq::empty()
    } else {
        servers_text(s.drop_last()) + "│     "@ + decimal(s.last().0 as nat) + ":\n│       address: "@
            + s.last().1 + "\n│       role: "@ + role_debug_spec(s.last().2) + "\n"@
    }
}

/// The page numbers of frames, separated by `, `.
pub open spec fn pages_text(f: Seq<FrameView>) -> Seq<char>
    decreases f.len(),
{
    if f.len() == 0 {
        Seq::empty()
    } else if f.len() == 1 {
        decimal(f[0].0 as nat)
    } else {
        pages_text(f.drop_last()) + ", "@ + decimal(f.last().0 as nat)
    }
}

/// The lines that detail an entry; nothing for barriers, opens and checkpoints.
pub open spec fn content_text(c: ContentView) -> Seq<char> {
    match c {
        ContentView::Change(servers) => "│   servers:\n"@ + servers_text(servers),
        ContentView::CommandFrames { tx_id, truncate, frames, .. } => "│   tx_id: "@ + decimal(
            tx_id as nat,
        ) + "\n│   truncate: "@ + decimal(truncate as nat) + "\n│   pages: "@ + pages_text(frames)
            + "\n"@,
        ContentView::CommandUndo { tx_id } => "│   tx_id: "@ + decimal(tx_id as nat) + "\n"@,
        _ => Seq::empty(),
    }
}

/// The tag of the entry at `index`: `[SNAPSHOT]` where a snapshot was taken at that index.
pub open spec fn tag_spec(snapshot_indexes: Seq<u64>, index: u64) -> Seq<char> {
    if snapshot_indexes.contains(index) {
        "[SNAPSHOT]"@
    } else {
        Seq::empty()
    }
}

/// An entry is tagged `[SNAPSHOT]` exactly when some snapshot, any of them, was taken at its
/// index; otherwise it carries no tag.
pub proof fn lemma_snapshot_tag(snapshot_indexes: Seq<u64>, index: u64)
    ensures
        (exists|j: int| 0 <= j < snapshot_indexes.len() && #[trigger] snapshot_indexes[j] == index)
            ==> tag_spec(snapshot_indexes, index) == "[SNAPSHOT]"@,
        !(exists|j: int| 0 <= j < snapshot_indexes.len() && #[trigger] snapshot_indexes[j] == index)
            ==> tag_spec(snapshot_indexes, index) == Seq::<char>::empty(),
{
}

/// The block of an entry depends on the snapshots only through whether one was taken at the
/// entry's index: it is the block written with that one snapshot alone, or with none.
pub proof fn lemma_entry_block_snapshot_tag(
    prev: Option<u64>,
    index: u64,
    e: EntryView,
    snapshot_indexes: Seq<u64>,
    compact: bool,
)
    ensures
        (exists|j: int| 0 <= j < snapshot_indexes.len() && #[trigger] snapshot_indexes[j] == index)
            ==> entry_text(prev, index, e, snapshot_indexes, compact) == entry_text(prev, index, e, seq![index], compact),
        !(exists|j: int| 0 <= j < snapshot_indexes.len() && #[trigger] snapshot_indexes[j] == index)
            ==> entry_text(prev, index, e, snapshot_indexes, compact) == entry_text(prev, index, e, Seq::empty(), compact),
{
    lemma_snapshot_tag(snapshot_indexes, index);
    lemma_snapshot_tag(seq![index], index);
    lemma_snapshot_tag(Seq::empty(), index);
    assert(seq![index][0] == index);
}

/// The block of one entry, after the entry shown before it, of term `prev` if any.
pub open spec fn entry_text(
    prev: Option<u64>,
    index: u64,
    e: EntryView,
    snapshot_indexes: Seq<u64>,
    compact: bool,
) -> Seq<char> {
    term_text(prev, e.0) + header_text(index, e.1, tag_spec(snapshot_indexes, index)) + if compact {
        Seq::empty()
    } else {
        content_text(e.1)
    }
}

/// The term of the last entry of `items`, else `prev`.
pub open spec fn last_term(items: Seq<(u64, EntryView)>, prev: Option<u64>) -> Option<u64> {
    if items.len() == 0 {
        prev
    } else {
        Some(items.last().1.0)
    }
}

/// The blocks of entries shown in the order of `items`, each an index and an entry, after an
/// entry of term `prev` if any.
pub open spec fn entries_text(
    items: Seq<(u64, EntryView)>,
    prev: Option<u64>,
    snapshot_indexes: Seq<u64>,
    compact: bool,
) -> Seq<char>
    decreases items.len(),
{
    if items.len() == 0 {
        Seq::empty()
    } else {
        entries_text(items.drop_last(), prev, snapshot_indexes, compact) + entry_text(
            last_term(items.drop_last(), prev),
            items.last().0,
            items.last().1,
            snapshot_indexes,
            compact,
        )
    }
}

/// The entries of the log, newest first, with their indexes: the last of `entries` has index
/// `last_index`, the one before it `last_index - 1`, and so on.
pub open spec fn newest_first(entries: Seq<EntryView>, last_index: u64) -> Seq<(u64, EntryView)> {
    Seq::new(
        entries.len(),
        |k: int| ((last_index - k) as u64, entries[entries.len() - 1 - k]),
    )
}

/// Writes the log as text, with the state it keeps between entries.
#[derive(Clone, Copy, Debug, PartialEq, Eq)]
pub struct LogWriter {
    pub compact: bool,
    /// The term of the entry written last, if any.
    pub prev_term: Option<u64>,
}

fn push_role_debug(out: &mut String, role: RaftRole)
    ensures
        final(out)@ == old(out)@ + role_debug_spec(role),
{
    match role {
        RaftRole::Standby => push_str(out, "Standby"),
        RaftRole::Voter => push_str(out, "Voter"),
        RaftRole::Spare => push_str(out, "Spare"),
    }
}

fn push_servers(out: &mut String, servers: &Vec<RaftServer>)
    ensures
        final(out)@ == old(out)@ + servers_text(servers_view(servers@)),
{
    let ghost sv = servers_view(servers@);
    let mut k: usize = 0;
    while k < servers.len()
        invariant
            k <= servers.len(),
            sv == servers_view(servers@),
            out@ == old(out)@ + servers_text(sv.take(k as int)),
        decreases servers.len() - k,
    {
        let s = &servers[k];
        push_str(out, "│     ");
        push_decimal(out, s.id);
        push_str(out, ":\n│       address: ");
        push_str(out, s.address.as_str());
        push_str(out, "\n│       role: ");
        push_role_debug(out, s.role);
        push_str(out, "\n");
        proof {
            assert(sv.take(k + 1).drop_last() =~= sv.take(k as int));
            assert(sv.take(k + 1).last() == s@);
        }
        k += 1;
        assert(out@ =~= old(out)@ + servers_text(sv.take(k as int)));
    }
    assert(sv.take(k as int) =~= sv);
}

fn push_pages(out: &mut String, frames: &Vec<DqliteFrame>)
    ensures
        final(out)@ == old(out)@ + pages_text(frames_view(frames@)),
{
    let ghost fv = frames_view(frames@);
    let mut k: usize = 0;
    while k < frames.len()
        invariant
            k <= frames.len(),
            fv == frames_view(frames@),
            out@ == old(out)@ + pages_text(fv.take(k as int)),
        decreases frames.len() - k,
    {
        proof {
            assert(fv.take(k + 1).drop_last() =~= fv.take(k as int));
            assert(fv.take(k + 1).last() == frames@[k as int]@);
        }
        if k > 0 {
            push_str(out, ", ");
        } else {
            assert(fv.take(1) =~= seq![fv[0]]);
        }
        push_decimal(out, frames[k].page_number);
        k += 1;
        assert(out@ =~= old(out)@ + pages_text(fv.take(k as int)));
    }
    assert(fv.take(k as int) =~= fv);
}

/// Whether `index` is one of `v`.
fn contains_index(v: &[u64], index: u64) -> (r: bool)
    ensures
        r == v@.contains(index),
{
    let mut k: usize = 0;
    while k < v.len()
        invariant
            k <= v.len(),
            forall|j: int| 0 <= j < k ==> v@[j] != index,
        decreases v.len() - k,
    {
        if v[k] == index {
            assert(v@[k as int] == index);
            return true;
        }
        k += 1;
    }
    false
}

impl LogWriter {
    /// A writer that has written nothing yet.
    pub fn new(compact: bool) -> (r: LogWriter)
        ensures
            r.compact == compact,
            r.prev_term is None,
    {
        LogWriter { compact, prev_term: None }
    }

    /// Writes the line that opens the term `term`, where the term changes.
    pub fn write_term(&mut self, term: u64, out: &mut String)
        ensures
            final(out)@ == old(out)@ + term_text(old(self).prev_term, term),
            final(self).prev_term == Some(term),
            final(self).compact == old(self).compact,
    {
        let changed = match self.prev_term {
            Some(t) => t != term,
            None => true,
        };
        if changed {
            if self.prev_term.is_none() {
                push_str(out, "╭");
            } else {
                push_str(out, "├");
            }
            push_str(out, " TERM ");
            push_decimal(out, term);
            push_str(out, "\n");
        }
        self.prev_term = Some(term);
    }

    /// Writes the line that names the entry at `index`.
    pub fn write_entry_header(&self, index: u64, entry: &DqliteLogEntry, tag: &str, out: &mut String)
        ensures
            final(out)@ == old(out)@ + header_text(index, entry.content@, tag@),
    {
        push_str(out, "│ ");
        push_decimal(out, index);
        push_str(out, " ");
        match &entry.content {
            DqliteLogEntryContent::Barrier => {
                push_str(out, "BARRIER ");
            },
            DqliteLogEntryContent::Change(_) => {
                push_str(out, "CONFIG ");
            },
            DqliteLogEntryContent::CommandOpen { filename } => {
                push_str(out, "OPEN ");
                push_str(out, filename.as_str());
                push_str(out, " ");
            },
            DqliteLogEntryContent::CommandFrames { filename, is_commit, .. } => {
                if *is_commit {
                    push_str(out, "COMMIT");
                } else {
                    push_str(out, "FRAMES");
                }
                push_str(out, " ");
                push_str(out, filename.as_str());
                push_str(out, " ");
            },
            DqliteLogEntryContent::CommandUndo { .. } => {
                push_str(out, "ROLLBACK ");
            },
            DqliteLogEntryContent::CommandCheckpoint { filename } => {
                push_str(out, "CHECKPOINT ");
                push_str(out, filename.as_str());
                push_str(out, " ");
            },
        }
        push_str(out, tag);
        push_str(out, "\n");
    }

    /// Writes the lines that detail an entry.
    pub fn write_entry_content(&self, content: &DqliteLogEntryContent, out: &mut String)
        ensures
            final(out)@ == old(out)@ + content_text(content@),
    {
        match content {
            DqliteLogEntryContent::Change(config) => {
                push_str(out, "│   servers:\n");
                push_servers(out, &config.servers);
            },
            DqliteLogEntryContent::CommandFrames { tx_id, truncate, frames, .. } => {
                push_str(out, "│   tx_id: ");
                push_decimal(out, *tx_id);
                push_str(out, "\n│   truncate: ");
                push_decimal(out, *truncate as u64);
                push_str(out, "\n│   pages: ");
                push_pages(out, frames);
                push_str(out, "\n");
            },
            DqliteLogEntryContent::CommandUndo { tx_id } => {
                push_str(out, "│   tx_id: ");
                push_decimal(out, *tx_id);
                push_str(out, "\n");
            },
            _ => {},
        }
    }

    /// Writes the block of the entry at `index`.
    pub fn write_entry(&mut self, snapshot_indexes: &[u64], index: u64, entry: &DqliteLogEntry, out: &mut String)
        ensures
            final(out)@ == old(out)@ + entry_text(
                old(self).prev_term,
                index,
                entry@,
                snapshot_indexes@,
                old(self).compact,
            ),
            final(self).prev_term == Some(entry.term),
            final(self).compact == old(self).compact,
            (exists|j: int| 0 <= j < snapshot_indexes@.len() && #[trigger] snapshot_indexes@[j] == index)
                ==> final(out)@ == old(out)@ + entry_text(old(self).prev_term, index, entry@, seq![index], old(self).compact),
            !(exists|j: int| 0 <= j < snapshot_indexes@.len() && #[trigger] snapshot_indexes@[j] == index)
                ==> final(out)@ == old(out)@ + entry_text(old(self).prev_term, index, entry@, Seq::empty(), old(self).compact),
    {
        proof {
            lemma_entry_block_snapshot_tag(old(self).prev_term, index, entry@, snapshot_indexes@, old(self).compact);
        }
        let ghost before = out@;
        self.write_term(entry.term, out);
        let tag = if contains_index(snapshot_indexes, index) {
            "[SNAPSHOT]"
        } else {
            ""
        };
        proof {
            reveal_strlit("");
        }
        self.write_entry_header(index, entry, tag, out);
        if !self.compact {
            self.write_entry_content(&entry.content, out);
        }
        assert(out@ =~= before + entry_text(
            old(self).prev_term,
            index,
            entry@,
            snapshot_indexes@,
            old(self).compact,
        ));
    }

    /// Writes the entries of the log, newest first; the last of `entries` has index
    /// `last_index`. Writes `(no entries)` where there are none.
    pub fn write_log(&mut self, entries: &Vec<DqliteLogEntry>, last_index: u64, snapshot_indexes: &[u64], out: &mut String)
        requires
            entries.len() <= last_index + 1,
        ensures
            entries.len() == 0 ==> final(out)@ == old(out)@ + "(no entries)\n"@,
            entries.len() > 0 ==> final(out)@ == old(out)@ + entries_text(
                newest_first(log_entries_view(entries@), last_index),
                old(self).prev_term,
                snapshot_indexes@,
                old(self).compact,
            ),
    {
        let ghost items = newest_first(log_entries_view(entries@), last_index);
        let ghost prev0 = self.prev_term;
        let n = entries.len();
        let mut k: usize = 0;
        while k < n
            invariant
                n == entries.len(),
                k <= n,
                n <= last_index + 1,
                items == newest_first(log_entries_view(entries@), last_index),
                self.compact == old(self).compact,
                self.prev_term == last_term(items.take(k as int), prev0),
                out@ == old(out)@ + entries_text(items.take(k as int), prev0, snapshot_indexes@, old(self).compact),
            decreases n - k,
        {
            let index = last_index - k as u64;
            let entry = &entries[n - 1 - k];
            proof {
                assert(items.take(k + 1).drop_last() =~= items.take(k as int));
                assert(items.take(k + 1).last() == items[k as int]);
                assert(items[k as int] == (index, entry@));
            }
            self.write_entry(snapshot_indexes, index, entry, out);
            k += 1;
            assert(out@ =~= old(out)@ + entries_text(items.take(k as int), prev0, snapshot_indexes@, old(self).compact));
        }
        assert(items.take(n as int) =~= items);
        if n == 0 {
            push_str(out, "(no entries)\n");
        }
    }
}

/// The number of entries of the segments `from..`, each holding `counts[i]`.
pub open spec fn count_from(counts: Seq<int>, from: int) -> int
    decreases counts.len() - from,
{
    if from < 0 || from >= counts.len() {
        0
    } else {
        counts[from] + count_from(counts, from + 1)
    }
}

/// The number of entries of each segment.
pub open spec fn counts_of(entries: Seq<Seq<DqliteLogEntry>>) -> Seq<int> {
    entries.map_values(|e: Seq<DqliteLogEntry>| e.len() as int)
}

/// All entries of the segments, in log order.
pub open spec fn flatten_entries(entries: Seq<Seq<DqliteLogEntry>>) -> Seq<DqliteLogEntry>
    decreases entries.len(),
{
    if entries.len() == 0 {
        Seq::empty()
    } else {
        flatten_entries(entries.drop_last()) + entries.last()
    }
}

/// The index of the entry just before the open segments: the end of the last closed segment,
/// else the index before the first index of the directory, so that the log's first entry has
/// the first index.
pub open spec fn closed_end_spec(segments: Seq<DqliteSegment>, num_closed: nat, first_index: u64) -> int {
    if num_closed == 0 || num_closed > segments.len() {
        first_index - 1
    } else {
        match segments[num_closed - 1] {
            DqliteSegment::Closed { end_index, .. } => end_index as int,
            DqliteSegment::Open { .. } => first_index - 1,
        }
    }
}

/// The index of the last entry of the log: the index the open segments follow, plus their
/// entries.
pub open spec fn last_index_spec(dir: DqliteDir, entries: Seq<Seq<DqliteLogEntry>>) -> int {
    closed_end_spec(dir.spec_segments(), dir.spec_num_closed(), dir.spec_first_index()) + count_from(
        counts_of(entries),
        dir.spec_num_closed() as int,
    )
}

/// Whether the log can be numbered: the entries of each segment are given, the last index
/// fits in 64 bits and leaves room for every entry at zero or above, and each closed segment
/// ends where the entries after it say it should.
pub open spec fn log_numbering_valid(dir: DqliteDir, entries: Seq<Seq<DqliteLogEntry>>) -> bool {
    let last = last_index_spec(dir, entries);
    let counts = counts_of(entries);
    &&& entries.len() == dir.spec_segments().len()
    &&& dir.spec_num_closed() <= dir.spec_segments().len()
    &&& last <= u64::MAX
    &&& count_from(counts, 0) <= last + 1
    &&& forall|i: int|
        0 <= i < dir.spec_segments().len() ==> match #[trigger] dir.spec_segments()[i] {
            DqliteSegment::Closed { end_index, .. } => end_index == last - count_from(counts, i + 1),
            DqliteSegment::Open { .. } => true,
        }
}

proof fn lemma_count_from_nonneg(counts: Seq<int>, from: int)
    requires
        forall|i: int| 0 <= i < counts.len() ==> counts[i] >= 0,
    ensures
        count_from(counts, from) >= 0,
    decreases counts.len() - from,
{
    if from >= 0 && from < counts.len() {
        lemma_count_from_nonneg(counts, from + 1);
    }
}

/// Counting from `a` over `c` is counting over `c` without its last element, plus that element.
proof fn lemma_count_from_last(c: Seq<int>, a: int)
    requires
        0 <= a < c.len(),
    ensures
        count_from(c, a) == count_from(c.drop_last(), a) + c.last(),
    decreases c.len() - a,
{
    let d = c.drop_last();
    if a < c.len() - 1 {
        lemma_count_from_last(c, a + 1);
        assert(d[a] == c[a]);
        assert(count_from(d, a) == d[a] + count_from(d, a + 1));
    } else {
        assert(count_from(c, a + 1) == 0);
        assert(count_from(d, a) == 0);
    }
    assert(count_from(c, a) == c[a] + count_from(c, a + 1));
}

proof fn lemma_flatten_len(entries: Seq<Seq<DqliteLogEntry>>)
    ensures
        flatten_entries(entries).len() == count_from(counts_of(entries), 0),
    decreases entries.len(),
{
    if entries.len() > 0 {
        let init = entries.drop_last();
        lemma_flatten_len(init);
        lemma_count_from_last(counts_of(entries), 0);
        assert(counts_of(entries).drop_last() =~= counts_of(init));
    }
}

/// The indexes at which snapshots were taken, oldest first.
pub open spec fn snapshot_indexes_spec(s: Seq<DqliteSnapshot>) -> Seq<u64> {
    s.map_values(|x: DqliteSnapshot| x.index)
}

/// The indexes at which the snapshots were taken.
pub fn snapshot_indexes(snapshots: &Vec<DqliteSnapshot>) -> (r: Vec<u64>)
    ensures
        r@ == snapshot_indexes_spec(snapshots@),
{
    let mut r: Vec<u64> = Vec::new();
    let mut k: usize = 0;
    while k < snapshots.len()
        invariant
            k <= snapshots.len(),
            r@ == snapshot_indexes_spec(snapshots@.take(k as int)),
        decreases snapshots.len() - k,
    {
        r.push(snapshots[k].index);
        k += 1;
        assert(r@ =~= snapshot_indexes_spec(snapshots@.take(k as int)));
    }
    assert(snapshots@.take(k as int) =~= snapshots@);
    r
}

/// All entries of the segments, in log order.
pub fn flatten(entries: &Vec<Vec<DqliteLogEntry>>) -> (r: Vec<DqliteLogEntry>)
    ensures
        log_entries_view(r@) == log_entries_view(flatten_entries(entries_view(entries@))),
{
    let ghost ev = entries_view(entries@);
    let mut r: Vec<DqliteLogEntry> = Vec::new();
    let mut k: usize = 0;
    while k < entries.len()
        invariant
            k <= entries.len(),
            ev == entries_view(entries@),
            log_entries_view(r@) == log_entries_view(flatten_entries(ev.take(k as int))),
        decreases entries.len() - k,
    {
        let mut copy = duplicate_entries(entries[k].as_slice());
        let ghost before = r@;
        let ghost cp = copy@;
        r.append(&mut copy);
        proof {
            assert(ev.take(k + 1).drop_last() =~= ev.take(k as int));
            assert(ev.take(k + 1).last() == entries@[k as int]@);
            let f = flatten_entries(ev.take(k as int));
            assert(flatten_entries(ev.take(k + 1)) == f + ev[k as int]);
            assert(r@ =~= before + cp);
            assert(log_entries_view(before + cp) =~= log_entries_view(before) + log_entries_view(cp));
            assert(log_entries_view(f + ev[k as int]) =~= log_entries_view(f) + log_entries_view(ev[k as int]));
        }
        k += 1;
        assert(log_entries_view(r@) =~= log_entries_view(flatten_entries(ev.take(k as int))));
    }
    assert(ev.take(k as int) =~= ev);
    r
}

/// The index of the last entry of the log, where the log can be numbered and has such an
/// index; `None` where it cannot be numbered, or where it is empty and its first index is 0.
pub fn log_last_index(dir: &DqliteDir, segment_entries: &Vec<Vec<DqliteLogEntry>>) -> (r: Option<u64>)
    ensures
        match r {
            Some(l) => log_numbering_valid(*dir, entries_view(segment_entries@)) && l == last_index_spec(
                *dir,
                entries_view(segment_entries@),
            ),
            None => !log_numbering_valid(*dir, entries_view(segment_entries@)) || last_index_spec(
                *dir,
                entries_view(segment_entries@),
            ) < 0,
        },
{
    let ghost ev = entries_view(segment_entries@);
    let ghost counts = counts_of(ev);
    let segments = dir.segments();
    let n = segments.len();
    if segment_entries.len() != n {
        return None;
    }
    let num_closed = dir.num_closed_segments();
    if num_closed > n {
        return None;
    }
    // The index the open segments follow, plus one.
    let closed_next: u128 = if num_closed == 0 {
        dir.first_index() as u128
    } else {
        match &segments[num_closed - 1] {
            DqliteSegment::Closed { end_index, .. } => *end_index as u128 + 1,
            DqliteSegment::Open { .. } => dir.first_index() as u128,
        }
    };
    assert(closed_next - 1 == closed_end_spec(dir.spec_segments(), dir.spec_num_closed(), dir.spec_first_index()));
    // The entries of the open segments, counted from the back.
    let mut open_count: u128 = 0;
    let mut k: usize = n;
    while k > num_closed
        invariant
            num_closed <= k <= n,
            n == segment_entries.len(),
            ev == entries_view(segment_entries@),
            counts == counts_of(ev),
            counts.len() == n,
            open_count == count_from(counts, k as int),
            num_closed == dir.spec_num_closed(),
            closed_next - 1 == closed_end_spec(dir.spec_segments(), dir.spec_num_closed(), dir.spec_first_index()),
            closed_next <= u64::MAX + 1,
        decreases k,
    {
        let i = k - 1;
        let len = segment_entries[i].len() as u128;
        assert(counts[i as int] == len);
        assert(count_from(counts, i as int) == counts[i as int] + count_from(counts, i + 1));
        open_count = match open_count.checked_add(len) {
            Some(c) => c,
            None => {
                proof {
                    lemma_count_from_nonneg(counts, num_closed as int);
                    lemma_count_from_mono(counts, num_closed as int, i as int);
                }
                return None;
            },
        };
        k = i;
    }
    let next = match closed_next.checked_add(open_count) {
        Some(l) => l,
        None => {
            return None;
        },
    };
    if next == 0 || next - 1 > u64::MAX as u128 {
        return None;
    }
    let last = (next - 1) as u64;
    assert(last == last_index_spec(*dir, ev));
    // Every segment, from the back: closed ones must end where the entries after them say.
    let mut suffix: u128 = 0;
    let mut k: usize = n;
    while k > 0
        invariant
            k <= n,
            n == segment_entries.len(),
            segments@ == dir.spec_segments(),
            segments@.len() == n,
            ev == entries_view(segment_entries@),
            counts == counts_of(ev),
            counts.len() == n,
            last == last_index_spec(*dir, ev),
            suffix == count_from(counts, k as int),
            suffix <= last + 1,
            forall|j: int|
                k <= j < n ==> match #[trigger] segments@[j] {
                    DqliteSegment::Closed { end_index, .. } => end_index == last - count_from(counts, j + 1),
                    DqliteSegment::Open { .. } => true,
                },
        decreases k,
    {
        let i = k - 1;
        match &segments[i] {
            DqliteSegment::Closed { end_index, .. } => {
                assert(count_from(counts, i + 1) == suffix);
                if *end_index as u128 + suffix != last as u128 {
                    return None;
                }
            },
            DqliteSegment::Open { .. } => {},
        }
        let len = segment_entries[i].len() as u128;
        assert(counts[i as int] == len);
        assert(count_from(counts, i as int) == counts[i as int] + count_from(counts, i + 1));
        if len + suffix > last as u128 + 1 {
            proof {
                lemma_count_from_nonneg(counts, 0);
                lemma_count_from_mono(counts, 0, i as int);
            }
            return None;
        }
        suffix = suffix + len;
        k = i;
    }
    Some(last)
}

/// Counts only grow towards the front.
proof fn lemma_count_from_mono(counts: Seq<int>, a: int, b: int)
    requires
        0 <= a <= b,
        forall|i: int| 0 <= i < counts.len() ==> counts[i] >= 0,
    ensures
        count_from(counts, a) >= count_from(counts, b),
    decreases b - a,
{
    if a < b {
        lemma_count_from_mono(counts, a + 1, b);
        lemma_count_from_nonneg(counts, a + 1);
        if a < counts.len() {
            assert(count_from(counts, a) == counts[a] + count_from(counts, a + 1));
        }
    }
}

impl LogWriter {
    /// Writes the entries of all segments of `dir`, `segment_entries[i]` being those of its
    /// segment `i`, newest first, numbered so that the last entry has the log's last index.
    pub fn write_segments(&mut self, dir: &DqliteDir, segment_entries: &Vec<Vec<DqliteLogEntry>>, out: &mut String)
        requires
            log_numbering_valid(*dir, entries_view(segment_entries@)),
        ensures
            flatten_entries(entries_view(segment_entries@)).len() == 0 ==> final(out)@ == old(out)@ + "(no entries)\n"@,
            flatten_entries(entries_view(segment_entries@)).len() > 0 ==> final(out)@ == old(out)@ + entries_text(
                newest_first(
                    log_entries_view(flatten_entries(entries_view(segment_entries@))),
                    last_index_spec(*dir, entries_view(segment_entries@)) as u64,
                ),
                old(self).prev_term,
                snapshot_indexes_spec(dir.spec_snapshots()),
                old(self).compact,
            ),
    {
        proof {
            lemma_flatten_len(entries_view(segment_entries@));
        }
        // Only an empty log can have no last index.
        let last = match log_last_index(dir, segment_entries) {
            Some(l) => l,
            None => 0,
        };
        let all = flatten(segment_entries);
        proof {
            assert(log_entries_view(all@).len() == all@.len());
        }
        let indexes = snapshot_indexes(dir.snapshots());
        self.write_log(&all, last, indexes.as_slice(), out);
    }
}


/// The log is numbered in order, one index per entry: entry `k` of all the segments' entries,
/// counted from 0 in log order, is written with index `last - N + 1 + k`, `N` being the number
/// of entries; where there is no closed segment, that is the directory's first index plus `k`.
pub proof fn lemma_log_numbered_in_order(dir: DqliteDir, entries: Seq<Seq<DqliteLogEntry>>)
    requires
        log_numbering_valid(dir, entries),
    ensures
        forall|k: int|
            0 <= k < flatten_entries(entries).len() ==> newest_first(
                log_entries_view(flatten_entries(entries)),
                last_index_spec(dir, entries) as u64,
            )[flatten_entries(entries).len() - 1 - k] == (
                (last_index_spec(dir, entries) - flatten_entries(entries).len() + 1 + k) as u64,
                #[trigger] log_entries_view(flatten_entries(entries))[k],
            ),
        dir.spec_num_closed() == 0 ==> forall|k: int|
            0 <= k < flatten_entries(entries).len() ==> #[trigger] newest_first(
                log_entries_view(flatten_entries(entries)),
                last_index_spec(dir, entries) as u64,
            )[flatten_entries(entries).len() - 1 - k].0 == dir.spec_first_index() + k,
{
    lemma_flatten_len(entries);
    let flat = log_entries_view(flatten_entries(entries));
    let n = flatten_entries(entries).len() as int;
    let last = last_index_spec(dir, entries);
    assert(flat.len() == n);
    assert forall|k: int| 0 <= k < n implies newest_first(flat, last as u64)[n - 1 - k] == (
        (last - n + 1 + k) as u64,
        #[trigger] flat[k],
    ) by {
        assert(n - 1 - (n - 1 - k) == k);
    }
    if dir.spec_num_closed() == 0 {
        assert(last == dir.spec_first_index() - 1 + n);
        assert forall|k: int| 0 <= k < n implies #[trigger] newest_first(flat, last as u64)[n - 1 - k].0
            == dir.spec_first_index() + k by {
            assert(n - 1 - (n - 1 - k) == k);
        }
    }
}

} // verus!
