//! The point-in-time view of the databases that the open shell queries: which log entries it
//! loads, how it numbers them, the index it may be moved to, and how it reads database files
//! back page by page.

use vstd::prelude::*;

use crate::bytes::{be_value, read_be};
use crate::dir::{DqliteDir, DqliteLogEntry, DqliteSegment, EntryView, entries_view, log_entries_view};
use crate::log::{counts_of, flatten_entries};
use crate::text::{decimal, push_decimal};

verus! {

/// The size of the header at the start of a database file.
pub const HEADER_SIZE: usize = 100;

/// The size of the header at the start of a write-ahead log.
pub const WAL_HEADER_SIZE: u64 = 32;

/// The size of the header of each frame of a write-ahead log.
pub const WAL_FRAME_HEADER_SIZE: u64 = 24;

/// Why the point-in-time view cannot do what is asked.
#[derive(Clone, Copy, Debug, PartialEq, Eq, Structural)]
pub enum PointInTimeError {
    /// There is no snapshot and the log does not start at index 1, so the state before the
    /// log is lost.
    CorruptedFolder,
    /// An index outside `first..=last`.
    InvalidIndex { index: u64, first: u64, last: u64 },
    /// A file whose length is not a whole number of pages or frames.
    ShortRead,
    /// A file that is not a main database, or a database without content at the index.
    CantOpen,
    /// A pragma the view does not answer.
    NotFound,
}

/// The size in bytes of a database, as its header says: the page size (big-endian, 16 bits at
/// offset 16) times the page count (big-endian, 32 bits at offset 28).
pub open spec fn database_size_spec(header: Seq<u8>) -> nat {
    be_value(header.subrange(16, 18)) * be_value(header.subrange(28, 32))
}

/// The size in bytes of a database, as its header says.
pub fn decode_database_size(header: &[u8]) -> (r: u64)
    requires
        header.len() >= HEADER_SIZE,
    ensures
        r == database_size_spec(header@),
{
    let page_size = read_be(header, 16, 2);
    let page_count = read_be(header, 28, 4);
    assert(page_size < 0x10000 && page_count < 0x1_0000_0000) by {
        crate::bytes::lemma_be_value_bound(header@.subrange(16, 18));
        crate::bytes::lemma_be_value_bound(header@.subrange(28, 32));
    }
    assert(page_size * page_count < 0x1_0000_0000_0000) by (nonlinear_arith)
        requires
            page_size < 0x10000,
            page_count < 0x1_0000_0000,
    ;
    page_size * page_count
}

/// The number, counted from 1, of the page that starts at `offset`.
pub open spec fn page_number_spec(offset: u64, page_size: u64) -> u32 {
    ((offset / page_size) as u32 + 1) as u32
}

/// The number of the page a read at `offset` asks for. A read asks for a whole page or for the
/// database header, at a page boundary.
pub fn page_number_for_read(offset: u64, page_size: u64, buf_len: usize) -> (r: u32)
    requires
        page_size > 0,
        offset % page_size == 0,
        buf_len == page_size || buf_len == HEADER_SIZE,
        ((offset / page_size) as u32) < u32::MAX,
    ensures
        r == page_number_spec(offset, page_size),
{
    let n = (offset / page_size) as u32;
    n + 1
}

/// The answer to a pragma on a database file: its last raft update, the raft index whose state
/// it shows, for `raft_last_update` without an argument; nothing else is answered.
pub fn pragma_answer(name: &str, arg: Option<&str>, raft_index: u64) -> (r: Result<String, PointInTimeError>)
    ensures
        (name@ == "raft_last_update"@ && arg is None) ==> (r matches Ok(s) && s@ == decimal(raft_index as nat)),
        !(name@ == "raft_last_update"@ && arg is None) ==> r == Err::<String, PointInTimeError>(
            PointInTimeError::NotFound,
        ),
{
    if crate::text::str_eq(name, "raft_last_update") && arg.is_none() {
        let mut s = String::new();
        push_decimal(&mut s, raft_index);
        Ok(s)
    } else {
        Err(PointInTimeError::NotFound)
    }
}

/// The range of indexes the view can show, and the one it shows.
#[derive(Clone, Copy, Debug, PartialEq, Eq)]
pub struct IndexRange {
    pub first: u64,
    pub last: u64,
    pub current: u64,
}

impl IndexRange {
    /// Moves the view to `index`, which must lie in `first..=last`.
    pub fn set_current_index(&mut self, index: u64) -> (r: Result<(), PointInTimeError>)
        ensures
            (old(self).first <= index <= old(self).last) ==> (r is Ok && *final(self) == (IndexRange {
                current: index,
                ..*old(self)
            })),
            !(old(self).first <= index <= old(self).last) ==> (r == Err::<(), PointInTimeError>(
                PointInTimeError::InvalidIndex { index, first: old(self).first, last: old(self).last },
            ) && *final(self) == *old(self)),
    {
        if index < self.first || index > self.last {
            return Err(PointInTimeError::InvalidIndex { index, first: self.first, last: self.last });
        }
        self.current = index;
        Ok(())
    }
}

/// The index the view starts from: that of the first snapshot, else 1 where the log starts at
/// index 1. Any other log starts with changes to a state that is lost.
pub open spec fn first_loaded_index_spec(dir: DqliteDir) -> Result<u64, PointInTimeError> {
    if dir.spec_snapshots().len() > 0 {
        Ok(dir.spec_snapshots()[0].index)
    } else if dir.spec_first_index() == 1 {
        Ok(1)
    } else {
        Err(PointInTimeError::CorruptedFolder)
    }
}

/// Where the view starts: at the index of the directory's first snapshot, the oldest, where
/// there is one, whatever the other snapshots; without snapshots at 1 where the log starts at
/// index 1, and nowhere (a corrupted folder) otherwise.
pub proof fn lemma_view_starts_at_first_snapshot(dir: DqliteDir)
    ensures
        dir.spec_snapshots().len() > 0 ==> first_loaded_index_spec(dir) == Ok::<u64, PointInTimeError>(
            dir.spec_snapshots()[0].index,
        ),
        dir.spec_snapshots().len() == 0 && dir.spec_first_index() == 1 ==> first_loaded_index_spec(dir)
            == Ok::<u64, PointInTimeError>(1),
        dir.spec_snapshots().len() == 0 && dir.spec_first_index() != 1 ==> first_loaded_index_spec(dir)
            == Err::<u64, PointInTimeError>(PointInTimeError::CorruptedFolder),
{
}

/// The index the view starts from.
pub fn first_loaded_index(dir: &DqliteDir) -> (r: Result<u64, PointInTimeError>)
    ensures
        r == first_loaded_index_spec(*dir),
        dir.spec_snapshots().len() > 0 ==> r == Ok::<u64, PointInTimeError>(dir.spec_snapshots()[0].index),
        dir.spec_snapshots().len() == 0 && dir.spec_first_index() == 1 ==> r == Ok::<u64, PointInTimeError>(1),
        dir.spec_snapshots().len() == 0 && dir.spec_first_index() != 1 ==> r == Err::<u64, PointInTimeError>(
            PointInTimeError::CorruptedFolder,
        ),
{
    proof {
        lemma_view_starts_at_first_snapshot(*dir);
    }
    let snapshots = dir.snapshots();
    if snapshots.len() > 0 {
        Ok(snapshots[0].index)
    } else if dir.first_index() == 1 {
        Ok(1)
    } else {
        Err(PointInTimeError::CorruptedFolder)
    }
}

/// Whether a closed segment lies wholly at or before `start`, so that none of its entries is
/// loaded.
pub open spec fn segment_skipped(seg: DqliteSegment, start: u64) -> bool {
    seg matches DqliteSegment::Closed { end_index, .. } && end_index <= start
}

/// The index of the first entry of segment `k`, counting from `first`: a skipped closed
/// segment moves the count to the entry after its end; any other segment moves it past its
/// entries.
pub open spec fn index_before(segs: Seq<DqliteSegment>, counts: Seq<int>, first: u64, start: u64, k: int) -> int
    decreases k,
{
    if k <= 0 {
        first as int
    } else {
        let prev = index_before(segs, counts, first, start, k - 1);
        match segs[k - 1] {
            DqliteSegment::Closed { end_index, .. } => if end_index <= start {
                end_index + 1
            } else {
                prev + counts[k - 1]
            },
            DqliteSegment::Open { .. } => prev + counts[k - 1],
        }
    }
}

/// How many of `len` entries numbered from `base` are at or before `start`.
pub open spec fn skipped_count(base: int, start: int, len: int) -> int {
    if start - base + 1 <= 0 {
        0
    } else if start - base + 1 > len {
        len
    } else {
        start - base + 1
    }
}

/// The entries of one segment that are loaded, with their indexes: those after `start`.
pub open spec fn kept_in_segment(seg: DqliteSegment, entries: Seq<EntryView>, base: int, start: u64) -> Seq<
    (int, EntryView),
> {
    if segment_skipped(seg, start) {
        Seq::empty()
    } else {
        let s = skipped_count(base, start as int, entries.len() as int);
        Seq::new((entries.len() - s) as nat, |t: int| (base + s + t, entries[s + t]))
    }
}

/// The entries of the first `k` segments that are loaded, with their indexes, in log order.
pub open spec fn kept_entries(
    segs: Seq<DqliteSegment>,
    entries: Seq<Seq<DqliteLogEntry>>,
    first: u64,
    start: u64,
    k: int,
) -> Seq<(int, EntryView)>
    decreases k,
{
    if k <= 0 {
        Seq::empty()
    } else {
        kept_entries(segs, entries, first, start, k - 1) + kept_in_segment(
            segs[k - 1],
            log_entries_view(entries[k - 1]),
            index_before(segs, counts_of(entries), first, start, k - 1),
            start,
        )
    }
}

/// Whether the entries of `dir` can be numbered from its first index in 64 bits.
pub open spec fn numbering_fits(dir: DqliteDir, entries: Seq<Seq<DqliteLogEntry>>, start: u64) -> bool {
    &&& entries.len() == dir.spec_segments().len()
    &&& forall|k: int|
        0 <= k <= entries.len() ==> #[trigger] index_before(
            dir.spec_segments(),
            counts_of(entries),
            dir.spec_first_index(),
            start,
            k,
        ) <= u64::MAX
}

/// The plain values of numbered entries.
pub open spec fn numbered_view(v: Seq<(u64, DqliteLogEntry)>) -> Seq<(int, EntryView)> {
    v.map_values(|p: (u64, DqliteLogEntry)| (p.0 as int, p.1@))
}

/// The entries of the log after `start`, each with its index, in log order: what the view
/// loads on top of the state at `start`. `segment_entries[i]` holds the entries of segment
/// `i`; those of skipped closed segments are not read.
pub fn entries_after(dir: &DqliteDir, segment_entries: &Vec<Vec<DqliteLogEntry>>, start: u64) -> (r: Vec<
    (u64, DqliteLogEntry),
>)
    requires
        numbering_fits(*dir, entries_view(segment_entries@), start),
    ensures
        numbered_view(r@) == kept_entries(
            dir.spec_segments(),
            entries_view(segment_entries@),
            dir.spec_first_index(),
            start,
            segment_entries@.len() as int,
        ),
{
    let ghost ev = entries_view(segment_entries@);
    let ghost segs = dir.spec_segments();
    let ghost counts = counts_of(ev);
    let ghost first = dir.spec_first_index();
    let segments = dir.segments();
    let n = segments.len();
    let mut r: Vec<(u64, DqliteLogEntry)> = Vec::new();
    let mut index: u64 = dir.first_index();
    let mut k: usize = 0;
    while k < n
        invariant
            k <= n,
            n == segments@.len(),
            segments@ == segs,
            segment_entries@.len() == n,
            ev == entries_view(segment_entries@),
            counts == counts_of(ev),
            first == dir.spec_first_index(),
            numbering_fits(*dir, ev, start),
            segs == dir.spec_segments(),
            index == index_before(segs, counts, first, start, k as int),
            numbered_view(r@) == kept_entries(segs, ev, first, start, k as int),
        decreases n - k,
    {
        assert(index_before(segs, counts, first, start, k + 1) <= u64::MAX);
        let seg_entries = &segment_entries[k];
        assert(counts[k as int] == seg_entries@.len());
        let skipped = match &segments[k] {
            DqliteSegment::Closed { end_index, .. } => *end_index <= start,
            DqliteSegment::Open { .. } => false,
        };
        if skipped {
            match &segments[k] {
                DqliteSegment::Closed { end_index, .. } => {
                    index = *end_index + 1;
                },
                DqliteSegment::Open { .. } => {},
            }
            proof {
                assert(kept_entries(segs, ev, first, start, k + 1) =~= kept_entries(segs, ev, first, start, k as int));
            }
        } else {
            let ghost base = index as int;
            let ghost kept_before = numbered_view(r@);
            let ghost le = log_entries_view(seg_entries@);
            let len = seg_entries.len();
            let mut j: usize = 0;
            while j < len
                invariant
                    j <= len,
                    len == seg_entries@.len(),
                    le == log_entries_view(seg_entries@),
                    index as int == base,
                    base + len <= u64::MAX,
                    numbered_view(r@) == kept_before + Seq::new(
                        (j - skipped_count(base, start as int, j as int)) as nat,
                        |t: int| (base + skipped_count(base, start as int, j as int) + t, le[skipped_count(base, start as int, j as int) + t]),
                    ),
                decreases len - j,
            {
                let entry_index = index + j as u64;
                let ghost s_old = skipped_count(base, start as int, j as int);
                let ghost s_new = skipped_count(base, start as int, j + 1);
                if entry_index > start {
                    let e = seg_entries[j].duplicate();
                    let ghost before = r@;
                    r.push((entry_index, e));
                    proof {
                        assert(s_new == s_old);
                        assert(numbered_view(r@) =~= numbered_view(before).push((entry_index as int, e@)));
                        assert(numbered_view(r@) =~= kept_before + Seq::new(
                            (j + 1 - s_new) as nat,
                            |t: int| (base + s_new + t, le[s_new + t]),
                        ));
                    }
                } else {
                    proof {
                        assert(s_new == j + 1);
                        assert(Seq::new(
                            (j + 1 - s_new) as nat,
                            |t: int| (base + s_new + t, le[s_new + t]),
                        ) =~= Seq::<(int, EntryView)>::empty());
                        assert(Seq::new(
                            (j - s_old) as nat,
                            |t: int| (base + s_old + t, le[s_old + t]),
                        ) =~= Seq::<(int, EntryView)>::empty());
                    }
                }
                j += 1;
            }
            index = index + len as u64;
            proof {
                assert(skipped_count(base, start as int, len as int) == skipped_count(base, start as int, le.len() as int));
                assert(kept_entries(segs, ev, first, start, k + 1) =~= kept_before + kept_in_segment(segs[k as int], le, base, start));
            }
        }
        k += 1;
    }
    r
}

/// The number of entries in the first `k` segments.
pub open spec fn prefix_len(entries: Seq<Seq<DqliteLogEntry>>, k: int) -> int {
    flatten_entries(entries.take(k)).len() as int
}

/// Whether the log is numbered contiguously from `first`: every closed segment ends at the
/// index its last entry has when all entries are numbered from `first` in log order.
pub open spec fn contiguous_from(segs: Seq<DqliteSegment>, entries: Seq<Seq<DqliteLogEntry>>, first: u64) -> bool {
    forall|i: int|
        0 <= i < segs.len() ==> match #[trigger] segs[i] {
            DqliteSegment::Closed { end_index, .. } => end_index == first + prefix_len(entries, i + 1) - 1,
            DqliteSegment::Open { .. } => true,
        }
}

/// All entries of the log in log order, numbered from `first`, keeping those whose index is
/// above `start`.
pub open spec fn numbered_after(entries: Seq<Seq<DqliteLogEntry>>, first: int, start: int) -> Seq<(int, EntryView)> {
    let f = log_entries_view(flatten_entries(entries));
    let m = skipped_count(first, start, f.len() as int);
    Seq::new((f.len() - m) as nat, |t: int| (first + m + t, f[m + t]))
}

proof fn lemma_flatten_take_step(entries: Seq<Seq<DqliteLogEntry>>, k: int)
    requires
        0 <= k < entries.len(),
    ensures
        flatten_entries(entries.take(k + 1)) == flatten_entries(entries.take(k)) + entries[k],
{
    assert(entries.take(k + 1).drop_last() =~= entries.take(k));
    assert(entries.take(k + 1).last() == entries[k]);
}

proof fn lemma_kept_prefix(segs: Seq<DqliteSegment>, entries: Seq<Seq<DqliteLogEntry>>, first: u64, start: u64, k: int)
    requires
        entries.len() == segs.len(),
        0 <= k <= entries.len(),
        contiguous_from(segs, entries, first),
    ensures
        index_before(segs, counts_of(entries), first, start, k) == first + prefix_len(entries, k),
        kept_entries(segs, entries, first, start, k) == numbered_after(entries.take(k), first as int, start as int),
    decreases k,
{
    if k == 0 {
        assert(entries.take(0) =~= Seq::<Seq<DqliteLogEntry>>::empty());
        assert(numbered_after(entries.take(0), first as int, start as int) =~= Seq::<(int, EntryView)>::empty());
    } else {
        let j = k - 1;
        lemma_kept_prefix(segs, entries, first, start, j);
        lemma_flatten_take_step(entries, j);
        let fj = log_entries_view(flatten_entries(entries.take(j)));
        let e = log_entries_view(entries[j]);
        let fk = log_entries_view(flatten_entries(entries.take(k)));
        assert(fk =~= fj + e);
        let pj = fj.len() as int;
        let len = e.len() as int;
        assert(counts_of(entries)[j] == len);
        assert(prefix_len(entries, j) == pj);
        assert(prefix_len(entries, k) == pj + len);
        let base = first + pj;
        let mj = skipped_count(first as int, start as int, pj);
        let mk = skipped_count(first as int, start as int, pj + len);
        let kept_j = kept_entries(segs, entries, first, start, j);
        let seg = segs[j];
        if segment_skipped(seg, start) {
            match seg {
                DqliteSegment::Closed { end_index, .. } => {
                    assert(end_index == first + prefix_len(entries, j + 1) - 1);
                },
                DqliteSegment::Open { .. } => {},
            }
            assert(mj == pj);
            assert(mk == pj + len);
            assert(kept_entries(segs, entries, first, start, k) =~= kept_j);
            assert(numbered_after(entries.take(k), first as int, start as int) =~= Seq::<(int, EntryView)>::empty());
            assert(numbered_after(entries.take(j), first as int, start as int) =~= Seq::<(int, EntryView)>::empty());
        } else {
            let s = skipped_count(base, start as int, len);
            assert(kept_in_segment(seg, e, base, start) == Seq::new(
                (len - s) as nat,
                |t: int| (base + s + t, e[s + t]),
            ));
            if mj < pj {
                assert(s == 0);
                assert(mk == mj);
            } else {
                assert(mj == pj);
                assert(mk == pj + s);
                assert(kept_j =~= Seq::<(int, EntryView)>::empty());
            }
            assert(kept_entries(segs, entries, first, start, k) =~= numbered_after(
                entries.take(k),
                first as int,
                start as int,
            ));
        }
    }
}

/// What the view loads, where the log is numbered contiguously from the directory's first
/// index: exactly the entries whose index is above `start`, in log order, each numbered from
/// the first index.
pub proof fn lemma_loaded_entries_are_those_after_start(
    dir: DqliteDir,
    entries: Seq<Seq<DqliteLogEntry>>,
    start: u64,
)
    requires
        entries.len() == dir.spec_segments().len(),
        contiguous_from(dir.spec_segments(), entries, dir.spec_first_index()),
    ensures
        kept_entries(dir.spec_segments(), entries, dir.spec_first_index(), start, entries.len() as int)
            == numbered_after(entries, dir.spec_first_index() as int, start as int),
{
    lemma_kept_prefix(dir.spec_segments(), entries, dir.spec_first_index(), start, entries.len() as int);
    assert(entries.take(entries.len() as int) =~= entries);
}

/// What reading a file of `len` bytes as whole units of `unit` bytes, after a header of
/// `header` bytes, finds: the number of units, or a short read where the last is cut off.
/// An empty file holds nothing, and a file no longer than its header holds no unit.
pub open spec fn unit_count_spec(len: u64, header: u64, unit: u64) -> Result<u64, PointInTimeError> {
    if len <= header {
        Ok(0)
    } else if (len - header) % (unit as int) != 0 {
        Err(PointInTimeError::ShortRead)
    } else {
        Ok(((len - header) / (unit as int)) as u64)
    }
}

/// The number of pages of a database file of `len` bytes.
pub fn main_page_count(len: u64, page_size: u64) -> (r: Result<u64, PointInTimeError>)
    requires
        page_size > 0,
    ensures
        r == unit_count_spec(len, 0, page_size),
{
    if len == 0 {
        return Ok(0);
    }
    if len % page_size != 0 {
        return Err(PointInTimeError::ShortRead);
    }
    Ok(len / page_size)
}

/// The number of frames of a write-ahead log of `len` bytes: after its header, each frame is a
/// frame header and a page.
pub fn wal_frame_count(len: u64, page_size: u64) -> (r: Result<u64, PointInTimeError>)
    requires
        page_size > 0,
        page_size + WAL_FRAME_HEADER_SIZE <= u64::MAX,
    ensures
        r == unit_count_spec(len, WAL_HEADER_SIZE, (page_size + WAL_FRAME_HEADER_SIZE) as u64),
{
    if len <= WAL_HEADER_SIZE {
        return Ok(0);
    }
    let unit = page_size + WAL_FRAME_HEADER_SIZE;
    let rest = len - WAL_HEADER_SIZE;
    if rest % unit != 0 {
        return Err(PointInTimeError::ShortRead);
    }
    Ok(rest / unit)
}

/// The page a frame of a write-ahead log carries: the big-endian number at the start of its
/// header.
pub fn wal_frame_page_number(frame_header: &[u8]) -> (r: u32)
    requires
        frame_header.len() >= WAL_FRAME_HEADER_SIZE,
    ensures
        r == be_value(frame_header@.subrange(0, 4)),
{
    let v = read_be(frame_header, 0, 4);
    assert(v < 0x1_0000_0000) by {
        crate::bytes::lemma_be_value_bound(frame_header@.subrange(0, 4));
    }
    v as u32
}

/// Page `k`, counted from 0, of a database file: `page_size` bytes from `k * page_size` on.
pub open spec fn main_page_spec(data: Seq<u8>, page_size: nat, k: int) -> Seq<u8> {
    data.subrange(k * page_size, (k + 1) * page_size)
}

/// The pages of a database file, each with its number counted from 1. A file whose length is
/// not a whole number of pages is a short read.
pub fn main_pages(data: &[u8], page_size: usize) -> (r: Result<Vec<(u64, Vec<u8>)>, PointInTimeError>)
    requires
        page_size > 0,
    ensures
        match unit_count_spec(data@.len() as u64, 0, page_size as u64) {
            Err(e) => r == Err::<Vec<(u64, Vec<u8>)>, PointInTimeError>(e),
            Ok(n) => r matches Ok(v) && v@.len() == n && forall|k: int|
                0 <= k < n ==> (#[trigger] v@[k]).0 == k + 1 && v@[k].1@ == main_page_spec(
                    data@,
                    page_size as nat,
                    k,
                ),
        },
{
    let len = data.len() as u64;
    assert(data@.len() == data.len());
    let n = match main_page_count(len, page_size as u64) {
        Err(e) => return Err(e),
        Ok(n) => n,
    };
    let ps = page_size as u64;
    assert(n * ps == len) by (nonlinear_arith)
        requires
            ps > 0,
            len == 0 ==> n == 0,
            len > 0 ==> len % ps == 0 && n == len / ps,
    ;
    let mut pages: Vec<(u64, Vec<u8>)> = Vec::new();
    let mut off: usize = 0;
    let mut k: u64 = 0;
    while k < n
        invariant
            k <= n,
            ps == page_size,
            ps > 0,
            data@.len() <= usize::MAX,
            n * ps == data@.len(),
            off == k * ps,
            pages@.len() == k,
            forall|j: int|
                0 <= j < k ==> (#[trigger] pages@[j]).0 == j + 1 && pages@[j].1@ == main_page_spec(
                    data@,
                    page_size as nat,
                    j,
                ),
        decreases n - k,
    {
        assert(off + ps <= n * ps && off + ps == (k + 1) * ps) by (nonlinear_arith)
            requires
                off == k * ps,
                k + 1 <= n,
        ;
        let end = off + page_size;
        let page = vstd::slice::slice_to_vec(vstd::slice::slice_subrange(data, off, end));
        pages.push((k + 1, page));
        off = end;
        k = k + 1;
    }
    Ok(pages)
}

/// Where frame `k`, counted from 0, of a write-ahead log starts: after the log's header, each
/// frame is a frame header and a page.
pub open spec fn wal_frame_start(page_size: nat, k: int) -> int {
    WAL_HEADER_SIZE + k * (page_size + WAL_FRAME_HEADER_SIZE)
}

/// The page number that frame `k` of a write-ahead log carries.
pub open spec fn wal_frame_number_spec(data: Seq<u8>, page_size: nat, k: int) -> nat {
    let s = wal_frame_start(page_size, k);
    be_value(data.subrange(s, s + 4))
}

/// The page that frame `k` of a write-ahead log carries.
pub open spec fn wal_frame_page_spec(data: Seq<u8>, page_size: nat, k: int) -> Seq<u8> {
    let s = wal_frame_start(page_size, k) + WAL_FRAME_HEADER_SIZE;
    data.subrange(s, s + page_size)
}

/// The pages that the frames of a write-ahead log carry, in the log's order, each with the
/// page number of its frame. An empty log, or one no longer than its header, carries none; one
/// whose frames are not all whole is a short read.
pub fn wal_pages(data: &[u8], page_size: usize) -> (r: Result<Vec<(u64, Vec<u8>)>, PointInTimeError>)
    requires
        page_size > 0,
        page_size + WAL_FRAME_HEADER_SIZE <= u64::MAX,
    ensures
        match unit_count_spec(data@.len() as u64, WAL_HEADER_SIZE, (page_size + WAL_FRAME_HEADER_SIZE) as u64) {
            Err(e) => r == Err::<Vec<(u64, Vec<u8>)>, PointInTimeError>(e),
            Ok(n) => r matches Ok(v) && v@.len() == n && forall|k: int|
                0 <= k < n ==> (#[trigger] v@[k]).0 == wal_frame_number_spec(data@, page_size as nat, k)
                    && v@[k].1@ == wal_frame_page_spec(data@, page_size as nat, k),
        },
{
    let len = data.len() as u64;
    assert(data@.len() == data.len());
    let n = match wal_frame_count(len, page_size as u64) {
        Err(e) => return Err(e),
        Ok(n) => n,
    };
    let ps = page_size as u64;
    let unit = ps + WAL_FRAME_HEADER_SIZE;
    assert(n == 0 || WAL_HEADER_SIZE + n * unit == len) by (nonlinear_arith)
        requires
            unit > 0,
            len <= WAL_HEADER_SIZE ==> n == 0,
            len > WAL_HEADER_SIZE ==> (len - WAL_HEADER_SIZE) % (unit as int) == 0 && n == (len
                - WAL_HEADER_SIZE) / (unit as int),
    ;
    let mut pages: Vec<(u64, Vec<u8>)> = Vec::new();
    let mut off: usize = 32;
    let mut k: u64 = 0;
    while k < n
        invariant
            k <= n,
            ps == page_size,
            data@.len() <= usize::MAX,
            unit == ps + WAL_FRAME_HEADER_SIZE,
            n > 0 ==> WAL_HEADER_SIZE + n * unit == data@.len(),
            off == WAL_HEADER_SIZE + k * unit,
            pages@.len() == k,
            forall|j: int|
                0 <= j < k ==> (#[trigger] pages@[j]).0 == wal_frame_number_spec(data@, page_size as nat, j)
                    && pages@[j].1@ == wal_frame_page_spec(data@, page_size as nat, j),
        decreases n - k,
    {
        assert(off + unit <= WAL_HEADER_SIZE + n * unit && off + unit == WAL_HEADER_SIZE + (k + 1) * unit)
            by (nonlinear_arith)
            requires
                off == WAL_HEADER_SIZE + k * unit,
                k + 1 <= n,
        ;
        let head = vstd::slice::slice_subrange(data, off, off + 24);
        let number = wal_frame_page_number(head);
        assert(head@.subrange(0, 4) =~= data@.subrange(off as int, off + 4));
        let page = vstd::slice::slice_to_vec(vstd::slice::slice_subrange(data, off + 24, off + 24 + page_size));
        pages.push((number as u64, page));
        off = off + 24 + page_size;
        k = k + 1;
    }
    Ok(pages)
}

/// Where a database file can be opened at the view's index: a main database with content at
/// the index of its last change at or before the view's index (the view's first index where it
/// never changed since), and the index whose state it shows.
pub fn open_decision(
    is_main_db: bool,
    change_index: Option<u64>,
    first_index: u64,
    size_at_index: u64,
) -> (r: Result<u64, PointInTimeError>)
    ensures
        !is_main_db ==> r == Err::<u64, PointInTimeError>(PointInTimeError::CantOpen),
        (is_main_db && size_at_index == 0) ==> r == Err::<u64, PointInTimeError>(PointInTimeError::CantOpen),
        (is_main_db && size_at_index > 0) ==> r == Ok::<u64, PointInTimeError>(
            match change_index {
                Some(i) => i,
                None => first_index,
            },
        ),
{
    if !is_main_db {
        return Err(PointInTimeError::CantOpen);
    }
    let raft_index = match change_index {
        Some(i) => i,
        None => first_index,
    };
    if size_at_index == 0 {
        return Err(PointInTimeError::CantOpen);
    }
    Ok(raft_index)
}

} // verus!
