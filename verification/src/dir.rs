//! The raft log of a dqlite data directory: snapshots, segments and their entries.

use vstd::prelude::*;

use crate::bytes::le_value;
use crate::raft::{RaftConfiguration, ServerView};
use crate::text::{strings_view, decimal, push_decimal, push_str, push_zero_padded, zero_padded};
use crate::dqlite::{segment_from_filename_spec, RaftSegment};
use crate::log::flatten_entries;

verus! {

/// The raft entry type of client commands.
pub const RAFT_COMMAND: u16 = 1;

/// The raft entry type of barriers.
pub const RAFT_BARRIER: u16 = 2;

/// The raft entry type of configuration changes.
pub const RAFT_CHANGE: u16 = 3;

/// The disk format of segment files that raft writes.
pub const UV_DISK_FORMAT: u64 = 1;

/// A database page carried by a frames command.
#[derive(Clone, Debug, PartialEq, Eq)]
pub struct DqliteFrame {
    pub page_number: u64,
    pub data: Vec<u8>,
}

/// What a raft log entry of dqlite holds.
#[derive(Clone, Debug, PartialEq, Eq)]
pub enum DqliteLogEntryContent {
    Barrier,
    Change(RaftConfiguration),
    CommandOpen { filename: String },
    CommandFrames {
        filename: String,
        tx_id: u64,
        truncate: u32,
        is_commit: bool,
        frames: Vec<DqliteFrame>,
    },
    CommandUndo { tx_id: u64 },
    CommandCheckpoint { filename: String },
}

/// A raft log entry of dqlite.
#[derive(Clone, Debug, PartialEq, Eq)]
pub struct DqliteLogEntry {
    pub term: u64,
    pub content: DqliteLogEntryContent,
}

/// The plain values of a frame: page number and page content.
pub type FrameView = (u64, Seq<u8>);

/// The plain values of an entry's content.
pub enum ContentView {
    Barrier,
    Change(Seq<ServerView>),
    CommandOpen { filename: Seq<char> },
    CommandFrames {
        filename: Seq<char>,
        tx_id: u64,
        truncate: u32,
        is_commit: bool,
        frames: Seq<FrameView>,
    },
    CommandUndo { tx_id: u64 },
    CommandCheckpoint { filename: Seq<char> },
}

/// The plain values of an entry: term and content.
pub type EntryView = (u64, ContentView);

impl View for DqliteFrame {
    type V = FrameView;

    open spec fn view(&self) -> FrameView {
        (self.page_number, self.data@)
    }
}

pub open spec fn frames_view(v: Seq<DqliteFrame>) -> Seq<FrameView> {
    v.map_values(|f: DqliteFrame| f@)
}

impl View for DqliteLogEntryContent {
    type V = ContentView;

    open spec fn view(&self) -> ContentView {
        match self {
            DqliteLogEntryContent::Barrier => ContentView::Barrier,
            DqliteLogEntryContent::Change(c) => ContentView::Change(c@),
            DqliteLogEntryContent::CommandOpen { filename } => ContentView::CommandOpen {
                filename: filename@,
            },
            DqliteLogEntryContent::CommandFrames { filename, tx_id, truncate, is_commit, frames } =>
                ContentView::CommandFrames {
                filename: filename@,
                tx_id: *tx_id,
                truncate: *truncate,
                is_commit: *is_commit,
                frames: frames_view(frames@),
            },
            DqliteLogEntryContent::CommandUndo { tx_id } => ContentView::CommandUndo { tx_id: *tx_id },
            DqliteLogEntryContent::CommandCheckpoint { filename } => ContentView::CommandCheckpoint {
                filename: filename@,
            },
        }
    }
}

impl View for DqliteLogEntry {
    type V = EntryView;

    open spec fn view(&self) -> EntryView {
        (self.term, self.content@)
    }
}

pub open spec fn log_entries_view(v: Seq<DqliteLogEntry>) -> Seq<EntryView> {
    v.map_values(|e: DqliteLogEntry| e@)
}

/// A copy of a byte buffer.
pub fn copy_bytes(v: &Vec<u8>) -> (r: Vec<u8>)
    ensures
        r@ == v@,
{
    let mut r: Vec<u8> = Vec::new();
    let mut i: usize = 0;
    while i < v.len()
        invariant
            i <= v.len(),
            r@ == v@.take(i as int),
        decreases v.len() - i,
    {
        r.push(v[i]);
        i += 1;
        assert(r@ =~= v@.take(i as int));
    }
    assert(v@.take(v.len() as int) =~= v@);
    r
}

impl DqliteFrame {
    /// A frame with the same page number and content.
    pub fn duplicate(&self) -> (r: DqliteFrame)
        ensures
            r@ == self@,
    {
        DqliteFrame { page_number: self.page_number, data: copy_bytes(&self.data) }
    }
}

fn duplicate_frames(v: &Vec<DqliteFrame>) -> (r: Vec<DqliteFrame>)
    ensures
        frames_view(r@) == frames_view(v@),
{
    let mut r: Vec<DqliteFrame> = Vec::new();
    let mut i: usize = 0;
    while i < v.len()
        invariant
            i <= v.len(),
            r@.len() == i,
            frames_view(r@) == frames_view(v@).take(i as int),
        decreases v.len() - i,
    {
        let f = v[i].duplicate();
        let ghost prev = r@;
        r.push(f);
        proof {
            assert forall|j: int| 0 <= j < i + 1 implies #[trigger] frames_view(r@)[j] == frames_view(v@).take(i + 1)[j] by {
                assert(frames_view(r@)[j] == r@[j]@);
                assert(frames_view(v@)[j] == v@[j]@);
                if j < i {
                    assert(frames_view(prev)[j] == prev[j]@);
                }
            }
        }
        i += 1;
        assert(frames_view(r@) =~= frames_view(v@).take(i as int));
    }
    assert(frames_view(v@).take(v.len() as int) =~= frames_view(v@));
    r
}

impl DqliteLogEntry {
    /// An entry with the same term and content.
    pub fn duplicate(&self) -> (r: DqliteLogEntry)
        ensures
            r@ == self@,
    {
        let content = match &self.content {
            DqliteLogEntryContent::Barrier => DqliteLogEntryContent::Barrier,
            DqliteLogEntryContent::Change(c) => DqliteLogEntryContent::Change(c.duplicate()),
            DqliteLogEntryContent::CommandOpen { filename } => DqliteLogEntryContent::CommandOpen {
                filename: filename.clone(),
            },
            DqliteLogEntryContent::CommandFrames { filename, tx_id, truncate, is_commit, frames } =>
                DqliteLogEntryContent::CommandFrames {
                filename: filename.clone(),
                tx_id: *tx_id,
                truncate: *truncate,
                is_commit: *is_commit,
                frames: duplicate_frames(frames),
            },
            DqliteLogEntryContent::CommandUndo { tx_id } => DqliteLogEntryContent::CommandUndo {
                tx_id: *tx_id,
            },
            DqliteLogEntryContent::CommandCheckpoint { filename } =>
                DqliteLogEntryContent::CommandCheckpoint { filename: filename.clone() },
        };
        DqliteLogEntry { term: self.term, content }
    }
}

/// Copies of a list of entries.
pub fn duplicate_entries(v: &[DqliteLogEntry]) -> (r: Vec<DqliteLogEntry>)
    ensures
        log_entries_view(r@) == log_entries_view(v@),
{
    let mut r: Vec<DqliteLogEntry> = Vec::new();
    let mut i: usize = 0;
    while i < v.len()
        invariant
            i <= v.len(),
            r@.len() == i,
            log_entries_view(r@) == log_entries_view(v@).take(i as int),
        decreases v.len() - i,
    {
        let e = v[i].duplicate();
        let ghost prev = r@;
        r.push(e);
        proof {
            assert forall|j: int| 0 <= j < i + 1 implies #[trigger] log_entries_view(r@)[j] == log_entries_view(v@).take(i + 1)[j] by {
                assert(log_entries_view(r@)[j] == r@[j]@);
                assert(log_entries_view(v@)[j] == v@[j]@);
                if j < i {
                    assert(log_entries_view(prev)[j] == prev[j]@);
                }
            }
        }
        i += 1;
        assert(log_entries_view(r@) =~= log_entries_view(v@).take(i as int));
    }
    assert(log_entries_view(v@).take(v.len() as int) =~= log_entries_view(v@));
    r
}

/// The raft entry type under which a content is stored.
pub open spec fn entry_type_spec(c: DqliteLogEntryContent) -> u16 {
    match c {
        DqliteLogEntryContent::Barrier => RAFT_BARRIER,
        DqliteLogEntryContent::Change(_) => RAFT_CHANGE,
        _ => RAFT_COMMAND,
    }
}

impl DqliteLogEntry {
    /// The raft entry type under which the entry is stored.
    pub fn entry_type(&self) -> (r: u16)
        ensures
            r == entry_type_spec(self.content),
    {
        match &self.content {
            DqliteLogEntryContent::Barrier => RAFT_BARRIER,
            DqliteLogEntryContent::Change(_) => RAFT_CHANGE,
            DqliteLogEntryContent::CommandOpen { .. }
            | DqliteLogEntryContent::CommandFrames { .. }
            | DqliteLogEntryContent::CommandUndo { .. }
            | DqliteLogEntryContent::CommandCheckpoint { .. } => RAFT_COMMAND,
        }
    }
}

/// How the payload of an entry is to be decoded.
#[derive(Clone, Copy, Debug, PartialEq, Eq, Structural)]
pub enum EntryPayload {
    /// A barrier: nothing more to decode.
    Barrier,
    /// An encoded raft configuration.
    Configuration,
    /// An encoded dqlite command.
    Command,
}

/// Failures in reading segment files and their entries.
#[derive(Clone, Copy, Debug, PartialEq, Eq, Structural)]
pub enum SegmentError {
    InvalidSegmentFile,
    UnsupportedFormat,
    CorruptSegmentFile,
    InvalidBarrier,
    UnknownEntryType { entry_type: u16 },
}

/// The text of each failure in reading segment files.
pub open spec fn segment_error_message(e: SegmentError) -> Seq<char> {
    match e {
        SegmentError::InvalidSegmentFile => "invalid segment file"@,
        SegmentError::UnsupportedFormat => "unsupported segment file format"@,
        SegmentError::CorruptSegmentFile => "corrupt segment file"@,
        SegmentError::InvalidBarrier => "invalid barrier entry"@,
        SegmentError::UnknownEntryType { entry_type } => "unknown entry type: "@ + decimal(entry_type as nat),
    }
}

impl SegmentError {
    /// A human-readable description of the failure.
    pub fn message(&self) -> (r: String)
        ensures
            r@ == segment_error_message(*self),
    {
        let mut s = String::new();
        match self {
            SegmentError::InvalidSegmentFile => push_str(&mut s, "invalid segment file"),
            SegmentError::UnsupportedFormat => push_str(&mut s, "unsupported segment file format"),
            SegmentError::CorruptSegmentFile => push_str(&mut s, "corrupt segment file"),
            SegmentError::InvalidBarrier => push_str(&mut s, "invalid barrier entry"),
            SegmentError::UnknownEntryType { entry_type } => {
                push_str(&mut s, "unknown entry type: ");
                push_decimal(&mut s, *entry_type as u64);
            },
        }
        s
    }
}

/// Whether every byte of `b` from `from` on is zero.
pub open spec fn zero_from(b: Seq<u8>, from: int) -> bool {
    forall|i: int| from <= i < b.len() ==> #[trigger] b[i] == 0
}

/// How an entry of type `entry_type` with payload `data` is read.
pub open spec fn classify_entry_spec(entry_type: u16, data: Seq<u8>) -> Result<EntryPayload, SegmentError> {
    if entry_type == RAFT_BARRIER {
        if data.len() == 8 && zero_from(data, 0) {
            Ok(EntryPayload::Barrier)
        } else {
            Err(SegmentError::InvalidBarrier)
        }
    } else if entry_type == RAFT_CHANGE {
        Ok(EntryPayload::Configuration)
    } else if entry_type == RAFT_COMMAND {
        Ok(EntryPayload::Command)
    } else {
        Err(SegmentError::UnknownEntryType { entry_type })
    }
}

/// What a segment file holds, judged from its header.
#[derive(Clone, Copy, Debug, PartialEq, Eq, Structural)]
pub enum SegmentFileFormat {
    /// No entries: an empty or zero-filled file.
    Empty,
    /// Batches of entries follow the 8-byte format word.
    Entries,
}

/// What the content `b` of a segment file is, judged from its header.
pub open spec fn segment_file_format_spec(b: Seq<u8>) -> Result<SegmentFileFormat, SegmentError> {
    if b.len() == 0 {
        Ok(SegmentFileFormat::Empty)
    } else if b.len() < 8 {
        Err(SegmentError::InvalidSegmentFile)
    } else if le_value(b.subrange(0, 8)) == 0 {
        if zero_from(b, 0) {
            Ok(SegmentFileFormat::Empty)
        } else {
            Err(SegmentError::InvalidSegmentFile)
        }
    } else if le_value(b.subrange(0, 8)) != UV_DISK_FORMAT {
        Err(SegmentError::UnsupportedFormat)
    } else {
        Ok(SegmentFileFormat::Entries)
    }
}

/// Whether every byte of `b` from `from` on is zero.
pub fn all_zero_from(b: &[u8], from: usize) -> (r: bool)
    ensures
        r == zero_from(b@, from as int),
{
    let mut i = from;
    while i < b.len()
        invariant
            from <= i,
            forall|j: int| from <= j < i && j < b.len() ==> b@[j] == 0,
        decreases b.len() - i,
    {
        if b[i] != 0 {
            return false;
        }
        i += 1;
    }
    true
}

/// How an entry of type `entry_type` with payload `data` is read: a barrier must be eight
/// zero bytes; configurations and commands are decoded further; other types are unknown.
pub fn classify_entry(entry_type: u16, data: &[u8]) -> (r: Result<EntryPayload, SegmentError>)
    ensures
        r == classify_entry_spec(entry_type, data@),
{
    if entry_type == RAFT_BARRIER {
        if data.len() != 8 || !all_zero_from(data, 0) {
            return Err(SegmentError::InvalidBarrier);
        }
        Ok(EntryPayload::Barrier)
    } else if entry_type == RAFT_CHANGE {
        Ok(EntryPayload::Configuration)
    } else if entry_type == RAFT_COMMAND {
        Ok(EntryPayload::Command)
    } else {
        Err(SegmentError::UnknownEntryType { entry_type })
    }
}

/// Whether an entry is one that the entry decoder reads without failing: a barrier of eight
/// zero bytes, a configuration or a command.
pub open spec fn readable_entry(entry_type: u16, data: Seq<u8>) -> bool {
    classify_entry_spec(entry_type, data) is Ok
}

/// How an entry that the decoder must be able to read is read, for a decoder that takes any
/// other entry (a barrier that is not eight zero bytes, an unknown type) as a broken invariant
/// rather than as an error.
pub fn valid_entry_payload(entry_type: u16, data: &[u8]) -> (r: EntryPayload)
    requires
        readable_entry(entry_type, data@),
    ensures
        classify_entry_spec(entry_type, data@) == Ok::<EntryPayload, SegmentError>(r),
        entry_type == RAFT_BARRIER ==> r == EntryPayload::Barrier,
        entry_type == RAFT_CHANGE ==> r == EntryPayload::Configuration,
        entry_type == RAFT_COMMAND ==> r == EntryPayload::Command,
{
    if entry_type == RAFT_BARRIER {
        EntryPayload::Barrier
    } else if entry_type == RAFT_CHANGE {
        EntryPayload::Configuration
    } else {
        EntryPayload::Command
    }
}

/// What the content of a segment file is, judged from its header.
pub fn segment_file_format(b: &[u8]) -> (r: Result<SegmentFileFormat, SegmentError>)
    ensures
        r == segment_file_format_spec(b@),
{
    if b.len() == 0 {
        return Ok(SegmentFileFormat::Empty);
    } else if b.len() < 8 {
        return Err(SegmentError::InvalidSegmentFile);
    }
    let format = crate::bytes::read_le(b, 0, 8);
    if format == 0 {
        if all_zero_from(b, 0) {
            return Ok(SegmentFileFormat::Empty);
        }
        return Err(SegmentError::InvalidSegmentFile);
    } else if format != UV_DISK_FORMAT {
        return Err(SegmentError::UnsupportedFormat);
    }
    Ok(SegmentFileFormat::Entries)
}

/// What to do when the batch loader finds corruption at `offset`: a zero-filled remainder is
/// the unused tail of a preallocated file and ends the entries; anything else is an error.
pub fn corrupt_batch_outcome(b: &[u8], offset: usize) -> (r: Result<(), SegmentError>)
    ensures
        r is Ok <==> zero_from(b@, offset as int),
        r is Err ==> r == Err::<(), SegmentError>(SegmentError::CorruptSegmentFile),
{
    if all_zero_from(b, offset) {
        Ok(())
    } else {
        Err(SegmentError::CorruptSegmentFile)
    }
}

/// The payload that stands for a barrier entry.
pub fn barrier_payload() -> (r: Vec<u8>)
    ensures
        r@.len() == 8,
        zero_from(r@, 0),
        classify_entry_spec(RAFT_BARRIER, r@) == Ok::<EntryPayload, SegmentError>(EntryPayload::Barrier),
{
    let mut v: Vec<u8> = Vec::new();
    let mut i: usize = 0;
    while i < 8
        invariant
            i <= 8,
            v@.len() == i,
            zero_from(v@, 0),
        decreases 8 - i,
    {
        v.push(0);
        i += 1;
    }
    v
}

/// The common page size of the frames of a frames command, if there is at least one frame
/// and all have the same size.
pub fn frames_page_size(frames: &[DqliteFrame]) -> (r: Option<usize>)
    ensures
        match r {
            Some(size) => frames@.len() > 0 && forall|i: int| 0 <= i < frames@.len() ==> #[trigger] frames@[i].data@.len() == size,
            None => frames@.len() == 0 || exists|i: int| 0 <= i < frames@.len() && #[trigger] frames@[i].data@.len() != frames@[0].data@.len(),
        },
{
    if frames.len() == 0 {
        return None;
    }
    let size = frames[0].data.len();
    let mut i: usize = 1;
    while i < frames.len()
        invariant
            1 <= i <= frames.len(),
            size == frames@[0].data@.len(),
            forall|j: int| 0 <= j < i ==> #[trigger] frames@[j].data@.len() == size,
        decreases frames.len() - i,
    {
        if frames[i].data.len() != size {
            return None;
        }
        i += 1;
    }
    Some(size)
}

/// The page size a frames command is encoded with: that of its frames, which must be at least
/// one and all of one size.
pub fn encoded_page_size(frames: &[DqliteFrame]) -> (r: usize)
    requires
        frames@.len() > 0,
        forall|i: int| 0 <= i < frames@.len() ==> #[trigger] frames@[i].data@.len() == frames@[0].data@.len(),
    ensures
        forall|i: int| 0 <= i < frames@.len() ==> #[trigger] frames@[i].data@.len() == r,
{
    frames[0].data.len()
}

/// A segment of the raft log.
#[derive(Debug)]
pub enum DqliteSegment {
    /// An open segment and the entries read from it.
    Open { counter: u64, content: Vec<DqliteLogEntry> },
    /// A closed segment holding the entries `first_index..=end_index`.
    Closed { first_index: u64, end_index: u64 },
}

/// A snapshot of the raft state.
#[derive(Debug)]
pub struct DqliteSnapshot {
    pub term: u64,
    pub index: u64,
    /// Milliseconds since the UNIX epoch.
    pub timestamp: u64,
    pub configuration: RaftConfiguration,
}

/// Failures in interpreting a data directory.
#[derive(Clone, Copy, Debug, PartialEq, Eq, Structural)]
pub enum DirError {
    /// The raft metadata is at version zero: the directory was never used by dqlite.
    NotDqliteFolder,
    /// No configuration is found in the log nor in a snapshot.
    NoConfiguration,
}

/// The text of each failure in interpreting a data directory.
pub open spec fn dir_error_message(e: DirError) -> Seq<char> {
    match e {
        DirError::NotDqliteFolder => "not ad dqlite folder"@,
        DirError::NoConfiguration => "cannot find configuration"@,
    }
}

impl DirError {
    /// A human-readable description of the failure.
    pub fn message(&self) -> (r: String)
        ensures
            r@ == dir_error_message(*self),
    {
        let mut s = String::new();
        match self {
            DirError::NotDqliteFolder => push_str(&mut s, "not ad dqlite folder"),
            DirError::NoConfiguration => push_str(&mut s, "cannot find configuration"),
        }
        s
    }
}

/// The number of open segments at the end of `s`.
pub open spec fn trailing_open(s: Seq<DqliteSegment>) -> nat
    decreases s.len(),
{
    if s.len() == 0 {
        0
    } else if s.last() is Open {
        1 + trailing_open(s.drop_last())
    } else {
        0
    }
}

/// The index of the first entry of the log: the start of the first closed segment, the entry
/// after the first snapshot when the log starts with an open segment, or 1.
pub open spec fn first_index_spec(segments: Seq<DqliteSegment>, snapshots: Seq<DqliteSnapshot>) -> u64 {
    if segments.len() == 0 {
        1
    } else {
        match segments[0] {
            DqliteSegment::Closed { first_index, .. } => first_index,
            DqliteSegment::Open { .. } => if snapshots.len() > 0 {
                snapshots[0].index.wrapping_add(1)
            } else {
                1
            },
        }
    }
}

/// The first index of the log: 1 for an empty log; the start of the first segment where it is
/// closed; where it is open, the index right after the first (oldest) snapshot, whatever the
/// others, or 1 without snapshots. Right after the largest possible index comes 0.
pub proof fn lemma_first_index_after_first_snapshot(segments: Seq<DqliteSegment>, snapshots: Seq<DqliteSnapshot>)
    ensures
        segments.len() == 0 ==> first_index_spec(segments, snapshots) == 1,
        segments.len() > 0 ==> match segments[0] {
            DqliteSegment::Closed { first_index, .. } => first_index_spec(segments, snapshots) == first_index,
            DqliteSegment::Open { .. } => (snapshots.len() == 0 ==> first_index_spec(segments, snapshots) == 1)
                && (snapshots.len() > 0 && snapshots[0].index < u64::MAX ==> first_index_spec(segments, snapshots)
                == snapshots[0].index + 1) && (snapshots.len() > 0 && snapshots[0].index == u64::MAX
                ==> first_index_spec(segments, snapshots) == 0),
        },
{
}

proof fn lemma_trailing_open_bound(s: Seq<DqliteSegment>)
    ensures
        trailing_open(s) <= s.len(),
    decreases s.len(),
{
    if s.len() > 0 {
        lemma_trailing_open_bound(s.drop_last());
    }
}

/// The raft state of a data directory.
#[derive(Debug)]
pub struct DqliteDir {
    snapshots: Vec<DqliteSnapshot>,
    segments: Vec<DqliteSegment>,
    num_closed_segments: usize,
    term: u64,
    voted_for: u64,
    first_index: u64,
}

impl DqliteDir {
    pub closed spec fn spec_snapshots(&self) -> Seq<DqliteSnapshot> {
        self.snapshots@
    }

    pub closed spec fn spec_segments(&self) -> Seq<DqliteSegment> {
        self.segments@
    }

    pub closed spec fn spec_num_closed(&self) -> nat {
        self.num_closed_segments as nat
    }

    pub closed spec fn spec_term(&self) -> u64 {
        self.term
    }

    pub closed spec fn spec_voted_for(&self) -> u64 {
        self.voted_for
    }

    pub closed spec fn spec_first_index(&self) -> u64 {
        self.first_index
    }

    /// The state made of the raft metadata and the listed snapshots and segments. A version
    /// of zero means that the directory holds no raft state.
    pub fn from_parts(
        version: u64,
        term: u64,
        voted_for: u64,
        snapshots: Vec<DqliteSnapshot>,
        segments: Vec<DqliteSegment>,
    ) -> (r: Result<DqliteDir, DirError>)
        ensures
            version == 0 ==> r == Err::<DqliteDir, DirError>(DirError::NotDqliteFolder),
            version != 0 ==> (r matches Ok(d) && d.spec_snapshots() == snapshots@
                && d.spec_segments() == segments@ && d.spec_term() == term && d.spec_voted_for()
                == voted_for && d.spec_num_closed() == segments@.len() - trailing_open(segments@)
                && d.spec_first_index() == first_index_spec(segments@, snapshots@)),
            version != 0 && segments@.len() == 0 ==> (r matches Ok(d) && d.spec_first_index() == 1),
            version != 0 && segments@.len() > 0 ==> match segments@[0] {
                DqliteSegment::Closed { first_index, .. } => r matches Ok(d) && d.spec_first_index() == first_index,
                DqliteSegment::Open { .. } => r matches Ok(d) && (snapshots@.len() == 0 ==> d.spec_first_index() == 1)
                    && (snapshots@.len() > 0 && snapshots@[0].index < u64::MAX ==> d.spec_first_index()
                    == snapshots@[0].index + 1),
            },
    {
        proof {
            lemma_first_index_after_first_snapshot(segments@, snapshots@);
        }
        if version == 0 {
            return Err(DirError::NotDqliteFolder);
        }
        let mut num_open: usize = 0;
        let mut k: usize = segments.len();
        let mut stop = false;
        assert(segments@.take(k as int) =~= segments@);
        while k > 0 && !stop
            invariant
                k <= segments.len(),
                num_open == segments.len() - k,
                trailing_open(segments@) == num_open + trailing_open(segments@.take(k as int)),
                stop ==> trailing_open(segments@.take(k as int)) == 0,
            decreases k + (if stop { 0int } else { 1int }),
        {
            proof {
                assert(segments@.take(k as int).drop_last() =~= segments@.take(k - 1));
                assert(segments@.take(k as int).last() == segments@[k - 1]);
            }
            match &segments[k - 1] {
                DqliteSegment::Open { .. } => {
                    num_open += 1;
                    k -= 1;
                },
                DqliteSegment::Closed { .. } => {
                    stop = true;
                },
            }
        }
        proof {
            if k == 0 {
                assert(segments@.take(0) =~= Seq::<DqliteSegment>::empty());
            }
            lemma_trailing_open_bound(segments@);
        }
        let num_closed_segments = segments.len() - num_open;
        let first_index = if segments.len() == 0 {
            1
        } else {
            match &segments[0] {
                DqliteSegment::Closed { first_index, .. } => *first_index,
                DqliteSegment::Open { .. } => {
                    if snapshots.len() > 0 {
                        snapshots[0].index.wrapping_add(1)
                    } else {
                        1
                    }
                },
            }
        };
        Ok(DqliteDir { snapshots, segments, num_closed_segments, term, voted_for, first_index })
    }

    /// The snapshots, oldest first.
    pub fn snapshots(&self) -> (r: &Vec<DqliteSnapshot>)
        ensures
            r@ == self.spec_snapshots(),
    {
        &self.snapshots
    }

    /// The segments, in log order.
    pub fn segments(&self) -> (r: &Vec<DqliteSegment>)
        ensures
            r@ == self.spec_segments(),
    {
        &self.segments
    }

    /// The number of closed segments; they come before the open ones.
    pub fn num_closed_segments(&self) -> (r: usize)
        ensures
            r == self.spec_num_closed(),
    {
        self.num_closed_segments
    }

    pub fn term(&self) -> (r: u64)
        ensures
            r == self.spec_term(),
    {
        self.term
    }

    pub fn voted_for(&self) -> (r: u64)
        ensures
            r == self.spec_voted_for(),
    {
        self.voted_for
    }

    pub fn first_index(&self) -> (r: u64)
        ensures
            r == self.spec_first_index(),
    {
        self.first_index
    }
}

/// The configuration of the last configuration change among `entries`, if any.
pub open spec fn last_change_in(entries: Seq<DqliteLogEntry>) -> Option<Seq<ServerView>>
    decreases entries.len(),
{
    if entries.len() == 0 {
        None
    } else {
        match entries.last().content {
            DqliteLogEntryContent::Change(c) => Some(c@),
            _ => last_change_in(entries.drop_last()),
        }
    }
}

/// The configuration of the last configuration change in the log, whose segments hold the
/// entries `segments`, if any.
pub open spec fn last_change(segments: Seq<Seq<DqliteLogEntry>>) -> Option<Seq<ServerView>>
    decreases segments.len(),
{
    if segments.len() == 0 {
        None
    } else {
        match last_change_in(segments.last()) {
            Some(c) => Some(c),
            None => last_change(segments.drop_last()),
        }
    }
}

/// The entries of each segment.
pub open spec fn entries_view(v: Seq<Vec<DqliteLogEntry>>) -> Seq<Seq<DqliteLogEntry>> {
    v.map_values(|e: Vec<DqliteLogEntry>| e@)
}

/// The current configuration: that of the last change in the log, else that of the newest
/// snapshot.
pub open spec fn current_configuration_spec(
    segments: Seq<Seq<DqliteLogEntry>>,
    snapshots: Seq<DqliteSnapshot>,
) -> Option<Seq<ServerView>> {
    match last_change(segments) {
        Some(c) => Some(c),
        None => if snapshots.len() > 0 {
            Some(snapshots.last().configuration@)
        } else {
            None
        },
    }
}

/// Whether an entry changes the configuration.
pub open spec fn is_change(e: DqliteLogEntry) -> bool {
    e.content is Change
}

/// Whether an entry changes the configuration to `c`.
pub open spec fn changes_to(e: DqliteLogEntry, c: Seq<ServerView>) -> bool {
    match e.content {
        DqliteLogEntryContent::Change(x) => x@ == c,
        _ => false,
    }
}

/// Whether `result` is the configuration in force after the log `log` (all entries, in log
/// order) on top of the snapshots `snapshots`, oldest first: that of a configuration change
/// with no configuration change after it in the log; where the log changes nothing, that of the
/// newest snapshot; nothing where there is neither.
pub open spec fn configuration_in_force(
    log: Seq<DqliteLogEntry>,
    snapshots: Seq<DqliteSnapshot>,
    result: Option<Seq<ServerView>>,
) -> bool {
    match result {
        Some(c) => (exists|i: int|
            0 <= i < log.len() && changes_to(#[trigger] log[i], c)
                && forall|j: int| i < j < log.len() ==> !is_change(#[trigger] log[j]))
            || ((forall|j: int| 0 <= j < log.len() ==> !is_change(#[trigger] log[j])) && snapshots.len() > 0
                && c == snapshots.last().configuration@),
        None => (forall|j: int| 0 <= j < log.len() ==> !is_change(#[trigger] log[j])) && snapshots.len() == 0,
    }
}

proof fn lemma_last_change_in_concat(a: Seq<DqliteLogEntry>, b: Seq<DqliteLogEntry>)
    ensures
        last_change_in(a + b) == match last_change_in(b) {
            Some(c) => Some(c),
            None => last_change_in(a),
        },
    decreases b.len(),
{
    if b.len() == 0 {
        assert(a + b =~= a);
    } else {
        assert((a + b).drop_last() =~= a + b.drop_last());
        assert((a + b).last() == b.last());
        lemma_last_change_in_concat(a, b.drop_last());
    }
}

proof fn lemma_last_change_flatten(segs: Seq<Seq<DqliteLogEntry>>)
    ensures
        last_change(segs) == last_change_in(flatten_entries(segs)),
    decreases segs.len(),
{
    if segs.len() > 0 {
        lemma_last_change_flatten(segs.drop_last());
        lemma_last_change_in_concat(flatten_entries(segs.drop_last()), segs.last());
    }
}

proof fn lemma_last_change_in_position(e: Seq<DqliteLogEntry>)
    ensures
        match last_change_in(e) {
            Some(c) => exists|i: int|
                0 <= i < e.len() && changes_to(#[trigger] e[i], c)
                    && forall|j: int| i < j < e.len() ==> !is_change(#[trigger] e[j]),
            None => forall|j: int| 0 <= j < e.len() ==> !is_change(#[trigger] e[j]),
        },
    decreases e.len(),
{
    if e.len() > 0 {
        let init = e.drop_last();
        let n = e.len() - 1;
        match e.last().content {
            DqliteLogEntryContent::Change(x) => {
                assert(changes_to(e[n], x@));
                assert forall|j: int| n < j < e.len() implies !is_change(#[trigger] e[j]) by {}
            },
            _ => {
                lemma_last_change_in_position(init);
                assert(!is_change(e[n]));
                match last_change_in(init) {
                    Some(c) => {
                        let i = choose|i: int|
                            0 <= i < init.len() && changes_to(#[trigger] init[i], c) && forall|j: int| i < j < init.len() ==> !is_change(#[trigger] init[j]);
                        assert(e[i] == init[i]);
                        assert forall|j: int| i < j < e.len() implies !is_change(#[trigger] e[j]) by {
                            if j < n {
                                assert(e[j] == init[j]);
                            }
                        }
                    },
                    None => {
                        assert forall|j: int| 0 <= j < e.len() implies !is_change(#[trigger] e[j]) by {
                            if j < n {
                                assert(e[j] == init[j]);
                            }
                        }
                    },
                }
            },
        }
    }
}

/// The configuration in force is that of the last configuration change of the whole log, the
/// segments taken in order: no configuration change comes after it. Where the log changes
/// nothing it is that of the newest snapshot, and without snapshots there is none.
pub proof fn lemma_current_configuration_is_last_change(
    segments: Seq<Seq<DqliteLogEntry>>,
    snapshots: Seq<DqliteSnapshot>,
)
    ensures
        configuration_in_force(flatten_entries(segments), snapshots, current_configuration_spec(segments, snapshots)),
{
    lemma_last_change_flatten(segments);
    lemma_last_change_in_position(flatten_entries(segments));
}

fn last_change_in_segment(entries: &Vec<DqliteLogEntry>) -> (r: Option<RaftConfiguration>)
    ensures
        match r {
            Some(c) => last_change_in(entries@) == Some(c@),
            None => last_change_in(entries@) is None,
        },
{
    let mut j = entries.len();
    assert(entries@.take(j as int) =~= entries@);
    while j > 0
        invariant
            j <= entries.len(),
            last_change_in(entries@) == last_change_in(entries@.take(j as int)),
        decreases j,
    {
        proof {
            assert(entries@.take(j as int).drop_last() =~= entries@.take(j - 1));
        }
        match &entries[j - 1].content {
            DqliteLogEntryContent::Change(c) => {
                return Some(c.duplicate());
            },
            _ => {},
        }
        j -= 1;
    }
    assert(entries@.take(0) =~= Seq::<DqliteLogEntry>::empty());
    None
}

/// The configuration in force: that of the last configuration change among the entries of the
/// segments `segment_entries` (in log order), else that of the newest snapshot.
pub fn current_configuration(
    segment_entries: &Vec<Vec<DqliteLogEntry>>,
    snapshots: &Vec<DqliteSnapshot>,
) -> (r: Result<RaftConfiguration, DirError>)
    ensures
        match current_configuration_spec(entries_view(segment_entries@), snapshots@) {
            Some(c) => r matches Ok(conf) && conf@ == c,
            None => r == Err::<RaftConfiguration, DirError>(DirError::NoConfiguration),
        },
        configuration_in_force(flatten_entries(entries_view(segment_entries@)), snapshots@, match r {
            Ok(conf) => Some(conf@),
            Err(_) => None,
        }),
{
    proof {
        lemma_current_configuration_is_last_change(entries_view(segment_entries@), snapshots@);
    }
    let ghost all = entries_view(segment_entries@);
    let mut k = segment_entries.len();
    assert(all.take(k as int) =~= all);
    while k > 0
        invariant
            k <= segment_entries.len(),
            all == entries_view(segment_entries@),
            last_change(all) == last_change(all.take(k as int)),
        decreases k,
    {
        proof {
            assert(all.take(k as int).drop_last() =~= all.take(k - 1));
            assert(all.take(k as int).last() == segment_entries@[k - 1]@);
        }
        match last_change_in_segment(&segment_entries[k - 1]) {
            Some(c) => {
                proof {
                    lemma_current_configuration_is_last_change(all, snapshots@);
                }
                return Ok(c);
            },
            None => {},
        }
        k -= 1;
    }
    assert(all.take(0) =~= Seq::<Seq<DqliteLogEntry>>::empty());
    if snapshots.len() > 0 {
        Ok(snapshots[snapshots.len() - 1].configuration.duplicate())
    } else {
        Err(DirError::NoConfiguration)
    }
}

/// The entries of a segment to be written, grouped in batches.
pub struct DqliteSegmentBuilder(Vec<Vec<DqliteLogEntry>>);

pub open spec fn batches_view(v: Seq<Vec<DqliteLogEntry>>) -> Seq<Seq<EntryView>> {
    v.map_values(|b: Vec<DqliteLogEntry>| log_entries_view(b@))
}

impl View for DqliteSegmentBuilder {
    type V = Seq<Seq<EntryView>>;

    closed spec fn view(&self) -> Seq<Seq<EntryView>> {
        batches_view(self.0@)
    }
}

/// One batch per entry.
pub open spec fn single_batches(entries: Seq<EntryView>) -> Seq<Seq<EntryView>> {
    entries.map_values(|e: EntryView| seq![e])
}

impl DqliteSegmentBuilder {
    /// A segment without batches.
    pub fn new() -> (r: DqliteSegmentBuilder)
        ensures
            r@ == Seq::<Seq<EntryView>>::empty(),
    {
        let r = DqliteSegmentBuilder(Vec::new());
        assert(r@ =~= Seq::<Seq<EntryView>>::empty());
        r
    }

    /// Adds a single batch containing `entries` to the segment.
    pub fn add_batch(self, entries: &[DqliteLogEntry]) -> (r: DqliteSegmentBuilder)
        ensures
            r@ == self@.push(log_entries_view(entries@)),
    {
        let mut v = self.0;
        let ghost prev = v@;
        v.push(duplicate_entries(entries));
        assert(batches_view(v@) =~= batches_view(prev).push(log_entries_view(entries@)));
        DqliteSegmentBuilder(v)
    }

    /// Adds `entries` to the segment, one batch each.
    pub fn add_entries(self, entries: &[DqliteLogEntry]) -> (r: DqliteSegmentBuilder)
        ensures
            r@ == self@ + single_batches(log_entries_view(entries@)),
    {
        let mut v = self.0;
        let ghost start = batches_view(v@);
        let mut i: usize = 0;
        while i < entries.len()
            invariant
                i <= entries.len(),
                batches_view(v@) == start + single_batches(log_entries_view(entries@).take(i as int)),
            decreases entries.len() - i,
        {
            let mut batch: Vec<DqliteLogEntry> = Vec::new();
            batch.push(entries[i].duplicate());
            let ghost prev = v@;
            v.push(batch);
            proof {
                assert(log_entries_view(batch@) =~= seq![entries@[i as int]@]);
                assert(log_entries_view(entries@)[i as int] == entries@[i as int]@);
                assert(batches_view(v@) =~= batches_view(prev).push(seq![entries@[i as int]@]));
                assert(single_batches(log_entries_view(entries@).take(i + 1)) =~= single_batches(
                    log_entries_view(entries@).take(i as int),
                ).push(seq![entries@[i as int]@]));
            }
            i += 1;
        }
        assert(log_entries_view(entries@).take(entries.len() as int) =~= log_entries_view(entries@));
        DqliteSegmentBuilder(v)
    }

    /// The number of batches.
    pub fn batch_count(&self) -> (r: usize)
        ensures
            r == self@.len(),
    {
        self.0.len()
    }

    /// The number of entries over all batches.
    pub fn entry_count(&self) -> (r: u64)
        requires
            total_entries(self@) <= u64::MAX,
        ensures
            r == total_entries(self@),
    {
        let mut n: u64 = 0;
        let mut i: usize = 0;
        while i < self.0.len()
            invariant
                i <= self.0.len(),
                total_entries(self@) <= u64::MAX,
                n == total_entries(self@.take(i as int)),
            decreases self.0.len() - i,
        {
            proof {
                assert(self@.take(i + 1).drop_last() =~= self@.take(i as int));
                assert(self@[i as int].len() == self.0@[i as int]@.len());
                lemma_total_entries_prefix(self@, i + 1);
            }
            n = n + self.0[i].len() as u64;
            i += 1;
        }
        assert(self@.take(self.0.len() as int) =~= self@);
        n
    }
}

/// The number of entries over all the batches `b`.
pub open spec fn total_entries(b: Seq<Seq<EntryView>>) -> nat
    decreases b.len(),
{
    if b.len() == 0 {
        0
    } else {
        total_entries(b.drop_last()) + b.last().len()
    }
}

proof fn lemma_total_entries_prefix(b: Seq<Seq<EntryView>>, k: int)
    requires
        0 <= k <= b.len(),
    ensures
        total_entries(b.take(k)) <= total_entries(b),
    decreases b.len(),
{
    if k < b.len() {
        assert(b.drop_last().take(k) =~= b.take(k));
        lemma_total_entries_prefix(b.drop_last(), k);
    } else {
        assert(b.take(k) =~= b);
    }
}

/// The plain values of a snapshot to be written: term, index, timestamp and configuration.
pub type SnapshotBuilderView = (u64, u64, u64, Option<Seq<ServerView>>);

/// A snapshot to be written.
pub struct DqliteSnapshotBuilder {
    term: u64,
    index: u64,
    timestamp: u64,
    configuration: Option<RaftConfiguration>,
}

impl View for DqliteSnapshotBuilder {
    type V = SnapshotBuilderView;

    closed spec fn view(&self) -> SnapshotBuilderView {
        (
            self.term,
            self.index,
            self.timestamp,
            match self.configuration {
                Some(c) => Some(c@),
                None => None,
            },
        )
    }
}

impl DqliteSnapshotBuilder {
    /// A snapshot at `term` and `index`, taken at `timestamp` (milliseconds since the UNIX
    /// epoch), without configuration.
    pub fn new(term: u64, index: u64, timestamp: u64) -> (r: DqliteSnapshotBuilder)
        ensures
            r@ == (term, index, timestamp, None::<Seq<ServerView>>),
    {
        DqliteSnapshotBuilder { term, index, timestamp, configuration: None }
    }

    pub fn with_term(self, term: u64) -> (r: DqliteSnapshotBuilder)
        ensures
            r@ == (term, self@.1, self@.2, self@.3),
    {
        DqliteSnapshotBuilder { term, ..self }
    }

    pub fn with_index(self, index: u64) -> (r: DqliteSnapshotBuilder)
        ensures
            r@ == (self@.0, index, self@.2, self@.3),
    {
        DqliteSnapshotBuilder { index, ..self }
    }

    pub fn with_timestamp(self, timestamp: u64) -> (r: DqliteSnapshotBuilder)
        ensures
            r@ == (self@.0, self@.1, timestamp, self@.3),
    {
        DqliteSnapshotBuilder { timestamp, ..self }
    }

    pub fn with_configuration(self, configuration: RaftConfiguration) -> (r: DqliteSnapshotBuilder)
        ensures
            r@ == (self@.0, self@.1, self@.2, Some(configuration@)),
    {
        DqliteSnapshotBuilder { configuration: Some(configuration), ..self }
    }

    pub fn term(&self) -> (r: u64)
        ensures
            r == self@.0,
    {
        self.term
    }

    pub fn index(&self) -> (r: u64)
        ensures
            r == self@.1,
    {
        self.index
    }

    pub fn timestamp(&self) -> (r: u64)
        ensures
            r == self@.2,
    {
        self.timestamp
    }

    /// The names of the snapshot's data file and metadata file, once it has a configuration
    /// to write: `snapshot-<term>-<index>-<timestamp>`, and the same with `.meta`.
    pub fn file_names(&self) -> (r: (String, String))
        requires
            self@.3 is Some,
        ensures
            r.0@ == crate::dqlite::data_path_spec(
                crate::dqlite::RaftSnapshot {
                    term: self@.0,
                    index: self@.1,
                    created: self@.2,
                    has_meta: true,
                    has_data: true,
                },
            ),
            r.1@ == crate::dqlite::meta_path_spec(
                crate::dqlite::RaftSnapshot {
                    term: self@.0,
                    index: self@.1,
                    created: self@.2,
                    has_meta: true,
                    has_data: true,
                },
            ),
    {
        let s = crate::dqlite::RaftSnapshot {
            term: self.term,
            index: self.index,
            created: self.timestamp,
            has_meta: true,
            has_data: true,
        };
        (s.data_path(), s.meta_path())
    }

    pub fn configuration(&self) -> (r: &Option<RaftConfiguration>)
        ensures
            match *r {
                Some(c) => self@.3 == Some(c@),
                None => self@.3 is None,
            },
    {
        &self.configuration
    }
}

/// `std::time::SystemTime::elapsed` on the UNIX epoch: how long ago the epoch was by the system
/// clock, or `None` where the clock is set before it. Nothing is claimed of the value: it is
/// the clock's reading.
#[verifier::external_body]
fn elapsed_since_epoch() -> Option<std::time::Duration> {
    match std::time::UNIX_EPOCH.elapsed() {
        Ok(d) => Some(d),
        Err(_) => None,
    }
}

/// `std::time::Duration::as_millis`: the whole milliseconds of a duration. Nothing is claimed:
/// a duration is opaque here, and it only comes from the clock.
#[verifier::external_body]
fn duration_millis(d: &std::time::Duration) -> u128 {
    d.as_millis()
}

/// The current time, in milliseconds since the UNIX epoch, cut to 64 bits (zero for a clock set
/// before the epoch).
fn now_millis() -> u64 {
    match elapsed_since_epoch() {
        Some(d) => duration_millis(&d) as u64,
        None => 0,
    }
}

/// The description of a data directory to be created.
pub struct DqliteDirCreator {
    dir: String,
    term: u64,
    voted_for: u64,
    first_index: u64,
    closed_segments: Vec<DqliteSegmentBuilder>,
    open_segments: Vec<DqliteSegmentBuilder>,
    snapshots: Vec<DqliteSnapshotBuilder>,
}

pub open spec fn segments_view(v: Seq<DqliteSegmentBuilder>) -> Seq<Seq<Seq<EntryView>>> {
    v.map_values(|b: DqliteSegmentBuilder| b@)
}

pub open spec fn snapshot_builders_view(v: Seq<DqliteSnapshotBuilder>) -> Seq<SnapshotBuilderView> {
    v.map_values(|b: DqliteSnapshotBuilder| b@)
}

impl DqliteDirCreator {
    pub closed spec fn spec_dir(&self) -> Seq<char> {
        self.dir@
    }

    pub closed spec fn spec_term(&self) -> u64 {
        self.term
    }

    pub closed spec fn spec_voted_for(&self) -> u64 {
        self.voted_for
    }

    pub closed spec fn spec_first_index(&self) -> u64 {
        self.first_index
    }

    pub closed spec fn spec_closed(&self) -> Seq<Seq<Seq<EntryView>>> {
        segments_view(self.closed_segments@)
    }

    pub closed spec fn spec_open(&self) -> Seq<Seq<Seq<EntryView>>> {
        segments_view(self.open_segments@)
    }

    pub closed spec fn spec_snapshots(&self) -> Seq<SnapshotBuilderView> {
        snapshot_builders_view(self.snapshots@)
    }

    pub fn with_term(self, term: u64) -> (r: DqliteDirCreator)
        ensures
            r.spec_term() == term,
            r.spec_dir() == self.spec_dir(),
            r.spec_voted_for() == self.spec_voted_for(),
            r.spec_first_index() == self.spec_first_index(),
            r.spec_closed() == self.spec_closed(),
            r.spec_open() == self.spec_open(),
            r.spec_snapshots() == self.spec_snapshots(),
    {
        DqliteDirCreator { term, ..self }
    }

    pub fn with_voted_for(self, voted_for: u64) -> (r: DqliteDirCreator)
        ensures
            r.spec_voted_for() == voted_for,
            r.spec_dir() == self.spec_dir(),
            r.spec_term() == self.spec_term(),
            r.spec_first_index() == self.spec_first_index(),
            r.spec_closed() == self.spec_closed(),
            r.spec_open() == self.spec_open(),
            r.spec_snapshots() == self.spec_snapshots(),
    {
        DqliteDirCreator { voted_for, ..self }
    }

    pub fn with_first_index(self, first_index: u64) -> (r: DqliteDirCreator)
        ensures
            r.spec_first_index() == first_index,
            r.spec_dir() == self.spec_dir(),
            r.spec_term() == self.spec_term(),
            r.spec_voted_for() == self.spec_voted_for(),
            r.spec_closed() == self.spec_closed(),
            r.spec_open() == self.spec_open(),
            r.spec_snapshots() == self.spec_snapshots(),
    {
        DqliteDirCreator { first_index, ..self }
    }

    /// Adds a closed segment, built by `f` from an empty one; it must hold a batch.
    pub fn with_closed_segment<F: FnOnce(DqliteSegmentBuilder) -> DqliteSegmentBuilder>(
        self,
        f: F,
    ) -> (r: DqliteDirCreator)
        requires
            forall|b: DqliteSegmentBuilder| b@.len() == 0 ==> call_requires(f, (b,)),
            forall|b: DqliteSegmentBuilder, out: DqliteSegmentBuilder|
                b@.len() == 0 && #[trigger] call_ensures(f, (b,), out) ==> out@.len() > 0,
        ensures
            exists|b: DqliteSegmentBuilder, out: DqliteSegmentBuilder|
                b@.len() == 0 && #[trigger] call_ensures(f, (b,), out) && out@.len() > 0
                    && r.spec_closed() == self.spec_closed().push(out@),
            r.spec_dir() == self.spec_dir(),
            r.spec_term() == self.spec_term(),
            r.spec_voted_for() == self.spec_voted_for(),
            r.spec_first_index() == self.spec_first_index(),
            r.spec_open() == self.spec_open(),
            r.spec_snapshots() == self.spec_snapshots(),
    {
        let b = DqliteSegmentBuilder::new();
        let segment = f(b);
        let mut closed = self.closed_segments;
        let ghost prev = closed@;
        closed.push(segment);
        assert(segments_view(closed@) =~= segments_view(prev).push(segment@));
        DqliteDirCreator { closed_segments: closed, ..self }
    }

    /// Adds an open segment, built by `f` from an empty one.
    pub fn with_open_segment<F: FnOnce(DqliteSegmentBuilder) -> DqliteSegmentBuilder>(
        self,
        f: F,
    ) -> (r: DqliteDirCreator)
        requires
            forall|b: DqliteSegmentBuilder| b@.len() == 0 ==> call_requires(f, (b,)),
        ensures
            exists|b: DqliteSegmentBuilder, out: DqliteSegmentBuilder|
                b@.len() == 0 && #[trigger] call_ensures(f, (b,), out)
                    && r.spec_open() == self.spec_open().push(out@),
            r.spec_dir() == self.spec_dir(),
            r.spec_term() == self.spec_term(),
            r.spec_voted_for() == self.spec_voted_for(),
            r.spec_first_index() == self.spec_first_index(),
            r.spec_closed() == self.spec_closed(),
            r.spec_snapshots() == self.spec_snapshots(),
    {
        let b = DqliteSegmentBuilder::new();
        let segment = f(b);
        let mut open = self.open_segments;
        let ghost prev = open@;
        open.push(segment);
        assert(segments_view(open@) =~= segments_view(prev).push(segment@));
        DqliteDirCreator { open_segments: open, ..self }
    }

    /// Adds a snapshot built by `f` from one at the current term, at the index that follows
    /// all the entries of the segments, taken now and without configuration.
    pub fn with_snapshot<F: FnOnce(DqliteSnapshotBuilder) -> DqliteSnapshotBuilder>(
        self,
        f: F,
    ) -> (r: DqliteDirCreator)
        requires
            forall|b: DqliteSnapshotBuilder| call_requires(f, (b,)),
            self.spec_first_index() + total_segment_entries(self.spec_closed() + self.spec_open())
                <= u64::MAX,
        ensures
            exists|b: DqliteSnapshotBuilder, out: DqliteSnapshotBuilder|
                b@.0 == self.spec_term() && b@.1 == self.spec_first_index()
                    + total_segment_entries(self.spec_closed() + self.spec_open()) && b@.3 is None
                    && #[trigger] call_ensures(f, (b,), out) && r.spec_snapshots()
                    == self.spec_snapshots().push(out@),
            r.spec_dir() == self.spec_dir(),
            r.spec_term() == self.spec_term(),
            r.spec_voted_for() == self.spec_voted_for(),
            r.spec_first_index() == self.spec_first_index(),
            r.spec_closed() == self.spec_closed(),
            r.spec_open() == self.spec_open(),
    {
        proof {
            lemma_total_segment_entries_concat(self.spec_closed(), self.spec_open());
        }
        let closed = total_of_segments(&self.closed_segments, self.first_index);
        let index = total_of_segments(&self.open_segments, closed);
        let b = DqliteSnapshotBuilder::new(self.term, index, now_millis());
        let snapshot = f(b);
        let mut snapshots = self.snapshots;
        let ghost prev = snapshots@;
        snapshots.push(snapshot);
        assert(snapshot_builders_view(snapshots@) =~= snapshot_builders_view(prev).push(snapshot@));
        DqliteDirCreator { snapshots, ..self }
    }
}

/// The number of entries over all the segments `s`.
pub open spec fn total_segment_entries(s: Seq<Seq<Seq<EntryView>>>) -> nat
    decreases s.len(),
{
    if s.len() == 0 {
        0
    } else {
        total_segment_entries(s.drop_last()) + total_entries(s.last())
    }
}

proof fn lemma_total_segment_entries_concat(a: Seq<Seq<Seq<EntryView>>>, b: Seq<Seq<Seq<EntryView>>>)
    ensures
        total_segment_entries(a + b) == total_segment_entries(a) + total_segment_entries(b),
    decreases b.len(),
{
    if b.len() == 0 {
        assert(a + b =~= a);
    } else {
        assert((a + b).drop_last() =~= a + b.drop_last());
        lemma_total_segment_entries_concat(a, b.drop_last());
    }
}

/// `base` plus the number of entries of all the segments `v`.
fn total_of_segments(v: &Vec<DqliteSegmentBuilder>, base: u64) -> (r: u64)
    requires
        base + total_segment_entries(segments_view(v@)) <= u64::MAX,
    ensures
        r == base + total_segment_entries(segments_view(v@)),
{
    let ghost all = segments_view(v@);
    let mut index = base;
    let mut i: usize = 0;
    while i < v.len()
        invariant
            i <= v.len(),
            all == segments_view(v@),
            base + total_segment_entries(all) <= u64::MAX,
            index == base + total_segment_entries(all.take(i as int)),
        decreases v.len() - i,
    {
        proof {
            assert(all[i as int] == v@[i as int]@);
            lemma_total_segment_entries_prefix(all, i + 1);
            lemma_total_entries_le_segments(all, i as int);
            assert(total_entries(v@[i as int]@) <= total_segment_entries(all));
        }
        let n = v[i].entry_count();
        index = index + n;
        i += 1;
    }
    assert(all.take(i as int) =~= all);
    index
}

proof fn lemma_total_segment_entries_prefix(s: Seq<Seq<Seq<EntryView>>>, k: int)
    requires
        0 <= k <= s.len(),
    ensures
        total_segment_entries(s.take(k)) <= total_segment_entries(s),
    decreases s.len(),
{
    if k < s.len() {
        assert(s.drop_last().take(k) =~= s.take(k));
        lemma_total_segment_entries_prefix(s.drop_last(), k);
    } else {
        assert(s.take(k) =~= s);
    }
}

proof fn lemma_total_entries_le_segments(s: Seq<Seq<Seq<EntryView>>>, i: int)
    requires
        0 <= i < s.len(),
    ensures
        total_segment_entries(s.take(i)) + total_entries(s[i]) == total_segment_entries(s.take(i + 1)),
{
    assert(s.take(i + 1).drop_last() =~= s.take(i));
}

impl DqliteDir {
    /// The description of a new data directory at `dir`: term 1, no vote, log starting at
    /// index 1, no segments and no snapshots.
    pub fn creator(dir: String) -> (r: DqliteDirCreator)
        ensures
            r.spec_dir() == dir@,
            r.spec_term() == 1,
            r.spec_voted_for() == 0,
            r.spec_first_index() == 1,
            r.spec_closed().len() == 0,
            r.spec_open().len() == 0,
            r.spec_snapshots().len() == 0,
    {
        DqliteDirCreator {
            dir,
            term: 1,
            voted_for: 0,
            first_index: 1,
            closed_segments: Vec::new(),
            open_segments: Vec::new(),
            snapshots: Vec::new(),
        }
    }
}

/// The name of a closed segment file holding the entries `first..=last`.
pub open spec fn closed_segment_name(first: nat, last: nat) -> Seq<char> {
    zero_padded(first, 16) + "-"@ + zero_padded(last, 16)
}

/// The name of the open segment file with counter `i`.
pub open spec fn open_segment_name(i: nat) -> Seq<char> {
    "open-"@ + decimal(i)
}

/// The number of batches over all the segments `s`.
pub open spec fn total_batches(s: Seq<Seq<Seq<EntryView>>>) -> nat
    decreases s.len(),
{
    if s.len() == 0 {
        0
    } else {
        s[0].len() + total_batches(s.drop_first())
    }
}

/// The names of the closed segment files, the first starting at index `first`; each batch
/// of a segment takes one index.
pub open spec fn closed_names(first: nat, s: Seq<Seq<Seq<EntryView>>>) -> Seq<Seq<char>>
    decreases s.len(),
{
    if s.len() == 0 {
        Seq::empty()
    } else {
        seq![closed_segment_name(first, (first + s[0].len() - 1) as nat)] + closed_names(
            first + s[0].len(),
            s.drop_first(),
        )
    }
}

/// The names of `n` open segment files, counted from zero.
pub open spec fn open_names(n: nat) -> Seq<Seq<char>> {
    Seq::new(n, |i: int| open_segment_name(i as nat))
}

proof fn lemma_closed_names_split(first: nat, s: Seq<Seq<Seq<EntryView>>>, i: int)
    requires
        0 <= i <= s.len(),
    ensures
        closed_names(first, s) == closed_names(first, s.take(i)) + closed_names(
            first + total_batches(s.take(i)),
            s.skip(i),
        ),
    decreases i,
{
    if i == 0 {
        assert(s.skip(0) =~= s);
        assert(s.take(0) =~= Seq::<Seq<Seq<EntryView>>>::empty());
        assert(closed_names(first, s.take(0)) =~= Seq::<Seq<char>>::empty());
        assert(Seq::<Seq<char>>::empty() + closed_names(first, s) =~= closed_names(first, s));
    } else {
        let w = s.drop_first();
        lemma_closed_names_split(first + s[0].len(), w, i - 1);
        assert(w.skip(i - 1) =~= s.skip(i));
        assert(s.take(i).drop_first() =~= w.take(i - 1));
        assert(s.take(i)[0] == s[0]);
        assert(total_batches(s.take(i)) == s[0].len() + total_batches(w.take(i - 1)));
        assert(closed_names(first, s.take(i)) == seq![closed_segment_name(first, (first + s[0].len() - 1) as nat)] + closed_names(first + s[0].len(), w.take(i - 1)));
        assert(closed_names(first, s) =~= closed_names(first, s.take(i)) + closed_names(first + total_batches(s.take(i)), s.skip(i)));
    }
}

proof fn lemma_total_batches_split(s: Seq<Seq<Seq<EntryView>>>, i: int)
    requires
        0 <= i < s.len(),
    ensures
        total_batches(s.take(i + 1)) == total_batches(s.take(i)) + s[i].len(),
        total_batches(s.take(i + 1)) <= total_batches(s),
    decreases i,
{
    let w = s.drop_first();
    if i == 0 {
        assert(s.take(1).drop_first() =~= Seq::<Seq<Seq<EntryView>>>::empty());
        assert(s.take(0) =~= Seq::<Seq<Seq<EntryView>>>::empty());
    } else {
        lemma_total_batches_split(w, i - 1);
        assert(s.take(i + 1).drop_first() =~= w.take(i));
        assert(s.take(i).drop_first() =~= w.take(i - 1));
    }
    lemma_total_batches_prefix(s, i + 1);
}

proof fn lemma_total_batches_prefix(s: Seq<Seq<Seq<EntryView>>>, k: int)
    requires
        0 <= k <= s.len(),
    ensures
        total_batches(s.take(k)) <= total_batches(s),
    decreases k,
{
    if k > 0 {
        lemma_total_batches_prefix(s.drop_first(), k - 1);
        assert(s.take(k).drop_first() =~= s.drop_first().take(k - 1));
    } else {
        assert(s.take(0) =~= Seq::<Seq<Seq<EntryView>>>::empty());
    }
}

impl DqliteDirCreator {
    pub fn dir(&self) -> (r: &String)
        ensures
            r@ == self.spec_dir(),
    {
        &self.dir
    }

    pub fn term(&self) -> (r: u64)
        ensures
            r == self.spec_term(),
    {
        self.term
    }

    pub fn voted_for(&self) -> (r: u64)
        ensures
            r == self.spec_voted_for(),
    {
        self.voted_for
    }

    pub fn first_index(&self) -> (r: u64)
        ensures
            r == self.spec_first_index(),
    {
        self.first_index
    }

    pub fn closed_segments(&self) -> (r: &Vec<DqliteSegmentBuilder>)
        ensures
            segments_view(r@) == self.spec_closed(),
    {
        &self.closed_segments
    }

    pub fn open_segments(&self) -> (r: &Vec<DqliteSegmentBuilder>)
        ensures
            segments_view(r@) == self.spec_open(),
    {
        &self.open_segments
    }

    pub fn snapshots(&self) -> (r: &Vec<DqliteSnapshotBuilder>)
        ensures
            snapshot_builders_view(r@) == self.spec_snapshots(),
    {
        &self.snapshots
    }

    /// The names of the segment files to write, closed segments first: each closed segment
    /// is named after the first and last index it covers, one index per batch; open segments
    /// are counted from zero.
    pub fn segment_file_names(&self) -> (r: Vec<String>)
        requires
            forall|i: int| 0 <= i < self.spec_closed().len() ==> #[trigger] self.spec_closed()[i].len() > 0,
            self.spec_first_index() + total_batches(self.spec_closed()) <= u64::MAX,
        ensures
            strings_view(r@) == closed_names(self.spec_first_index() as nat, self.spec_closed())
                + open_names(self.spec_open().len()),
    {
        let ghost closed = self.spec_closed();
        let ghost first = self.first_index as nat;
        let mut names: Vec<String> = Vec::new();
        let mut index = self.first_index;
        let mut i: usize = 0;
        while i < self.closed_segments.len()
            invariant
                i <= self.closed_segments.len(),
                closed == self.spec_closed(),
                closed == segments_view(self.closed_segments@),
                forall|k: int| 0 <= k < closed.len() ==> #[trigger] closed[k].len() > 0,
                first + total_batches(closed) <= u64::MAX,
                first == self.spec_first_index(),
                index == first + total_batches(closed.take(i as int)),
                strings_view(names@) == closed_names(first, closed.take(i as int)),
            decreases self.closed_segments.len() - i,
        {
            proof {
                lemma_total_batches_split(closed, i as int);
                assert(closed[i as int] == self.closed_segments@[i as int]@);
                assert(closed[i as int].len() > 0);
            }
            let count = self.closed_segments[i].batch_count() as u64;
            let last = index + count - 1;
            let mut name = String::new();
            push_zero_padded(&mut name, index, 16);
            push_str(&mut name, "-");
            push_zero_padded(&mut name, last, 16);
            let ghost prev = names@;
            names.push(name);
            proof {
                let t = closed.take(i + 1);
                lemma_closed_names_split(first, t, i as int);
                assert(t.take(i as int) =~= closed.take(i as int));
                assert(t.skip(i as int) =~= seq![closed[i as int]]);
                assert(closed_names(first + total_batches(closed.take(i as int)), seq![closed[i as int]]) =~= seq![closed_segment_name(index as nat, last as nat)]) by {
                    let one = seq![closed[i as int]];
                    let f = first + total_batches(closed.take(i as int));
                    assert(one.drop_first() =~= Seq::<Seq<Seq<EntryView>>>::empty());
                    assert(closed_names(f + one[0].len(), one.drop_first()) == Seq::<Seq<char>>::empty());
                    assert(count == closed[i as int].len());
                    assert(one[0].len() == count);
                    assert(closed_names(f, one) == seq![closed_segment_name(f, (f + one[0].len() - 1) as nat)] + closed_names(f + one[0].len(), one.drop_first()));
                }
                assert(strings_view(names@) =~= strings_view(prev).push(name@));
                assert(name@ == closed_segment_name(index as nat, last as nat));
                assert(strings_view(names@) =~= closed_names(first, closed.take(i + 1)));
            }
            index = last + 1;
            i += 1;
        }
        assert(closed.take(i as int) =~= closed);
        let ghost before = strings_view(names@);
        let mut j: usize = 0;
        while j < self.open_segments.len()
            invariant
                j <= self.open_segments.len(),
                strings_view(names@) == before + open_names(j as nat),
            decreases self.open_segments.len() - j,
        {
            let mut name = String::new();
            push_str(&mut name, "open-");
            push_decimal(&mut name, j as u64);
            let ghost prev = names@;
            names.push(name);
            assert(strings_view(names@) =~= strings_view(prev).push(name@));
            assert(open_names((j + 1) as nat) =~= open_names(j as nat).push(open_segment_name(j as nat)));
            assert(strings_view(names@) =~= before + open_names((j + 1) as nat));
            j += 1;
        }
        assert(self.spec_open().len() == self.open_segments@.len());
        names
    }
}

/// Closed segment files written by the creator are recognized again by their names, as long
/// as both indexes have at most 16 digits.
pub proof fn lemma_closed_segment_name_roundtrip(first: u64, last: u64)
    requires
        first < crate::text::pow10(16),
        last < crate::text::pow10(16),
    ensures
        segment_from_filename_spec(closed_segment_name(first as nat, last as nat)) == Some(
            RaftSegment::Closed { index_start: first, index_end: last },
        ),
{
    reveal_strlit("-");
    reveal_strlit("open-");
    crate::text::lemma_decimal_len_bound(first as nat, 16);
    crate::text::lemma_decimal_len_bound(last as nat, 16);
    crate::text::lemma_zero_padded(first, 16);
    crate::text::lemma_zero_padded(last, 16);
    let a = zero_padded(first as nat, 16);
    let b = zero_padded(last as nat, 16);
    let name = closed_segment_name(first as nat, last as nat);
    assert("-"@ =~= seq!['-']);
    assert(name =~= a + seq!['-'] + b);
    assert(crate::text::is_digit(a[0]));
    assert(name.take(5) != "open-"@) by {
        assert(name.take(5)[0] == a[0]);
    }
    assert(name[16] == '-');
    assert forall|j: int| 0 <= j < 16 implies name[j] != '-' by {
        assert(name[j] == a[j]);
        assert(crate::text::is_digit(a[j]));
    }
    assert(crate::text::first_index_of(name, '-') == Some(16int)) by {
        assert(exists|i: int| 0 <= i < name.len() && name[i] == '-');
        let w = choose|i: int| 0 <= i < name.len() && name[i] == '-' && forall|j: int| 0 <= j < i ==> name[j] != '-';
        assert(forall|j: int| 0 <= j < 16int ==> name[j] != '-');
        if w < 16 {
            assert(name[w] != '-');
        }
        if w > 16 {
            assert(name[16] != '-');
        }
    }
    assert(name.take(16) =~= a);
    assert(name.skip(17) =~= b);
}

/// Open segment files written by the creator are recognized again by their names.
pub proof fn lemma_open_segment_name_roundtrip(i: u64)
    ensures
        segment_from_filename_spec(open_segment_name(i as nat)) == Some(
            RaftSegment::Open { counter: i },
        ),
{
    let name = open_segment_name(i as nat);
    assert(name.take("open-"@.len() as int) =~= "open-"@);
    assert(name.skip("open-"@.len() as int) =~= decimal(i as nat));
    crate::text::lemma_parse_decimal(i);
}

} // verus!
