//! The files of a dqlite data directory: raft metadata, snapshots and segments.

use vstd::prelude::*;

use crate::bytes::{le_value, read_le};
use crate::text::{
    lemma_decimal_no_sep, lemma_parse_decimal, lemma_split_append_field, lemma_split_no_sep,
    chars_eq, chars_of, decimal, find_char, first_index_of, lemma_split_fields_nonempty,
    parse_u64, parse_u64_spec, push_decimal, push_str, split_at_seps, split_fields, starts_with,
    sub_chars,
};

verus! {

/// Size of a raft metadata file.
pub const METADATA_SIZE: usize = 32;

/// The only metadata disk format raft writes.
pub const RAFT_METADATA_DISK_FORMAT: u64 = 1;

/// The content of a raft metadata file (`metadata1` or `metadata2`).
#[derive(Clone, Copy, Debug, PartialEq, Eq, Structural)]
pub struct Metadata {
    pub version: u64,
    pub term: u64,
    pub voted_for: u64,
}

/// Why metadata could not be read.
#[derive(Clone, Copy, Debug, PartialEq, Eq, Structural)]
pub enum MetadataError {
    /// The file holds fewer than 32 bytes.
    TooShort,
    /// The file holds more than 32 bytes.
    TooLong,
    /// The first word is not the known disk format.
    FormatMismatch { format: u64 },
    /// The version word is zero.
    ZeroVersion,
    /// Both metadata files carry the same version.
    BothAtVersion { version: u64 },
    /// Neither metadata file could be read.
    Unreadable,
}

/// The `k`-th little-endian 64-bit word of `b`.
pub open spec fn word(b: Seq<u8>, k: int) -> nat {
    le_value(b.subrange(8 * k, 8 * k + 8))
}

/// What a metadata file holding the bytes `b` says.
pub open spec fn metadata_from_bytes(b: Seq<u8>) -> Result<Metadata, MetadataError> {
    if b.len() < 32 {
        Err(MetadataError::TooShort)
    } else if b.len() > 32 {
        Err(MetadataError::TooLong)
    } else if word(b, 0) != 1 {
        Err(MetadataError::FormatMismatch { format: word(b, 0) as u64 })
    } else if word(b, 1) == 0 {
        Err(MetadataError::ZeroVersion)
    } else {
        Ok(Metadata { version: word(b, 1) as u64, term: word(b, 2) as u64, voted_for: word(b, 3) as u64 })
    }
}

/// Which of the two metadata files is authoritative: the readable one, or the one with the
/// higher version.
pub open spec fn select_metadata(
    m1: Result<Metadata, MetadataError>,
    m2: Result<Metadata, MetadataError>,
) -> Result<Metadata, MetadataError> {
    match (m1, m2) {
        (Ok(a), Ok(b)) => if a.version == b.version {
            Err(MetadataError::BothAtVersion { version: a.version })
        } else if a.version > b.version {
            Ok(a)
        } else {
            Ok(b)
        },
        (Err(_), Ok(b)) => Ok(b),
        (Ok(a), Err(_)) => Ok(a),
        (Err(_), Err(_)) => Err(MetadataError::Unreadable),
    }
}

/// The metadata read from a file whose content is `content`, or `TooShort` for a file that
/// could not be read.
pub open spec fn metadata_from_file_spec(content: Option<Seq<u8>>) -> Result<Metadata, MetadataError> {
    match content {
        Some(b) => metadata_from_bytes(b),
        None => Err(MetadataError::TooShort),
    }
}

impl Metadata {
    /// Reads a metadata file from its whole content.
    pub fn from_file(content: &[u8]) -> (r: Result<Metadata, MetadataError>)
        ensures
            r == metadata_from_bytes(content@),
    {
        if content.len() < METADATA_SIZE {
            return Err(MetadataError::TooShort);
        }
        if content.len() > METADATA_SIZE {
            return Err(MetadataError::TooLong);
        }
        let format = read_le(content, 0, 8);
        if format != RAFT_METADATA_DISK_FORMAT {
            return Err(MetadataError::FormatMismatch { format });
        }
        let version = read_le(content, 8, 8);
        if version == 0 {
            return Err(MetadataError::ZeroVersion);
        }
        let term = read_le(content, 16, 8);
        let voted_for = read_le(content, 24, 8);
        Ok(Metadata { version, term, voted_for })
    }

    /// Picks the authoritative metadata out of the two files' outcomes.
    pub fn select(
        m1: Result<Metadata, MetadataError>,
        m2: Result<Metadata, MetadataError>,
    ) -> (r: Result<Metadata, MetadataError>)
        ensures
            r == select_metadata(m1, m2),
    {
        match (m1, m2) {
            (Ok(a), Ok(b)) => {
                if a.version == b.version {
                    Err(MetadataError::BothAtVersion { version: a.version })
                } else if a.version > b.version {
                    Ok(a)
                } else {
                    Ok(b)
                }
            },
            (Err(_), Ok(b)) => Ok(b),
            (Ok(a), Err(_)) => Ok(a),
            (Err(_), Err(_)) => Err(MetadataError::Unreadable),
        }
    }

    /// The metadata of a data directory, from the contents of `metadata1` and `metadata2`
    /// (`None` for a file that could not be read).
    pub fn from_folder(metadata1: Option<&[u8]>, metadata2: Option<&[u8]>) -> (r: Result<
        Metadata,
        MetadataError,
    >)
        ensures
            r == select_metadata(
                metadata_from_file_spec(
                    match metadata1 {
                        Some(b) => Some(b@),
                        None => None,
                    },
                ),
                metadata_from_file_spec(
                    match metadata2 {
                        Some(b) => Some(b@),
                        None => None,
                    },
                ),
            ),
    {
        let m1 = match metadata1 {
            Some(b) => Metadata::from_file(b),
            None => Err(MetadataError::TooShort),
        };
        let m2 = match metadata2 {
            Some(b) => Metadata::from_file(b),
            None => Err(MetadataError::TooShort),
        };
        Metadata::select(m1, m2)
    }
}

/// The message the tool shows for a metadata failure.
pub open spec fn metadata_error_message(e: MetadataError) -> Seq<char> {
    match e {
        MetadataError::TooShort => "failed to fill whole buffer"@,
        MetadataError::TooLong => "File is larger than 32 bytes"@,
        MetadataError::FormatMismatch { format } => "metadata format mismatch (format: "@ + decimal(
            format as nat,
        ) + ")"@,
        MetadataError::ZeroVersion => "metadata version must not be 0"@,
        MetadataError::BothAtVersion { version } => "corrupted metadata: both at version "@
            + decimal(version as nat),
        MetadataError::Unreadable => "couldn't read metadata files"@,
    }
}

impl MetadataError {
    /// A human-readable description of the failure.
    pub fn message(&self) -> (r: String)
        ensures
            r@ == metadata_error_message(*self),
    {
        let mut s = String::new();
        match self {
            MetadataError::TooShort => push_str(&mut s, "failed to fill whole buffer"),
            MetadataError::TooLong => push_str(&mut s, "File is larger than 32 bytes"),
            MetadataError::FormatMismatch { format } => {
                push_str(&mut s, "metadata format mismatch (format: ");
                push_decimal(&mut s, *format);
                push_str(&mut s, ")");
            },
            MetadataError::ZeroVersion => push_str(&mut s, "metadata version must not be 0"),
            MetadataError::BothAtVersion { version } => {
                push_str(&mut s, "corrupted metadata: both at version ");
                push_decimal(&mut s, *version);
            },
            MetadataError::Unreadable => push_str(&mut s, "couldn't read metadata files"),
        }
        s
    }
}

/// A raft snapshot, as its file names in the data directory describe it.
#[derive(Clone, Copy, Debug, PartialEq, Eq, Structural)]
pub struct RaftSnapshot {
    pub term: u64,
    pub index: u64,
    /// Creation time, in milliseconds since the UNIX epoch.
    pub created: u64,
    pub has_meta: bool,
    pub has_data: bool,
}

/// A raft segment, as its file name describes it.
#[derive(Clone, Copy, Debug, PartialEq, Eq, Structural)]
pub enum RaftSegment {
    Open { counter: u64 },
    /// Entries `index_start..index_end` as the file name spells them.
    Closed { index_start: u64, index_end: u64 },
}

pub open spec fn snapshot_prefix() -> Seq<char> {
    "snapshot-"@
}

/// The snapshot that the file name `name` stands for, if any: `snapshot-`, then the term,
/// the index and the creation time, separated by `-` or `.`, then optionally `meta` as the
/// last field (the metadata file) or any other fields (the data file).
pub open spec fn snapshot_from_filename_spec(name: Seq<char>) -> Option<RaftSnapshot> {
    let p = snapshot_prefix();
    if !(p.len() <= name.len() && name.take(p.len() as int) == p) {
        None
    } else {
        let parts = split_fields(name.skip(p.len() as int));
        if parse_u64_spec(parts[0]) is None || parts.len() < 2 || parse_u64_spec(parts[1]) is None
            || parts.len() < 3 || parse_u64_spec(parts[2]) is None {
            None
        } else {
            let is_meta = parts.len() >= 4 && parts[3] == "meta"@;
            if is_meta && parts.len() >= 5 {
                None
            } else {
                Some(
                    RaftSnapshot {
                        term: parse_u64_spec(parts[0])->0,
                        index: parse_u64_spec(parts[1])->0,
                        created: parse_u64_spec(parts[2])->0,
                        has_meta: is_meta,
                        has_data: !is_meta,
                    },
                )
            }
        }
    }
}

/// Whether two snapshot descriptions are about the same snapshot.
pub open spec fn same_snapshot(a: RaftSnapshot, b: RaftSnapshot) -> bool {
    a.term == b.term && a.index == b.index && a.created == b.created
}

/// `v` with `s` merged into the first entry about the same snapshot, or appended.
pub open spec fn match_or_add_spec(v: Seq<RaftSnapshot>, s: RaftSnapshot) -> Seq<RaftSnapshot>
    decreases v.len(),
{
    if v.len() == 0 {
        seq![s]
    } else if same_snapshot(v[0], s) {
        v.update(
            0,
            RaftSnapshot {
                has_data: v[0].has_data || s.has_data,
                has_meta: v[0].has_meta || s.has_meta,
                ..v[0]
            },
        )
    } else {
        seq![v[0]] + match_or_add_spec(v.drop_first(), s)
    }
}

/// The name of the data file of a snapshot.
pub open spec fn data_path_spec(s: RaftSnapshot) -> Seq<char> {
    "snapshot-"@ + decimal(s.term as nat) + "-"@ + decimal(s.index as nat) + "-"@ + decimal(
        s.created as nat,
    )
}

/// The name of the metadata file of a snapshot.
pub open spec fn meta_path_spec(s: RaftSnapshot) -> Seq<char> {
    data_path_spec(s) + ".meta"@
}

proof fn lemma_match_or_add_skip(v: Seq<RaftSnapshot>, s: RaftSnapshot, i: int)
    requires
        0 <= i <= v.len(),
        forall|j: int| 0 <= j < i ==> !same_snapshot(#[trigger] v[j], s),
    ensures
        match_or_add_spec(v, s) == v.take(i) + match_or_add_spec(v.skip(i), s),
    decreases i,
{
    if i == 0 {
        assert(v.skip(0) =~= v);
        assert(v.take(0) + match_or_add_spec(v, s) =~= match_or_add_spec(v, s));
    } else {
        let w = v.drop_first();
        assert forall|j: int| 0 <= j < i - 1 implies !same_snapshot(#[trigger] w[j], s) by {
            assert(w[j] == v[j + 1]);
        }
        lemma_match_or_add_skip(w, s, i - 1);
        assert(w.skip(i - 1) =~= v.skip(i));
        assert(!same_snapshot(v[0], s));
        assert(seq![v[0]] + w.take(i - 1) =~= v.take(i));
        assert(seq![v[0]] + (w.take(i - 1) + match_or_add_spec(v.skip(i), s)) =~= v.take(i)
            + match_or_add_spec(v.skip(i), s));
    }
}

impl RaftSnapshot {
    /// The snapshot that a file name stands for, or `None` for other file names.
    pub fn from_filename(filename: &str) -> (r: Option<RaftSnapshot>)
        ensures
            r == snapshot_from_filename_spec(filename@),
    {
        let name = chars_of(filename);
        let prefix = chars_of("snapshot-");
        if !starts_with(name.as_slice(), prefix.as_slice()) {
            return None;
        }
        let rest = sub_chars(name.as_slice(), prefix.len(), name.len());
        assert(rest@ =~= name@.skip(prefix@.len() as int));
        let parts = split_at_seps(rest.as_slice());
        proof {
            lemma_split_fields_nonempty(rest@);
        }
        let term = match parse_u64(parts[0].as_slice()) {
            Some(t) => t,
            None => return None,
        };
        if parts.len() < 2 {
            return None;
        }
        let index = match parse_u64(parts[1].as_slice()) {
            Some(t) => t,
            None => return None,
        };
        if parts.len() < 3 {
            return None;
        }
        let created = match parse_u64(parts[2].as_slice()) {
            Some(t) => t,
            None => return None,
        };
        let meta = chars_of("meta");
        let is_meta = parts.len() >= 4 && chars_eq(parts[3].as_slice(), meta.as_slice());
        if is_meta && parts.len() >= 5 {
            return None;
        }
        Some(RaftSnapshot { term, index, created, has_meta: is_meta, has_data: !is_meta })
    }

    /// Merges this description into the entry of `vec` about the same snapshot, or appends it.
    pub fn match_or_add(&self, vec: &mut Vec<RaftSnapshot>)
        ensures
            final(vec)@ == match_or_add_spec(old(vec)@, *self),
    {
        let mut i: usize = 0;
        while i < vec.len()
            invariant
                i <= vec.len(),
                vec@ == old(vec)@,
                forall|j: int| 0 <= j < i ==> !same_snapshot(#[trigger] vec@[j], *self),
            decreases vec.len() - i,
        {
            let other = vec[i];
            if other.term == self.term && other.index == self.index && other.created
                == self.created {
                proof {
                    lemma_match_or_add_skip(vec@, *self, i as int);
                    assert(vec@.skip(i as int)[0] == other);
                }
                let merged = RaftSnapshot {
                    has_data: other.has_data || self.has_data,
                    has_meta: other.has_meta || self.has_meta,
                    ..other
                };
                vec.set(i, merged);
                proof {
                    let tail = old(vec)@.skip(i as int);
                    assert(match_or_add_spec(tail, *self) == tail.update(0, merged));
                    assert(vec@ =~= old(vec)@.take(i as int) + tail.update(0, merged));
                }
                return;
            }
            i += 1;
        }
        proof {
            lemma_match_or_add_skip(vec@, *self, i as int);
            assert(vec@.skip(i as int) =~= Seq::<RaftSnapshot>::empty());
        }
        vec.push(*self);
        assert(vec@ =~= old(vec)@.take(i as int) + seq![*self]);
    }

    /// The name of the snapshot's data file.
    pub fn data_path(&self) -> (r: String)
        ensures
            r@ == data_path_spec(*self),
    {
        let mut s = String::new();
        push_str(&mut s, "snapshot-");
        push_decimal(&mut s, self.term);
        push_str(&mut s, "-");
        push_decimal(&mut s, self.index);
        push_str(&mut s, "-");
        push_decimal(&mut s, self.created);
        assert(s@ =~= data_path_spec(*self));
        s
    }

    /// The name of the snapshot's metadata file.
    pub fn meta_path(&self) -> (r: String)
        ensures
            r@ == meta_path_spec(*self),
    {
        let mut s = self.data_path();
        push_str(&mut s, ".meta");
        s
    }
}

pub open spec fn open_prefix() -> Seq<char> {
    "open-"@
}

/// The segment that the file name `name` stands for, if any: `open-` and a counter, or two
/// 16-character indexes separated by the first `-`. The lengths count characters; a field
/// that parses as a number is ASCII, so this is also its length in bytes.
pub open spec fn segment_from_filename_spec(name: Seq<char>) -> Option<RaftSegment> {
    let p = open_prefix();
    if p.len() <= name.len() && name.take(p.len() as int) == p {
        match parse_u64_spec(name.skip(p.len() as int)) {
            Some(counter) => Some(RaftSegment::Open { counter }),
            None => None,
        }
    } else {
        match first_index_of(name, '-') {
            None => None,
            Some(i) => {
                let start = name.take(i);
                let end = name.skip(i + 1);
                if start.len() != 16 || end.len() != 16 {
                    None
                } else if parse_u64_spec(start) is None || parse_u64_spec(end) is None {
                    None
                } else {
                    Some(
                        RaftSegment::Closed {
                            index_start: parse_u64_spec(start)->0,
                            index_end: parse_u64_spec(end)->0,
                        },
                    )
                }
            },
        }
    }
}

impl RaftSegment {
    /// The segment that a file name stands for, or `None` for other file names.
    pub fn from_filename(filename: &str) -> (r: Option<RaftSegment>)
        ensures
            r == segment_from_filename_spec(filename@),
    {
        let name = chars_of(filename);
        let prefix = chars_of("open-");
        if starts_with(name.as_slice(), prefix.as_slice()) {
            let rest = sub_chars(name.as_slice(), prefix.len(), name.len());
            assert(rest@ =~= name@.skip(prefix@.len() as int));
            return match parse_u64(rest.as_slice()) {
                Some(counter) => Some(RaftSegment::Open { counter }),
                None => None,
            };
        }
        let dash = match find_char(name.as_slice(), '-') {
            Some(i) => i,
            None => return None,
        };
        assert(dash < name.len());
        let start = sub_chars(name.as_slice(), 0, dash);
        let end = sub_chars(name.as_slice(), dash + 1, name.len());
        assert(start@ =~= name@.take(dash as int));
        assert(end@ =~= name@.skip(dash + 1));
        if start.len() != 16 || end.len() != 16 {
            return None;
        }
        let index_start = match parse_u64(start.as_slice()) {
            Some(v) => v,
            None => return None,
        };
        let index_end = match parse_u64(end.as_slice()) {
            Some(v) => v,
            None => return None,
        };
        Some(RaftSegment::Closed { index_start, index_end })
    }
}

/// The three number fields of a snapshot's file names split apart again.
proof fn lemma_snapshot_fields(s: RaftSnapshot)
    ensures
        split_fields(
            decimal(s.term as nat) + "-"@ + decimal(s.index as nat) + "-"@ + decimal(s.created as nat),
        ) == seq![decimal(s.term as nat), decimal(s.index as nat), decimal(s.created as nat)],
{
    reveal_strlit("-");
    let t = decimal(s.term as nat);
    let i = decimal(s.index as nat);
    let c = decimal(s.created as nat);
    assert("-"@ =~= seq!['-']);
    lemma_decimal_no_sep(s.term as nat);
    lemma_decimal_no_sep(s.index as nat);
    lemma_decimal_no_sep(s.created as nat);
    lemma_split_no_sep(t);
    lemma_split_append_field(t, '-', i);
    lemma_split_append_field(t + seq!['-'] + i, '-', c);
    assert(seq![t].push(i).push(c) =~= seq![t, i, c]);
}

/// A snapshot is found again from the name of its data file.
pub proof fn lemma_data_path_roundtrip(s: RaftSnapshot)
    ensures
        snapshot_from_filename_spec(data_path_spec(s)) == Some(
            RaftSnapshot { has_meta: false, has_data: true, ..s },
        ),
{
    let rest = decimal(s.term as nat) + "-"@ + decimal(s.index as nat) + "-"@ + decimal(
        s.created as nat,
    );
    let p = snapshot_prefix();
    let name = data_path_spec(s);
    assert(name =~= p + rest);
    assert(name.take(p.len() as int) =~= p);
    assert(name.skip(p.len() as int) =~= rest);
    lemma_snapshot_fields(s);
    lemma_parse_decimal(s.term);
    lemma_parse_decimal(s.index);
    lemma_parse_decimal(s.created);
}

/// A snapshot is found again from the name of its metadata file.
pub proof fn lemma_meta_path_roundtrip(s: RaftSnapshot)
    ensures
        snapshot_from_filename_spec(meta_path_spec(s)) == Some(
            RaftSnapshot { has_meta: true, has_data: false, ..s },
        ),
{
    reveal_strlit(".meta");
    reveal_strlit("meta");
    let rest = decimal(s.term as nat) + "-"@ + decimal(s.index as nat) + "-"@ + decimal(
        s.created as nat,
    );
    let p = snapshot_prefix();
    let name = meta_path_spec(s);
    assert(".meta"@ =~= seq!['.'] + "meta"@);
    assert(name =~= p + (rest + seq!['.'] + "meta"@));
    assert(name.take(p.len() as int) =~= p);
    assert(name.skip(p.len() as int) =~= rest + seq!['.'] + "meta"@);
    lemma_snapshot_fields(s);
    lemma_split_append_field(rest, '.', "meta"@);
    lemma_parse_decimal(s.term);
    lemma_parse_decimal(s.index);
    lemma_parse_decimal(s.created);
    let parts = split_fields(rest + seq!['.'] + "meta"@);
    assert(parts.len() == 4);
    assert(parts[3] == "meta"@);
}

/// No two entries of `v` describe the same snapshot.
pub open spec fn distinct_snapshots(v: Seq<RaftSnapshot>) -> bool {
    forall|i: int, j: int| 0 <= i < j < v.len() ==> !same_snapshot(#[trigger] v[i], #[trigger] v[j])
}

/// Merging a description keeps the descriptions of a list distinct.
pub proof fn lemma_match_or_add_distinct(v: Seq<RaftSnapshot>, s: RaftSnapshot)
    requires
        distinct_snapshots(v),
    ensures
        distinct_snapshots(match_or_add_spec(v, s)),
        match_or_add_spec(v, s).len() <= v.len() + 1,
        forall|k: int| 0 <= k < match_or_add_spec(v, s).len() ==> (exists|j: int| 0 <= j < v.len() && same_snapshot(#[trigger] match_or_add_spec(v, s)[k], v[j])) || same_snapshot(match_or_add_spec(v, s)[k], s),
    decreases v.len(),
{
    let r = match_or_add_spec(v, s);
    if v.len() == 0 {
    } else if same_snapshot(v[0], s) {
        assert forall|k: int| 0 <= k < r.len() implies (exists|j: int| 0 <= j < v.len() && same_snapshot(#[trigger] r[k], v[j])) || same_snapshot(r[k], s) by {
            assert(same_snapshot(r[k], v[k]));
        }
    } else {
        let w = v.drop_first();
        assert(distinct_snapshots(w)) by {
            assert forall|i: int, j: int| 0 <= i < j < w.len() implies !same_snapshot(#[trigger] w[i], #[trigger] w[j]) by {
                assert(w[i] == v[i + 1] && w[j] == v[j + 1]);
            }
        }
        lemma_match_or_add_distinct(w, s);
        let t = match_or_add_spec(w, s);
        assert(r =~= seq![v[0]] + t);
        assert forall|k: int| 0 <= k < t.len() implies !same_snapshot(v[0], #[trigger] t[k]) by {
            if !same_snapshot(t[k], s) {
                let j = choose|j: int| 0 <= j < w.len() && same_snapshot(t[k], w[j]);
                assert(w[j] == v[j + 1]);
            }
        }
        assert forall|i: int, j: int| 0 <= i < j < r.len() implies !same_snapshot(#[trigger] r[i], #[trigger] r[j]) by {
            if i == 0 {
                assert(r[j] == t[j - 1]);
            } else {
                assert(r[i] == t[i - 1] && r[j] == t[j - 1]);
            }
        }
        assert forall|k: int| 0 <= k < r.len() implies (exists|j: int| 0 <= j < v.len() && same_snapshot(#[trigger] r[k], v[j])) || same_snapshot(r[k], s) by {
            if k == 0 {
                assert(same_snapshot(r[0], v[0]));
            } else {
                assert(r[k] == t[k - 1]);
                if !same_snapshot(t[k - 1], s) {
                    let j = choose|j: int| 0 <= j < w.len() && same_snapshot(t[k - 1], w[j]);
                    assert(w[j] == v[j + 1]);
                }
            }
        }
    }
}

/// Merging the same description twice changes nothing more than merging it once.
pub proof fn lemma_match_or_add_idempotent(v: Seq<RaftSnapshot>, s: RaftSnapshot)
    ensures
        match_or_add_spec(match_or_add_spec(v, s), s) == match_or_add_spec(v, s),
    decreases v.len(),
{
    if v.len() == 0 {
        assert(match_or_add_spec(seq![s], s) =~= seq![s]);
    } else if same_snapshot(v[0], s) {
        let r = match_or_add_spec(v, s);
        assert(same_snapshot(r[0], s));
        assert(r.update(0, RaftSnapshot { has_data: r[0].has_data || s.has_data, has_meta: r[0].has_meta || s.has_meta, ..r[0] }) =~= r);
    } else {
        let w = v.drop_first();
        lemma_match_or_add_idempotent(w, s);
        let r = match_or_add_spec(v, s);
        assert(r[0] == v[0]);
        assert(r.drop_first() =~= match_or_add_spec(w, s));
    }
}

/// The snapshots that the files `names` describe, in the order the names come.
pub open spec fn snapshots_of(names: Seq<Seq<char>>) -> Seq<RaftSnapshot>
    decreases names.len(),
{
    if names.len() == 0 {
        Seq::empty()
    } else {
        let prev = snapshots_of(names.drop_last());
        match snapshot_from_filename_spec(names.last()) {
            Some(s) => match_or_add_spec(prev, s),
            None => prev,
        }
    }
}

/// The segments that the files `names` describe, in the order the names come.
pub open spec fn segments_of(names: Seq<Seq<char>>) -> Seq<RaftSegment>
    decreases names.len(),
{
    if names.len() == 0 {
        Seq::empty()
    } else {
        let prev = segments_of(names.drop_last());
        match segment_from_filename_spec(names.last()) {
            Some(s) => prev.push(s),
            None => prev,
        }
    }
}

/// The snapshots found in a directory listing never describe the same snapshot twice.
pub proof fn lemma_snapshots_of_distinct(names: Seq<Seq<char>>)
    ensures
        distinct_snapshots(snapshots_of(names)),
    decreases names.len(),
{
    if names.len() > 0 {
        lemma_snapshots_of_distinct(names.drop_last());
        if let Some(s) = snapshot_from_filename_spec(names.last()) {
            lemma_match_or_add_distinct(snapshots_of(names.drop_last()), s);
        }
    }
}

/// The names of a list of strings.
pub open spec fn names_of(v: Seq<String>) -> Seq<Seq<char>> {
    v.map_values(|s: String| s@)
}

/// The raft state of a data directory, as its file names and metadata describe it.
#[derive(Debug)]
pub struct DqliteState {
    pub folder: String,
    pub term: u64,
    pub index: u64,
    pub voted_for: u64,
    pub snapshots: Vec<RaftSnapshot>,
    pub segments: Vec<RaftSegment>,
}

impl DqliteState {
    /// The state of the directory `folder`, from the contents of its two metadata files
    /// (`None` for one that could not be read) and the names of its regular files.
    pub fn from(
        folder: String,
        metadata1: Option<&[u8]>,
        metadata2: Option<&[u8]>,
        file_names: &[String],
    ) -> (r: Result<DqliteState, MetadataError>)
        ensures
            match select_metadata(
                metadata_from_file_spec(
                    match metadata1 {
                        Some(b) => Some(b@),
                        None => None,
                    },
                ),
                metadata_from_file_spec(
                    match metadata2 {
                        Some(b) => Some(b@),
                        None => None,
                    },
                ),
            ) {
                Err(e) => r == Err::<DqliteState, MetadataError>(e),
                Ok(m) => r matches Ok(st) && st.folder@ == folder@ && st.term == m.term
                    && st.index == 1 && st.voted_for == m.voted_for && st.snapshots@
                    == snapshots_of(names_of(file_names@)) && st.segments@ == segments_of(
                    names_of(file_names@),
                ),
            },
    {
        let metadata = match Metadata::from_folder(metadata1, metadata2) {
            Ok(m) => m,
            Err(e) => return Err(e),
        };
        let mut snapshots: Vec<RaftSnapshot> = Vec::new();
        let mut segments: Vec<RaftSegment> = Vec::new();
        let mut i: usize = 0;
        while i < file_names.len()
            invariant
                i <= file_names.len(),
                snapshots@ == snapshots_of(names_of(file_names@.take(i as int))),
                segments@ == segments_of(names_of(file_names@.take(i as int))),
            decreases file_names.len() - i,
        {
            let ghost prev = names_of(file_names@.take(i as int));
            let ghost next = names_of(file_names@.take(i + 1));
            assert(next.drop_last() =~= prev);
            assert(next.last() == file_names@[i as int]@);
            let name = file_names[i].as_str();
            match RaftSnapshot::from_filename(name) {
                Some(snapshot) => snapshot.match_or_add(&mut snapshots),
                None => {},
            }
            match RaftSegment::from_filename(name) {
                Some(segment) => segments.push(segment),
                None => {},
            }
            i += 1;
        }
        assert(file_names@.take(file_names.len() as int) =~= file_names@);
        Ok(
            DqliteState {
                folder,
                term: metadata.term,
                index: 1,
                voted_for: metadata.voted_for,
                snapshots,
                segments,
            },
        )
    }
}

/// The metadata of a directory does not depend on which file is called `metadata1`.
pub proof fn lemma_select_metadata_symmetric(
    m1: Result<Metadata, MetadataError>,
    m2: Result<Metadata, MetadataError>,
)
    requires
        m1 is Ok || m2 is Ok,
    ensures
        select_metadata(m1, m2) == select_metadata(m2, m1),
{
}

/// The selected metadata is one of the two readable ones, and no readable one has a higher
/// version.
pub proof fn lemma_select_metadata_newest(
    m1: Result<Metadata, MetadataError>,
    m2: Result<Metadata, MetadataError>,
)
    ensures
        select_metadata(m1, m2) matches Ok(m) ==> (m1 == Ok::<Metadata, MetadataError>(m) || m2
            == Ok::<Metadata, MetadataError>(m)) && (m1 matches Ok(a) ==> a.version <= m.version)
            && (m2 matches Ok(b) ==> b.version <= m.version),
        select_metadata(m1, m2) is Err <==> (m1 is Err && m2 is Err) || (m1 matches Ok(a)
            && m2 matches Ok(b) && a.version == b.version),
{
}

} // verus!
