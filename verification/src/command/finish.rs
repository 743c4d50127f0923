//! The checks and rewrites of `.finish`, which writes the snapshot being built into a data
//! directory.

use vstd::prelude::*;

use crate::raft::RaftServer;
use crate::text::str_eq;

verus! {

/// Why `.finish` refuses to write the snapshot.
#[derive(Clone, Debug, PartialEq, Eq)]
pub enum FinishError {
    /// The configuration has no server.
    NoServers,
    /// An attached schema whose name is not a plain identifier.
    InvalidSchemaName { name: String },
    /// An attached database with a journal that is not a write-ahead log.
    NonWalJournal { name: String },
    /// Two attached databases with different page sizes.
    PageSizeMismatch { found: u32, expected: u32 },
    /// The target directory exists and holds files.
    DirectoryNotEmpty,
    /// A database file too short to hold its header.
    HeaderTooSmall,
}

/// The names a schema may have in a snapshot: ASCII letters and digits only.
pub const SCHEMA_NAME_PATTERN: &'static str = "^[a-zA-Z0-9]+$";

/// The size of the pieces in which database files are copied.
pub const COPY_CHUNK_SIZE: u64 = 4096;

/// Whether `regex::Regex` compiled from `pattern` matches somewhere in `text`; `false` where the
/// pattern does not compile.
pub uninterp spec fn regex_is_match(pattern: Seq<char>, text: Seq<char>) -> bool;

/// Whether `c` is an ASCII letter or digit.
pub open spec fn is_ascii_alphanumeric(c: char) -> bool {
    ('a' <= c && c <= 'z') || ('A' <= c && c <= 'Z') || ('0' <= c && c <= '9')
}

/// A name made of ASCII letters and digits only, at least one: what `SCHEMA_NAME_PATTERN`
/// matches.
pub open spec fn schema_name_valid(name: Seq<char>) -> bool {
    name.len() > 0 && forall|i: int| 0 <= i < name.len() ==> is_ascii_alphanumeric(#[trigger] name[i])
}

/// Compiles `pattern` with `regex::Regex::new` and calls `is_match` on `text`. Claimed: the
/// result is the named value `regex_is_match` of the pattern and the text; a pattern that does
/// not compile gives `false`. For the schema-name pattern `^[a-zA-Z0-9]+$` (anchored at both
/// ends, `$` matching only at the end of the text, as `regex` documents without multi-line
/// mode), the claim is that it matches exactly the non-empty texts of ASCII letters and digits.
#[verifier::external_body]
fn regex_matches(pattern: &str, text: &str) -> (r: bool)
    ensures
        r == regex_is_match(pattern@, text@),
        pattern@ == SCHEMA_NAME_PATTERN@ ==> r == schema_name_valid(text@),
{
    match regex::Regex::new(pattern) {
        Ok(re) => re.is_match(text),
        Err(_) => false,
    }
}

/// Whether a schema is left out of the snapshot: `raft` holds only the metadata, written
/// elsewhere, and `temp` cannot name a schema.
pub open spec fn schema_left_out(name: Seq<char>) -> bool {
    name == "raft"@ || name == "temp"@
}

/// The attached schemas that go into the snapshot, in the order given.
pub open spec fn schemas_to_write_spec(names: Seq<Seq<char>>) -> Seq<Seq<char>>
    decreases names.len(),
{
    if names.len() == 0 {
        Seq::empty()
    } else if schema_left_out(names.last()) {
        schemas_to_write_spec(names.drop_last())
    } else {
        schemas_to_write_spec(names.drop_last()).push(names.last())
    }
}

/// The attached schemas that go into the snapshot, in the order given.
pub fn schemas_to_write(names: &[String]) -> (r: Vec<String>)
    ensures
        crate::text::strings_view(r@) == schemas_to_write_spec(crate::text::strings_view(names@)),
{
    let ghost nv = crate::text::strings_view(names@);
    let mut r: Vec<String> = Vec::new();
    let mut k: usize = 0;
    while k < names.len()
        invariant
            k <= names.len(),
            nv == crate::text::strings_view(names@),
            crate::text::strings_view(r@) == schemas_to_write_spec(nv.take(k as int)),
        decreases names.len() - k,
    {
        let name = &names[k];
        let left_out = str_eq(name.as_str(), "raft") || str_eq(name.as_str(), "temp");
        proof {
            assert(nv.take(k + 1).drop_last() =~= nv.take(k as int));
            assert(nv.take(k + 1).last() == name@);
        }
        if !left_out {
            let ghost before = r@;
            r.push(name.clone());
            assert(crate::text::strings_view(r@) =~= crate::text::strings_view(before).push(name@));
        }
        k += 1;
    }
    assert(nv.take(k as int) =~= nv);
    r
}

/// Refuses a schema name that is not made of ASCII letters and digits.
pub fn check_schema_name(name: &str) -> (r: Result<(), FinishError>)
    ensures
        schema_name_valid(name@) ==> r is Ok,
        !schema_name_valid(name@) ==> (r matches Err(FinishError::InvalidSchemaName { name: n })
            && n@ == name@),
{
    if regex_matches(SCHEMA_NAME_PATTERN, name) {
        Ok(())
    } else {
        let mut n = String::new();
        crate::text::push_str(&mut n, name);
        Err(FinishError::InvalidSchemaName { name: n })
    }
}

/// Refuses a configuration without servers.
pub fn check_servers(servers: &[RaftServer]) -> (r: Result<(), FinishError>)
    ensures
        servers@.len() > 0 <==> r is Ok,
        servers@.len() == 0 ==> r == Err::<(), FinishError>(FinishError::NoServers),
{
    if servers.len() == 0 {
        Err(FinishError::NoServers)
    } else {
        Ok(())
    }
}

/// What `.finish` knows of an attached database.
#[derive(Clone, Debug, PartialEq, Eq)]
pub struct AttachedDbInfo {
    pub name: String,
    /// Whether the database has a journal file.
    pub has_journal: bool,
    /// Whether its journal mode is a write-ahead log.
    pub wal_mode: bool,
    pub page_size: u32,
}

/// Whether the database `dbs[i]` is refused: it has a journal other than a write-ahead log, or
/// a page size other than the first database's.
pub open spec fn db_refused(dbs: Seq<AttachedDbInfo>, i: int) -> bool {
    (dbs[i].has_journal && !dbs[i].wal_mode) || dbs[i].page_size != dbs[0].page_size
}

/// Whether `r` is the error for the refused database `dbs[i]`: its journal first, then its
/// page size.
pub open spec fn db_error_is(r: Result<(), FinishError>, dbs: Seq<AttachedDbInfo>, i: int) -> bool {
    if dbs[i].has_journal && !dbs[i].wal_mode {
        r matches Err(FinishError::NonWalJournal { name }) && name@ == dbs[i].name@
    } else {
        r == Err::<(), FinishError>(
            FinishError::PageSizeMismatch { found: dbs[i].page_size, expected: dbs[0].page_size },
        )
    }
}

/// Checks the attached databases in order, and refuses the first that has a journal other than
/// a write-ahead log or a page size other than the first database's.
pub fn check_dbs(dbs: &[AttachedDbInfo]) -> (r: Result<(), FinishError>)
    ensures
        (forall|i: int| 0 <= i < dbs@.len() ==> !db_refused(dbs@, i)) ==> r is Ok,
        forall|i: int|
            0 <= i < dbs@.len() && db_refused(dbs@, i) && (forall|j: int| 0 <= j < i ==> !db_refused(dbs@, j))
                ==> db_error_is(r, dbs@, i),
{
    let mut k: usize = 0;
    while k < dbs.len()
        invariant
            k <= dbs.len(),
            forall|j: int| 0 <= j < k ==> !db_refused(dbs@, j),
        decreases dbs.len() - k,
    {
        let db = &dbs[k];
        if db.has_journal && !db.wal_mode {
            assert(db_refused(dbs@, k as int));
            let mut name = String::new();
            crate::text::push_str(&mut name, db.name.as_str());
            return Err(FinishError::NonWalJournal { name });
        }
        let expected = dbs[0].page_size;
        if db.page_size != expected {
            assert(db_refused(dbs@, k as int));
            return Err(FinishError::PageSizeMismatch { found: db.page_size, expected });
        }
        k += 1;
    }
    Ok(())
}

/// Whether the target directory can take the snapshot: not where it exists with files in it.
/// Otherwise tells whether it existed before.
pub fn check_target_directory(exists: bool, has_entries: bool) -> (r: Result<bool, FinishError>)
    ensures
        (exists && has_entries) ==> r == Err::<bool, FinishError>(FinishError::DirectoryNotEmpty),
        !(exists && has_entries) ==> r == Ok::<bool, FinishError>(exists),
{
    if exists && has_entries {
        Err(FinishError::DirectoryNotEmpty)
    } else {
        Ok(exists)
    }
}

/// The offset of the file format write version in a database header.
pub const FILE_FORMAT_WRITE_VERSION_OFFSET: usize = 18;

/// The offset of the file format read version in a database header.
pub const FILE_FORMAT_READ_VERSION_OFFSET: usize = 19;

/// Marks a database header as that of a database in write-ahead-log mode: both file format
/// versions become 2; nothing else changes.
pub fn patch_header(header: &mut Vec<u8>)
    requires
        old(header).len() >= 100,
    ensures
        final(header)@ == old(header)@.update(18, 2).update(19, 2),
{
    header.set(FILE_FORMAT_WRITE_VERSION_OFFSET, 2);
    header.set(FILE_FORMAT_READ_VERSION_OFFSET, 2);
}

/// The size of the piece of a file of `len` bytes to copy at `offset`; none once the whole file
/// is copied.
pub fn next_chunk(offset: u64, len: u64) -> (r: Option<u64>)
    ensures
        offset >= len ==> r is None,
        offset < len ==> r == Some(
            if len - offset < COPY_CHUNK_SIZE {
                (len - offset) as u64
            } else {
                COPY_CHUNK_SIZE
            },
        ),
{
    if offset >= len {
        None
    } else if len - offset < COPY_CHUNK_SIZE {
        Some(len - offset)
    } else {
        Some(COPY_CHUNK_SIZE)
    }
}

/// Rewrites the first piece of a main database file as `.finish` writes it: its header marked
/// for write-ahead-log mode. Other pieces, and the pieces of other files, are left alone.
pub fn patch_chunk(chunk: &mut Vec<u8>, offset: u64, is_main: bool) -> (r: Result<(), FinishError>)
    ensures
        !(is_main && offset == 0) ==> (r is Ok && final(chunk)@ == old(chunk)@),
        (is_main && offset == 0 && old(chunk)@.len() < 100) ==> (r == Err::<(), FinishError>(
            FinishError::HeaderTooSmall,
        ) && final(chunk)@ == old(chunk)@),
        (is_main && offset == 0 && old(chunk)@.len() >= 100) ==> (r is Ok && final(chunk)@ == old(
            chunk,
        )@.update(18, 2).update(19, 2)),
{
    if is_main && offset == 0 {
        if chunk.len() < 100 {
            return Err(FinishError::HeaderTooSmall);
        }
        patch_header(chunk);
    }
    Ok(())
}

/// How many rows adding a server must change: exactly one.
pub fn check_server_inserted(rows_affected: usize) -> (r: Result<(), usize>)
    ensures
        rows_affected == 1 ==> r is Ok,
        rows_affected != 1 ==> r == Err::<(), usize>(rows_affected),
{
    if rows_affected != 1 {
        Err(rows_affected)
    } else {
        Ok(())
    }
}

} // verus!
