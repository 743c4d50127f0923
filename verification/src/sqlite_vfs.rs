//! The flags that SQLite's VFS interface passes: how a file is opened, which locks are asked
//! for, how a file is synced, and what a file can do.

use vstd::prelude::*;
use vstd::std_specs::convert::FromSpecImpl;

use crate::text::{decimal, push_char, push_decimal, push_str};

verus! {

pub const SQLITE_OPEN_READONLY: i32 = 1;
pub const SQLITE_OPEN_READWRITE: i32 = 2;
pub const SQLITE_OPEN_CREATE: i32 = 4;
pub const SQLITE_OPEN_DELETEONCLOSE: i32 = 8;
pub const SQLITE_OPEN_EXCLUSIVE: i32 = 16;
pub const SQLITE_OPEN_AUTOPROXY: i32 = 32;
pub const SQLITE_OPEN_MAIN_DB: i32 = 256;
pub const SQLITE_OPEN_TEMP_DB: i32 = 512;
pub const SQLITE_OPEN_TRANSIENT_DB: i32 = 1024;
pub const SQLITE_OPEN_MAIN_JOURNAL: i32 = 2048;
pub const SQLITE_OPEN_TEMP_JOURNAL: i32 = 4096;
pub const SQLITE_OPEN_SUBJOURNAL: i32 = 8192;
pub const SQLITE_OPEN_SUPER_JOURNAL: i32 = 16384;
pub const SQLITE_OPEN_WAL: i32 = 524288;

/// The bits of the open flags that tell the kind of file.
pub const FILE_TYPE_MASK: i32 = 0x0FFF00;

pub const SQLITE_SYNC_FULL: i32 = 3;
pub const SQLITE_SYNC_DATAONLY: i32 = 16;

pub const SQLITE_LOCK_NONE: i32 = 0;
pub const SQLITE_LOCK_SHARED: i32 = 1;
pub const SQLITE_LOCK_RESERVED: i32 = 2;
pub const SQLITE_LOCK_PENDING: i32 = 3;
pub const SQLITE_LOCK_EXCLUSIVE: i32 = 4;

pub const SQLITE_IOCAP_ATOMIC: i32 = 1;
pub const SQLITE_IOCAP_ATOMIC512: i32 = 2;
pub const SQLITE_IOCAP_ATOMIC1K: i32 = 4;
pub const SQLITE_IOCAP_ATOMIC2K: i32 = 8;
pub const SQLITE_IOCAP_ATOMIC4K: i32 = 16;
pub const SQLITE_IOCAP_ATOMIC8K: i32 = 32;
pub const SQLITE_IOCAP_ATOMIC16K: i32 = 64;
pub const SQLITE_IOCAP_ATOMIC32K: i32 = 128;
pub const SQLITE_IOCAP_ATOMIC64K: i32 = 256;
pub const SQLITE_IOCAP_SAFE_APPEND: i32 = 512;
pub const SQLITE_IOCAP_SEQUENTIAL: i32 = 1024;
pub const SQLITE_IOCAP_UNDELETABLE_WHEN_OPEN: i32 = 2048;
pub const SQLITE_IOCAP_POWERSAFE_OVERWRITE: i32 = 4096;
pub const SQLITE_IOCAP_IMMUTABLE: i32 = 8192;
pub const SQLITE_IOCAP_BATCH_ATOMIC: i32 = 16384;
pub const SQLITE_IOCAP_SUBPAGE_READ: i32 = 32768;

/// The kinds of file SQLite opens.
#[derive(Clone, Copy, Debug, PartialEq, Eq, Structural)]
pub enum FileType {
    MainDb,
    MainJournal,
    TempDb,
    TempJournal,
    TransientDb,
    Subjournal,
    SuperJournal,
    Wal,
}

/// The kind of file the open flags `bits` name, if they name one.
pub open spec fn file_type_spec(bits: i32) -> Option<FileType> {
    let t = bits & FILE_TYPE_MASK;
    if t == SQLITE_OPEN_MAIN_DB {
        Some(FileType::MainDb)
    } else if t == SQLITE_OPEN_MAIN_JOURNAL {
        Some(FileType::MainJournal)
    } else if t == SQLITE_OPEN_TEMP_DB {
        Some(FileType::TempDb)
    } else if t == SQLITE_OPEN_TEMP_JOURNAL {
        Some(FileType::TempJournal)
    } else if t == SQLITE_OPEN_TRANSIENT_DB {
        Some(FileType::TransientDb)
    } else if t == SQLITE_OPEN_SUBJOURNAL {
        Some(FileType::Subjournal)
    } else if t == SQLITE_OPEN_SUPER_JOURNAL {
        Some(FileType::SuperJournal)
    } else if t == SQLITE_OPEN_WAL {
        Some(FileType::Wal)
    } else {
        None
    }
}

/// The flags a file is opened with.
#[derive(Clone, Copy, Debug, PartialEq, Eq, Structural)]
pub struct OpenFlags {
    pub bits: i32,
}

impl OpenFlags {
    pub fn new(bits: i32) -> (r: OpenFlags)
        ensures
            r.bits == bits,
    {
        OpenFlags { bits }
    }

    /// The kind of file; the flags must name one.
    pub fn file_type(&self) -> (r: FileType)
        requires
            file_type_spec(self.bits) is Some,
        ensures
            Some(r) == file_type_spec(self.bits),
    {
        let t = self.bits & FILE_TYPE_MASK;
        if t == SQLITE_OPEN_MAIN_DB {
            FileType::MainDb
        } else if t == SQLITE_OPEN_MAIN_JOURNAL {
            FileType::MainJournal
        } else if t == SQLITE_OPEN_TEMP_DB {
            FileType::TempDb
        } else if t == SQLITE_OPEN_TEMP_JOURNAL {
            FileType::TempJournal
        } else if t == SQLITE_OPEN_TRANSIENT_DB {
            FileType::TransientDb
        } else if t == SQLITE_OPEN_SUBJOURNAL {
            FileType::Subjournal
        } else if t == SQLITE_OPEN_SUPER_JOURNAL {
            FileType::SuperJournal
        } else {
            FileType::Wal
        }
    }

    pub fn create(&self) -> (r: bool)
        ensures
            r == (self.bits & SQLITE_OPEN_CREATE != 0),
    {
        self.bits & SQLITE_OPEN_CREATE != 0
    }

    pub fn read_only(&self) -> (r: bool)
        ensures
            r == (self.bits & SQLITE_OPEN_READONLY != 0),
    {
        self.bits & SQLITE_OPEN_READONLY != 0
    }

    pub fn read_write(&self) -> (r: bool)
        ensures
            r == (self.bits & SQLITE_OPEN_READWRITE != 0),
    {
        self.bits & SQLITE_OPEN_READWRITE != 0
    }

    pub fn delete_on_close(&self) -> (r: bool)
        ensures
            r == (self.bits & SQLITE_OPEN_DELETEONCLOSE != 0),
    {
        self.bits & SQLITE_OPEN_DELETEONCLOSE != 0
    }

    pub fn exclusive(&self) -> (r: bool)
        ensures
            r == (self.bits & SQLITE_OPEN_EXCLUSIVE != 0),
    {
        self.bits & SQLITE_OPEN_EXCLUSIVE != 0
    }

    pub fn autoproxy(&self) -> (r: bool)
        ensures
            r == (self.bits & SQLITE_OPEN_AUTOPROXY != 0),
    {
        self.bits & SQLITE_OPEN_AUTOPROXY != 0
    }

    /// The flags with the file opened read-only: the read-write bit cleared, the read-only bit
    /// set.
    pub fn set_read_only(&mut self)
        ensures
            final(self).bits == (old(self).bits & !SQLITE_OPEN_READWRITE) | SQLITE_OPEN_READONLY,
    {
        self.bits = (self.bits & !SQLITE_OPEN_READWRITE) | SQLITE_OPEN_READONLY;
    }
}

/// The shared-memory locks of a write-ahead log that a call asks for, one bit each: the write
/// lock, the checkpoint lock, the recovery lock, then the read locks.
#[derive(Clone, Copy, Debug, PartialEq, Eq, Structural)]
pub struct WalLock {
    pub mask: u16,
}

pub const WAL_WRITE_LOCK: u16 = 0;
pub const WAL_CKPT_LOCK: u16 = 1;
pub const WAL_RECOVER_LOCK: u16 = 2;
pub const WAL_READ_LOCK_0: u16 = 3;

impl WalLock {
    /// The `n` locks from lock `offset` on.
    pub fn new(offset: u16, n: u16) -> (r: WalLock)
        requires
            offset + n < 16,
        ensures
            r.mask == ((1u16 << (offset + n) as u16) - (1u16 << offset)) as u16,
    {
        let hi: u16 = 1u16 << (offset + n);
        let lo: u16 = 1u16 << offset;
        assert(hi >= lo) by (bit_vector)
            requires
                hi == 1u16 << (offset + n) as u16,
                lo == 1u16 << offset,
                offset + n < 16,
        ;
        WalLock { mask: hi - lo }
    }

    pub fn from_u16(mask: u16) -> (r: WalLock)
        ensures
            r.mask == mask,
    {
        WalLock { mask }
    }

    pub fn write(&self) -> (r: bool)
        ensures
            r == (self.mask & (1u16 << WAL_WRITE_LOCK) != 0),
    {
        self.mask & (1u16 << WAL_WRITE_LOCK) != 0
    }

    pub fn checkpoint(&self) -> (r: bool)
        ensures
            r == (self.mask & (1u16 << WAL_CKPT_LOCK) != 0),
    {
        self.mask & (1u16 << WAL_CKPT_LOCK) != 0
    }

    pub fn recover(&self) -> (r: bool)
        ensures
            r == (self.mask & (1u16 << WAL_RECOVER_LOCK) != 0),
    {
        self.mask & (1u16 << WAL_RECOVER_LOCK) != 0
    }

    /// Whether read lock `index` is asked for; there are read locks 0 to 5.
    pub fn read(&self, index: u16) -> (r: bool)
        ensures
            index > 5 ==> !r,
            index <= 5 ==> r == (self.mask & (1u16 << (WAL_READ_LOCK_0 + index) as u16) != 0),
    {
        if index > 5 {
            return false;
        }
        self.mask & (1u16 << (WAL_READ_LOCK_0 + index)) != 0
    }
}

/// How a file is to be synced.
#[derive(Clone, Copy, Debug, PartialEq, Eq, Structural)]
pub struct SyncOptions {
    /// A full sync rather than a plain one.
    pub full: bool,
    /// The data only, not the metadata.
    pub data_only: bool,
}

impl SyncOptions {
    /// The sync flags SQLite passes for these options.
    pub fn to_raw(&self) -> (r: i32)
        ensures
            r == (if self.full { SQLITE_SYNC_FULL } else { 0 }) + (if self.data_only {
                SQLITE_SYNC_DATAONLY
            } else {
                0
            }),
    {
        let mut flags: i32 = 0;
        if self.full {
            flags = flags + SQLITE_SYNC_FULL;
        }
        if self.data_only {
            flags = flags + SQLITE_SYNC_DATAONLY;
        }
        flags
    }
}

/// The levels of file locks, weakest first.
#[derive(Clone, Copy, Debug, PartialEq, Eq, Structural)]
pub enum LockLevel {
    NoLock,
    Shared,
    Reserved,
    Pending,
    Exclusive,
}

pub open spec fn lock_raw_spec(l: LockLevel) -> i32 {
    match l {
        LockLevel::NoLock => SQLITE_LOCK_NONE,
        LockLevel::Shared => SQLITE_LOCK_SHARED,
        LockLevel::Reserved => SQLITE_LOCK_RESERVED,
        LockLevel::Pending => SQLITE_LOCK_PENDING,
        LockLevel::Exclusive => SQLITE_LOCK_EXCLUSIVE,
    }
}

impl LockLevel {
    /// The level SQLite passes as `level`, which must be one of 0 to 4.
    pub fn from_raw(level: i32) -> (r: LockLevel)
        requires
            0 <= level <= 4,
        ensures
            lock_raw_spec(r) == level,
    {
        if level == SQLITE_LOCK_NONE {
            LockLevel::NoLock
        } else if level == SQLITE_LOCK_SHARED {
            LockLevel::Shared
        } else if level == SQLITE_LOCK_RESERVED {
            LockLevel::Reserved
        } else if level == SQLITE_LOCK_PENDING {
            LockLevel::Pending
        } else {
            LockLevel::Exclusive
        }
    }

    pub fn to_raw(&self) -> (r: i32)
        ensures
            r == lock_raw_spec(*self),
    {
        match self {
            LockLevel::NoLock => SQLITE_LOCK_NONE,
            LockLevel::Shared => SQLITE_LOCK_SHARED,
            LockLevel::Reserved => SQLITE_LOCK_RESERVED,
            LockLevel::Pending => SQLITE_LOCK_PENDING,
            LockLevel::Exclusive => SQLITE_LOCK_EXCLUSIVE,
        }
    }
}

/// A lock level read back from its number is the same level, and every number from 0 to 4 is
/// the number of exactly one level.
pub proof fn lemma_lock_level_roundtrip(l: LockLevel, raw: i32)
    ensures
        0 <= lock_raw_spec(l) <= 4,
        (0 <= raw <= 4) ==> exists|m: LockLevel| lock_raw_spec(m) == raw,
        forall|m: LockLevel| lock_raw_spec(m) == lock_raw_spec(l) ==> m == l,
{
    if 0 <= raw <= 4 {
        if raw == 0 {
            assert(lock_raw_spec(LockLevel::NoLock) == raw);
        } else if raw == 1 {
            assert(lock_raw_spec(LockLevel::Shared) == raw);
        } else if raw == 2 {
            assert(lock_raw_spec(LockLevel::Reserved) == raw);
        } else if raw == 3 {
            assert(lock_raw_spec(LockLevel::Pending) == raw);
        } else {
            assert(lock_raw_spec(LockLevel::Exclusive) == raw);
        }
    }
}

/// Which sizes of atomic writes a file supports.
#[derive(Clone, Copy, Debug, PartialEq, Eq, Structural)]
pub enum AtomicWrite {
    Never,
    Block {
        size_512: bool,
        size_1k: bool,
        size_2k: bool,
        size_4k: bool,
        size_8k: bool,
        size_16k: bool,
        size_32k: bool,
        size_64k: bool,
    },
    Always,
}

/// What a file can do, as SQLite asks of it.
#[derive(Clone, Copy, Debug, PartialEq, Eq, Structural)]
pub struct IoCapabilities {
    pub atomic_write: AtomicWrite,
    pub safe_append: bool,
    pub sequential: bool,
    pub undeletable_when_open: bool,
    pub powersafe_overwrite: bool,
    pub immutable: bool,
    pub batch_atomic: bool,
    pub subpage_read: bool,
}

/// `flag` where `b` holds, else nothing.
#[verifier::opaque]
pub open spec fn flag_if(b: bool, flag: i32) -> int {
    if b {
        flag as int
    } else {
        0
    }
}

/// The flags of the atomic writes a file supports.
pub open spec fn atomic_bits(a: AtomicWrite) -> int {
    match a {
        AtomicWrite::Never => 0,
        AtomicWrite::Block { size_512, size_1k, size_2k, size_4k, size_8k, size_16k, size_32k, size_64k } =>
            flag_if(size_512, SQLITE_IOCAP_ATOMIC512) + flag_if(size_1k, SQLITE_IOCAP_ATOMIC1K) + flag_if(
            size_2k,
            SQLITE_IOCAP_ATOMIC2K,
        ) + flag_if(size_4k, SQLITE_IOCAP_ATOMIC4K) + flag_if(size_8k, SQLITE_IOCAP_ATOMIC8K) + flag_if(
            size_16k,
            SQLITE_IOCAP_ATOMIC16K,
        ) + flag_if(size_32k, SQLITE_IOCAP_ATOMIC32K) + flag_if(size_64k, SQLITE_IOCAP_ATOMIC64K),
        AtomicWrite::Always => SQLITE_IOCAP_ATOMIC as int,
    }
}

/// The capability flags SQLite reads for `c`: one distinct bit per capability.
#[verifier::opaque]
pub open spec fn io_capability_bits(c: IoCapabilities) -> int {
    atomic_bits(c.atomic_write) + flag_if(c.safe_append, SQLITE_IOCAP_SAFE_APPEND) + flag_if(
        c.sequential,
        SQLITE_IOCAP_SEQUENTIAL,
    ) + flag_if(c.undeletable_when_open, SQLITE_IOCAP_UNDELETABLE_WHEN_OPEN) + flag_if(
        c.powersafe_overwrite,
        SQLITE_IOCAP_POWERSAFE_OVERWRITE,
    ) + flag_if(c.immutable, SQLITE_IOCAP_IMMUTABLE) + flag_if(c.batch_atomic, SQLITE_IOCAP_BATCH_ATOMIC)
        + flag_if(c.subpage_read, SQLITE_IOCAP_SUBPAGE_READ)
}

fn flag(b: bool, f: i32) -> (r: i32)
    requires
        0 <= f,
    ensures
        r == flag_if(b, f),
        0 <= r <= f,
{
    reveal(flag_if);
    if b {
        f
    } else {
        0
    }
}

fn atomic_raw(a: AtomicWrite) -> (r: i32)
    ensures
        r == atomic_bits(a),
        0 <= r <= 511,
{
    match a {
        AtomicWrite::Never => 0,
        AtomicWrite::Block { size_512, size_1k, size_2k, size_4k, size_8k, size_16k, size_32k, size_64k } => {
            let a1 = flag(size_512, SQLITE_IOCAP_ATOMIC512);
            let a2 = a1 + flag(size_1k, SQLITE_IOCAP_ATOMIC1K);
            let a3 = a2 + flag(size_2k, SQLITE_IOCAP_ATOMIC2K);
            let a4 = a3 + flag(size_4k, SQLITE_IOCAP_ATOMIC4K);
            let a5 = a4 + flag(size_8k, SQLITE_IOCAP_ATOMIC8K);
            let a6 = a5 + flag(size_16k, SQLITE_IOCAP_ATOMIC16K);
            let a7 = a6 + flag(size_32k, SQLITE_IOCAP_ATOMIC32K);
            a7 + flag(size_64k, SQLITE_IOCAP_ATOMIC64K)
        },
        AtomicWrite::Always => SQLITE_IOCAP_ATOMIC,
    }
}

impl IoCapabilities {
    /// The capability flags SQLite reads for these capabilities.
    pub fn to_raw(&self) -> (r: i32)
        ensures
            r == io_capability_bits(*self),
    {
        let f0 = atomic_raw(self.atomic_write);
        let g1 = flag(self.safe_append, SQLITE_IOCAP_SAFE_APPEND);
        let g2 = flag(self.sequential, SQLITE_IOCAP_SEQUENTIAL);
        let g3 = flag(self.undeletable_when_open, SQLITE_IOCAP_UNDELETABLE_WHEN_OPEN);
        let g4 = flag(self.powersafe_overwrite, SQLITE_IOCAP_POWERSAFE_OVERWRITE);
        let g5 = flag(self.immutable, SQLITE_IOCAP_IMMUTABLE);
        let g6 = flag(self.batch_atomic, SQLITE_IOCAP_BATCH_ATOMIC);
        let g7 = flag(self.subpage_read, SQLITE_IOCAP_SUBPAGE_READ);
        let r = sum_flags(f0, g1, g2, g3, g4, g5, g6, g7);
        proof {
            reveal(io_capability_bits);
        }
        r
    }
}

fn sum_flags(f0: i32, g1: i32, g2: i32, g3: i32, g4: i32, g5: i32, g6: i32, g7: i32) -> (r: i32)
    requires
        0 <= f0 <= 511,
        0 <= g1 <= 512,
        0 <= g2 <= 1024,
        0 <= g3 <= 2048,
        0 <= g4 <= 4096,
        0 <= g5 <= 8192,
        0 <= g6 <= 16384,
        0 <= g7 <= 32768,
    ensures
        r == f0 + g1 + g2 + g3 + g4 + g5 + g6 + g7,
{
    f0 + g1 + g2 + g3 + g4 + g5 + g6 + g7
}


/// The result code of success.
pub const SQLITE_OK: i32 = 0;

/// SQLite's description of a result code.
pub uninterp spec fn sqlite_errstr(code: i32) -> Seq<char>;

/// `rusqlite::ffi::code_to_str`: SQLite's own description of a result code (what
/// `sqlite3_errstr` gives), or a fixed text for a code it does not know. The contract names the
/// text; it depends on the code alone.
#[verifier::external_body]
fn code_text(code: i32) -> (r: &'static str)
    ensures
        r@ == sqlite_errstr(code),
{
    rusqlite::ffi::code_to_str(code)
}

/// A number in decimal, with a minus sign where it is negative.
pub open spec fn signed_decimal(i: int) -> Seq<char> {
    if i < 0 {
        seq!['-'] + decimal((-i) as nat)
    } else {
        decimal(i as nat)
    }
}

/// The text of a result code: its number, then SQLite's description of it in brackets.
pub open spec fn code_message(code: i32) -> Seq<char> {
    signed_decimal(code as int) + seq![' ', '('] + sqlite_errstr(code) + seq![')']
}

fn describe_code(code: i32) -> (r: String)
    ensures
        r@ == code_message(code),
{
    let mut s = String::new();
    if code < 0 {
        push_char(&mut s, '-');
        let magnitude: i64 = -(code as i64);
        push_decimal(&mut s, magnitude as u64);
    } else {
        push_decimal(&mut s, code as u64);
    }
    push_char(&mut s, ' ');
    push_char(&mut s, '(');
    push_str(&mut s, code_text(code));
    push_char(&mut s, ')');
    proof {
        if code < 0 {
            assert(seq!['-'] + decimal((-code) as nat) =~= seq![].push('-') + decimal((-code) as nat));
        }
    }
    assert(s@ =~= code_message(code));
    s
}

/// A SQLite result code.
#[derive(Clone, Copy, Debug, PartialEq, Eq, Structural)]
pub struct SqliteCode(pub i32);

impl SqliteCode {
    /// A result code from its number.
    pub fn from_rc(rc: i32) -> (r: SqliteCode)
        ensures
            r.0 == rc,
    {
        SqliteCode(rc)
    }

    /// The number of the result code.
    pub fn into_rc(self) -> (r: i32)
        ensures
            r == self.0,
    {
        self.0
    }

    /// Whether the code is that of success.
    pub fn is_ok(&self) -> (r: bool)
        ensures
            r == (self.0 == SQLITE_OK),
    {
        self.0 == SQLITE_OK
    }

    /// The code as text: its number, then SQLite's description of it in brackets.
    pub fn message(&self) -> (r: String)
        ensures
            r@ == code_message(self.0),
    {
        describe_code(self.0)
    }

    /// Success where the code is that of success, else the code as an error.
    pub fn to_result(self) -> (r: Result<(), SqliteError>)
        ensures
            self.0 == SQLITE_OK ==> r is Ok,
            self.0 != SQLITE_OK ==> (r matches Err(e) && e.code() == self.0),
    {
        match SqliteError::from_rc(self.0) {
            Some(e) => Err(e),
            None => Ok(()),
        }
    }
}

/// A SQLite result code other than success.
#[derive(Clone, Copy, Debug)]
pub struct SqliteError {
    code: i32,
}

impl SqliteError {
    #[verifier::type_invariant]
    spec fn code_is_error(self) -> bool {
        self.code != SQLITE_OK
    }

    /// The number of the error's result code.
    pub closed spec fn code(self) -> i32 {
        self.code
    }

    /// The error of a result code: none for the code of success.
    pub fn from_rc(rc: i32) -> (r: Option<SqliteError>)
        ensures
            rc == SQLITE_OK <==> r is None,
            r matches Some(e) ==> e.code() == rc,
    {
        if rc == SQLITE_OK {
            None
        } else {
            Some(SqliteError { code: rc })
        }
    }

    /// The number of the error's result code, never that of success.
    pub fn into_rc(&self) -> (r: i32)
        ensures
            r == self.code(),
            r != SQLITE_OK,
    {
        proof {
            use_type_invariant(self);
        }
        self.code
    }

    /// The error as text, as its result code reads.
    pub fn message(&self) -> (r: String)
        ensures
            r@ == code_message(self.code()),
    {
        describe_code(self.code)
    }
}

impl From<SqliteError> for SqliteCode {
    fn from(err: SqliteError) -> (r: SqliteCode) {
        SqliteCode(err.into_rc())
    }
}

impl FromSpecImpl<SqliteError> for SqliteCode {
    open spec fn obeys_from_spec() -> bool {
        true
    }

    open spec fn from_spec(v: SqliteError) -> SqliteCode {
        SqliteCode(v.code())
    }
}

/// The result code of an outcome: that of success, or the error's own.
pub fn to_code_result(r: Result<(), SqliteError>) -> (c: SqliteCode)
    ensures
        match r {
            Ok(_) => c.0 == SQLITE_OK,
            Err(e) => c.0 == e.code(),
        },
{
    match r {
        Ok(_) => SqliteCode(SQLITE_OK),
        Err(e) => SqliteCode(e.into_rc()),
    }
}

} // verus!
