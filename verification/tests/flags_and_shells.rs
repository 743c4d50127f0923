use dqlite_utils::command::add_server::{
    insert_result, partition_flags, AddServerCommand, AddServerError, InsertOutcome,
};
use dqlite_utils::command::{Command, CommandError, ShellKind, ShellState};
use dqlite_utils::raft::RaftRole;
use dqlite_utils::sqlite_vfs::{
    to_code_result, AtomicWrite, FileType, IoCapabilities, LockLevel, OpenFlags, SqliteCode,
    SqliteError, SyncOptions, WalLock,
};

fn args(v: &[&str]) -> Vec<String> {
    v.iter().map(|s| s.to_string()).collect()
}

#[test]
fn flagged_add_server_parses() {
    assert_eq!(
        AddServerCommand::try_from_args(&args(&["a:1"])),
        Ok(AddServerCommand { address: "a:1".to_string(), role: RaftRole::Voter, id: None, set_self: false })
    );
    assert_eq!(
        AddServerCommand::try_from_args(&args(&["--self", "a:1", "Spare", "7"])),
        Ok(AddServerCommand { address: "a:1".to_string(), role: RaftRole::Spare, id: Some(7), set_self: true })
    );
    assert_eq!(
        AddServerCommand::try_from_args(&args(&["a:1", "--self", "standby"])),
        Ok(AddServerCommand { address: "a:1".to_string(), role: RaftRole::Standby, id: None, set_self: true })
    );
    assert_eq!(
        AddServerCommand::try_from_args(&args(&["--other", "a:1"])),
        Err(CommandError::UnrecognizedFlag { flag: "--other".to_string() })
    );
    assert_eq!(
        AddServerCommand::try_from_args(&args(&["--self", "--self", "a:1"])),
        Err(CommandError::UnrecognizedFlag { flag: "--self".to_string() })
    );
    assert_eq!(
        AddServerCommand::try_from_args(&args(&["--self"])),
        Err(CommandError::MissingArgument { name: "address" })
    );
    assert_eq!(
        AddServerCommand::try_from_args(&args(&["a", "voter", "1", "x"])),
        Err(CommandError::UnrecognizedArguments { args: args(&["x"]) })
    );
    assert_eq!(
        AddServerCommand::try_from_args(&args(&["a", "boss"])),
        Err(CommandError::InvalidRole { raw: "boss".to_string() })
    );
    assert_eq!(
        AddServerCommand::try_from_args(&args(&["a", "voter", "x"])),
        Err(CommandError::InvalidNumber { what: "id", raw: "x".to_string() })
    );
    let (flags, pos) = partition_flags(&args(&["x", "--a", "y", "--b"]));
    assert_eq!(flags, args(&["--a", "--b"]));
    assert_eq!(pos, args(&["x", "y"]));
}

#[test]
fn insertion_outcomes() {
    assert_eq!(insert_result(InsertOutcome::Inserted, true), Ok(true));
    assert_eq!(insert_result(InsertOutcome::Inserted, false), Ok(false));
    assert_eq!(insert_result(InsertOutcome::PrimaryKeyTaken, true), Err(AddServerError::IdInUse));
    assert_eq!(insert_result(InsertOutcome::UniqueTaken, true), Err(AddServerError::AddressInUse));
    assert_eq!(insert_result(InsertOutcome::Failed, false), Err(AddServerError::Failed));
}

fn run(state: &mut ShellState, line: &str) {
    let command = Command::from_str(line, None).unwrap();
    assert_eq!(command.check_available(state.kind), Ok(()));
    state.after(&command);
}

#[test]
fn shells_follow_commands() {
    let mut state = ShellState::root();
    assert_eq!((state.kind, state.prompt.as_str()), (ShellKind::Root, "> "));
    run(&mut state, ".snapshot");
    assert_eq!((state.kind, state.prompt.as_str()), (ShellKind::Snapshot, "snapshot> "));
    run(&mut state, ".set-index 4");
    assert_eq!((state.kind, state.prompt.as_str()), (ShellKind::Snapshot, "snapshot> "));
    run(&mut state, ".abort");
    assert_eq!((state.kind, state.prompt.as_str()), (ShellKind::Root, "> "));
    run(&mut state, ".open 12");
    assert_eq!((state.kind, state.prompt.as_str()), (ShellKind::Open, "open@12> "));
    run(&mut state, ".index 3");
    assert_eq!((state.kind, state.prompt.as_str()), (ShellKind::Open, "open@3> "));
    run(&mut state, ".close");
    assert_eq!((state.kind, state.prompt.as_str()), (ShellKind::Root, "> "));
    run(&mut state, ".open");
    assert_eq!(state.prompt.as_str(), "open@latest> ");
}

#[test]
fn open_flags() {
    let flags = OpenFlags::new(0x100 | 0x2 | 0x4);
    assert_eq!(flags.file_type(), FileType::MainDb);
    assert!(flags.read_write());
    assert!(flags.create());
    assert!(!flags.read_only());
    assert!(!flags.exclusive());
    assert!(!flags.delete_on_close());
    assert!(!flags.autoproxy());
    assert_eq!(OpenFlags::new(0x80000).file_type(), FileType::Wal);
    assert_eq!(OpenFlags::new(0x800 | 0x8).file_type(), FileType::MainJournal);
    let mut ro = OpenFlags::new(0x100 | 0x2);
    ro.set_read_only();
    assert!(ro.read_only());
    assert!(!ro.read_write());
    assert_eq!(ro.file_type(), FileType::MainDb);
}

#[test]
fn wal_locks() {
    let lock = WalLock::new(1, 2);
    assert_eq!(lock.mask, 0b110);
    assert!(!lock.write());
    assert!(lock.checkpoint());
    assert!(lock.recover());
    let reads = WalLock::new(3, 6);
    for i in 0..6 {
        assert!(reads.read(i));
    }
    assert!(!reads.read(6));
    assert!(!WalLock::from_u16(0xffff).read(6));
    assert!(WalLock::from_u16(1).write());
}

#[test]
fn sync_and_lock_flags() {
    assert_eq!(SyncOptions { full: false, data_only: false }.to_raw(), 0);
    assert_eq!(SyncOptions { full: true, data_only: false }.to_raw(), 3);
    assert_eq!(SyncOptions { full: true, data_only: true }.to_raw(), 19);
    for raw in 0..5 {
        assert_eq!(LockLevel::from_raw(raw).to_raw(), raw);
    }
    assert_eq!(LockLevel::from_raw(4), LockLevel::Exclusive);
    assert_eq!(LockLevel::NoLock.to_raw(), 0);
}

#[test]
fn io_capabilities() {
    let caps = IoCapabilities {
        atomic_write: AtomicWrite::Never,
        safe_append: false,
        sequential: false,
        undeletable_when_open: false,
        powersafe_overwrite: false,
        immutable: true,
        batch_atomic: false,
        subpage_read: false,
    };
    assert_eq!(caps.to_raw(), 0x2000);
    let caps = IoCapabilities {
        atomic_write: AtomicWrite::Block {
            size_512: true,
            size_1k: false,
            size_2k: false,
            size_4k: true,
            size_8k: false,
            size_16k: false,
            size_32k: false,
            size_64k: true,
        },
        safe_append: true,
        sequential: false,
        undeletable_when_open: false,
        powersafe_overwrite: true,
        immutable: false,
        batch_atomic: false,
        subpage_read: true,
    };
    assert_eq!(caps.to_raw(), 0x2 | 0x10 | 0x100 | 0x200 | 0x1000 | 0x8000);
    let always = IoCapabilities { atomic_write: AtomicWrite::Always, ..caps };
    assert_eq!(always.to_raw(), 0x1 | 0x200 | 0x1000 | 0x8000);
}

#[test]
fn sqlite_result_codes() {
    assert!(SqliteCode::from_rc(0).is_ok());
    assert!(!SqliteCode::from_rc(14).is_ok());
    assert_eq!(SqliteCode::from_rc(14).into_rc(), 14);
    assert!(SqliteError::from_rc(0).is_none());
    let err = SqliteError::from_rc(14).unwrap();
    assert_eq!(err.into_rc(), 14);
    assert_eq!(SqliteCode::from(err), SqliteCode(14));
    assert_eq!(to_code_result(Ok(())), SqliteCode(0));
    assert_eq!(to_code_result(Err(err)), SqliteCode(14));
    assert!(SqliteCode(0).to_result().is_ok());
    assert_eq!(SqliteCode(5).to_result().unwrap_err().into_rc(), 5);
    assert_eq!(SqliteCode(14).message(), "14 (unable to open database file)");
    assert_eq!(SqliteCode(-1).message(), "-1 (unknown error)");
    assert_eq!(err.message(), "14 (unable to open database file)");
}
