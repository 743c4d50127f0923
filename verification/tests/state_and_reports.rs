use dqlite_utils::command::finish::{
    check_dbs, check_schema_name, check_server_inserted, check_servers, check_target_directory,
    next_chunk, patch_chunk, patch_header, schemas_to_write, AttachedDbInfo, FinishError,
};
use dqlite_utils::command::snapshot::{AuthAction, Authorization, InfoCommand, SnapshotShell};
use dqlite_utils::command::{ConfigCommand, LogCommand, StatusCommand};
use dqlite_utils::dir::{
    barrier_payload, classify_entry, encoded_page_size, frames_page_size, valid_entry_payload,
    DirError, DqliteDir, DqliteFrame, DqliteLogEntry, DqliteLogEntryContent, DqliteSegment,
    DqliteSnapshot, EntryPayload, SegmentError, RAFT_BARRIER, RAFT_CHANGE, RAFT_COMMAND,
};
use dqlite_utils::dqlite::{DqliteState, Metadata, MetadataError, RaftSegment, RaftSnapshot};
use dqlite_utils::info::InfoCommand as StateInfo;
use dqlite_utils::interactive::{completions, highlight, validate, Highlight, Validation};
use dqlite_utils::log::{log_last_index, LogWriter};
use dqlite_utils::point_in_time::{
    decode_database_size, entries_after, first_loaded_index, main_page_count, main_pages, open_decision,
    page_number_for_read, pragma_answer, wal_frame_count, wal_frame_page_number, wal_pages, IndexRange,
    PointInTimeError,
};
use dqlite_utils::prompt::Prompt;
use dqlite_utils::raft::{RaftConfiguration, RaftErrorStr, RaftRole, RaftServer};
use dqlite_utils::runner::{Args, Runner};
use dqlite_utils::command::Command;

fn server(id: u64, address: &str, role: RaftRole) -> RaftServer {
    RaftServer { id, address: address.to_string(), role }
}

fn entry(term: u64, content: DqliteLogEntryContent) -> DqliteLogEntry {
    DqliteLogEntry { term, content }
}

// ------------------------------------------------------------------------------------------
// Directory state
// ------------------------------------------------------------------------------------------

#[test]
fn mod_test_non_dqlite_folder() {
    let err = DqliteDir::from_parts(0, 1, 0, vec![], vec![]).unwrap_err();
    assert_eq!(err, DirError::NotDqliteFolder);
    assert!(err.message().contains("not ad dqlite folder"));
}

#[test]
fn mod_test_metadata_only() {
    // The creator stores metadata at version 1 with its term and vote; the directory is then
    // read back from that metadata file and an empty listing.
    let creator = DqliteDir::creator("dir".to_string());
    let stored = metadata_bytes(1, 1, creator.term(), creator.voted_for());
    let meta = Metadata::from_folder(Some(stored.as_slice()), None).unwrap();
    let state = DqliteDir::from_parts(meta.version, meta.term, meta.voted_for, vec![], vec![]).unwrap();
    assert_eq!(state.term(), 1);
    assert_eq!(state.voted_for(), 0);
    assert_eq!(state.first_index(), 1);
    assert_eq!(state.snapshots().len(), 0);
    assert_eq!(state.segments().len(), 0);
}

#[test]
fn metadata_files_are_read_from_a_folder() {
    // A folder, as the names and contents of its files.
    let read = |folder: &[(&str, Vec<u8>)], name: &str| {
        folder.iter().find(|(n, _)| *n == name).map(|(_, content)| content.clone())
    };
    let names = |folder: &[(&str, Vec<u8>)]| folder.iter().map(|(n, _)| n.to_string()).collect::<Vec<_>>();
    let open = |folder: &[(&str, Vec<u8>)]| {
        let m1 = read(folder, "metadata1");
        let m2 = read(folder, "metadata2");
        DqliteState::from("dir".to_string(), m1.as_deref(), m2.as_deref(), &names(folder))
    };

    // A folder without metadata files.
    let err = open(&[]).unwrap_err();
    assert_eq!(err, MetadataError::Unreadable);
    assert_eq!(err.message(), "couldn't read metadata files");

    // Metadata as the creator writes it: format 1, version 1, term 1, no vote.
    let folder = [("metadata1", metadata_bytes(1, 1, 1, 0))];
    let state = open(&folder).unwrap();
    assert_eq!(state.term, 1);
    assert_eq!(state.voted_for, 0);
    let m1 = read(&folder, "metadata1").unwrap();
    let meta = Metadata::from_folder(Some(m1.as_slice()), None).unwrap();
    let dir = DqliteDir::from_parts(meta.version, meta.term, meta.voted_for, vec![], vec![]).unwrap();
    assert_eq!(dir.term(), 1);
    assert_eq!(dir.voted_for(), 0);
    assert_eq!(dir.first_index(), 1);

    // A metadata file at version zero, alone in its folder.
    let folder = [("metadata1", metadata_bytes(1, 0, 1, 0))];
    assert_eq!(open(&folder).unwrap_err().message(), "couldn't read metadata files");
    let m1 = read(&folder, "metadata1").unwrap();
    assert_eq!(Metadata::from_file(&m1).unwrap_err().message(), "metadata version must not be 0");
    assert_eq!(
        DqliteDir::from_parts(0, 1, 0, vec![], vec![]).unwrap_err().message(),
        "not ad dqlite folder"
    );

    // A file cut short, and one with the wrong format.
    let folder = [("metadata1", metadata_bytes(1, 1, 1, 0)[..20].to_vec()), ("metadata2", metadata_bytes(7, 1, 1, 0))];
    let m1 = read(&folder, "metadata1").unwrap();
    let m2 = read(&folder, "metadata2").unwrap();
    assert_eq!(Metadata::from_file(&m1).unwrap_err().message(), "failed to fill whole buffer");
    assert_eq!(Metadata::from_file(&m2).unwrap_err().message(), "metadata format mismatch (format: 7)");
}

#[test]
fn entries_are_classified() {
    let zeros = [0u8; 8];
    let mut bad = [0u8; 8];
    bad[7] = 1;
    assert_eq!(classify_entry(RAFT_BARRIER, &zeros), Ok(EntryPayload::Barrier));
    assert_eq!(classify_entry(RAFT_BARRIER, &bad), Err(SegmentError::InvalidBarrier));
    assert_eq!(classify_entry(RAFT_BARRIER, &zeros[..7]), Err(SegmentError::InvalidBarrier));
    assert_eq!(classify_entry(RAFT_CHANGE, &bad), Ok(EntryPayload::Configuration));
    assert_eq!(classify_entry(RAFT_COMMAND, &[]), Ok(EntryPayload::Command));
    assert_eq!(classify_entry(9, &zeros), Err(SegmentError::UnknownEntryType { entry_type: 9 }));
    assert_eq!(valid_entry_payload(RAFT_BARRIER, &zeros), EntryPayload::Barrier);
    assert_eq!(valid_entry_payload(RAFT_CHANGE, &bad), EntryPayload::Configuration);
    assert_eq!(valid_entry_payload(RAFT_COMMAND, &[1, 2]), EntryPayload::Command);
    assert_eq!(barrier_payload(), vec![0u8; 8]);
}

#[test]
fn frames_share_one_page_size() {
    let frame = |n: u64, len: usize| DqliteFrame { page_number: n, data: vec![7; len] };
    let same = vec![frame(1, 4), frame(3, 4)];
    assert_eq!(frames_page_size(&same), Some(4));
    assert_eq!(encoded_page_size(&same), 4);
    assert_eq!(frames_page_size(&[frame(1, 4), frame(2, 8)]), None);
    assert_eq!(frames_page_size(&[]), None);
}

#[test]
fn segment_and_dir_errors_have_messages() {
    assert_eq!(SegmentError::InvalidSegmentFile.message(), "invalid segment file");
    assert_eq!(SegmentError::UnsupportedFormat.message(), "unsupported segment file format");
    assert_eq!(SegmentError::CorruptSegmentFile.message(), "corrupt segment file");
    assert_eq!(SegmentError::InvalidBarrier.message(), "invalid barrier entry");
    assert_eq!(SegmentError::UnknownEntryType { entry_type: 9 }.message(), "unknown entry type: 9");
    assert_eq!(DirError::NoConfiguration.message(), "cannot find configuration");
}

fn metadata_bytes(format: u64, version: u64, term: u64, voted_for: u64) -> Vec<u8> {
    let mut v = Vec::new();
    for w in [format, version, term, voted_for] {
        v.extend_from_slice(&w.to_le_bytes());
    }
    v
}

#[test]
fn metadata_picks_newest_version() {
    let m1 = metadata_bytes(1, 3, 7, 2);
    let m2 = metadata_bytes(1, 4, 8, 1);
    assert_eq!(
        Metadata::from_folder(Some(m1.as_slice()), Some(m2.as_slice())),
        Ok(Metadata { version: 4, term: 8, voted_for: 1 })
    );
    assert_eq!(
        Metadata::from_folder(Some(m1.as_slice()), None),
        Ok(Metadata { version: 3, term: 7, voted_for: 2 })
    );
    assert_eq!(
        Metadata::from_folder(Some(m1.as_slice()), Some(m1.as_slice())),
        Err(MetadataError::BothAtVersion { version: 3 })
    );
    assert_eq!(Metadata::from_file(&m1[..31]), Err(MetadataError::TooShort));
    assert_eq!(
        Metadata::from_file(&metadata_bytes(2, 1, 1, 1)),
        Err(MetadataError::FormatMismatch { format: 2 })
    );
    assert_eq!(Metadata::from_file(&metadata_bytes(1, 0, 1, 1)), Err(MetadataError::ZeroVersion));
}

#[test]
fn state_reads_file_names() {
    let m = metadata_bytes(1, 2, 5, 3);
    let names: Vec<String> = [
        "metadata1",
        "0000000000000001-0000000000000010",
        "open-1",
        "snapshot-2-10-1234",
        "snapshot-2-10-1234.meta",
        "junk",
    ]
    .iter()
    .map(|s| s.to_string())
    .collect();
    let state = DqliteState::from("/data".to_string(), Some(m.as_slice()), None, &names).unwrap();
    assert_eq!(state.term, 5);
    assert_eq!(state.voted_for, 3);
    assert_eq!(state.segments, vec![
        RaftSegment::Closed { index_start: 1, index_end: 10 },
        RaftSegment::Open { counter: 1 }
    ]);
    assert_eq!(state.snapshots.len(), 1);
    assert_eq!(state.snapshots[0].term, 2);
    assert_eq!(state.snapshots[0].index, 10);
    assert!(state.snapshots[0].has_meta && state.snapshots[0].has_data);
}

#[test]
fn snapshot_paths_read_back() {
    let s = RaftSnapshot { term: 3, index: 9, created: 77, has_meta: true, has_data: true };
    assert_eq!(s.data_path(), "snapshot-3-9-77");
    assert_eq!(s.meta_path(), "snapshot-3-9-77.meta");
    let back = RaftSnapshot::from_filename(&s.meta_path()).unwrap();
    assert_eq!((back.term, back.index, back.created), (3, 9, 77));
}

// ------------------------------------------------------------------------------------------
// The log
// ------------------------------------------------------------------------------------------

fn sample_dir() -> (DqliteDir, Vec<Vec<DqliteLogEntry>>) {
    let config = RaftConfiguration { servers: vec![server(1, "127.0.0.1:8080", RaftRole::Voter)] };
    let closed_entries = vec![
        entry(1, DqliteLogEntryContent::Change(config.clone())),
        entry(1, DqliteLogEntryContent::Barrier),
    ];
    let open_entries = vec![
        entry(2, DqliteLogEntryContent::CommandOpen { filename: "db".to_string() }),
        entry(
            2,
            DqliteLogEntryContent::CommandFrames {
                filename: "db".to_string(),
                tx_id: 5,
                truncate: 0,
                is_commit: true,
                frames: vec![
                    DqliteFrame { page_number: 1, data: vec![0; 4] },
                    DqliteFrame { page_number: 3, data: vec![0; 4] },
                ],
            },
        ),
    ];
    let segments = vec![
        DqliteSegment::Closed { first_index: 1, end_index: 2 },
        DqliteSegment::Open { counter: 1, content: open_entries.clone() },
    ];
    let snapshots = vec![DqliteSnapshot {
        term: 1,
        index: 2,
        timestamp: 0,
        configuration: config.clone(),
    }];
    let dir = DqliteDir::from_parts(1, 2, 1, snapshots, segments).unwrap();
    (dir, vec![closed_entries, open_entries])
}

#[test]
fn log_is_written_newest_first() {
    let (dir, entries) = sample_dir();
    assert_eq!(log_last_index(&dir, &entries), Some(4));
    let mut writer = LogCommand { compact: false }.writer();
    let mut out = String::new();
    writer.write_segments(&dir, &entries, &mut out);
    assert_eq!(
        out,
        "╭ TERM 2\n\
         │ 4 COMMIT db \n\
         │   tx_id: 5\n\
         │   truncate: 0\n\
         │   pages: 1, 3\n\
         │ 3 OPEN db \n\
         ├ TERM 1\n\
         │ 2 BARRIER [SNAPSHOT]\n\
         │ 1 CONFIG \n\
         │   servers:\n\
         │     1:\n\
         │       address: 127.0.0.1:8080\n\
         │       role: Voter\n"
    );
}

#[test]
fn log_without_closed_segments_starts_at_the_first_index() {
    let open_entries = vec![entry(1, DqliteLogEntryContent::Barrier)];
    let segments = vec![DqliteSegment::Open { counter: 1, content: open_entries.clone() }];
    let dir = DqliteDir::from_parts(1, 1, 0, vec![], segments).unwrap();
    assert_eq!(dir.first_index(), 1);
    assert_eq!(log_last_index(&dir, &vec![open_entries.clone()]), Some(1));
    let mut writer = LogWriter::new(true);
    let mut out = String::new();
    writer.write_segments(&dir, &vec![open_entries.clone()], &mut out);
    assert_eq!(out, "╭ TERM 1\n│ 1 BARRIER \n");

    // After a snapshot at index 10, the open entries are 11 and 12.
    let two = vec![entry(1, DqliteLogEntryContent::Barrier), entry(1, DqliteLogEntryContent::Barrier)];
    let segments = vec![DqliteSegment::Open { counter: 1, content: two.clone() }];
    let snapshots = vec![DqliteSnapshot {
        term: 1,
        index: 10,
        timestamp: 0,
        configuration: sample_dir().0.snapshots()[0].configuration.clone(),
    }];
    let dir = DqliteDir::from_parts(1, 1, 0, snapshots, segments).unwrap();
    assert_eq!(dir.first_index(), 11);
    assert_eq!(log_last_index(&dir, &vec![two.clone()]), Some(12));
    let mut writer = LogWriter::new(true);
    let mut out = String::new();
    writer.write_segments(&dir, &vec![two], &mut out);
    assert_eq!(out, "╭ TERM 1\n│ 12 BARRIER \n│ 11 BARRIER \n");
}

#[test]
fn compact_log_has_headers_only() {
    let (dir, entries) = sample_dir();
    let mut writer = LogWriter::new(true);
    let mut out = String::new();
    writer.write_segments(&dir, &entries, &mut out);
    assert_eq!(
        out,
        "╭ TERM 2\n│ 4 COMMIT db \n│ 3 OPEN db \n├ TERM 1\n│ 2 BARRIER [SNAPSHOT]\n│ 1 CONFIG \n"
    );
}

#[test]
fn empty_log_says_so() {
    let dir = DqliteDir::from_parts(1, 1, 0, vec![], vec![]).unwrap();
    let mut writer = LogWriter::new(false);
    let mut out = String::new();
    writer.write_segments(&dir, &vec![], &mut out);
    assert_eq!(out, "(no entries)\n");
}

#[test]
fn inconsistent_log_cannot_be_numbered() {
    let (_, entries) = sample_dir();
    let segments = vec![
        DqliteSegment::Closed { first_index: 1, end_index: 5 },
        DqliteSegment::Closed { first_index: 6, end_index: 9 },
    ];
    let dir = DqliteDir::from_parts(1, 1, 0, vec![], segments).unwrap();
    assert_eq!(log_last_index(&dir, &entries), None);
}

#[test]
fn term_markers_follow_changes() {
    let mut writer = LogWriter::new(true);
    let mut out = String::new();
    writer.write_term(3, &mut out);
    writer.write_term(3, &mut out);
    writer.write_term(4, &mut out);
    assert_eq!(out, "╭ TERM 3\n├ TERM 4\n");
}

#[test]
fn undo_and_checkpoint_entries() {
    let writer = LogWriter::new(false);
    let mut out = String::new();
    let undo = entry(1, DqliteLogEntryContent::CommandUndo { tx_id: 8 });
    writer.write_entry_header(6, &undo, "", &mut out);
    writer.write_entry_content(&undo.content, &mut out);
    let cp = entry(1, DqliteLogEntryContent::CommandCheckpoint { filename: "x".to_string() });
    writer.write_entry_header(7, &cp, "[SNAPSHOT]", &mut out);
    writer.write_entry_content(&cp.content, &mut out);
    assert_eq!(out, "│ 6 ROLLBACK \n│   tx_id: 8\n│ 7 CHECKPOINT x [SNAPSHOT]\n");
}

// ------------------------------------------------------------------------------------------
// Reports
// ------------------------------------------------------------------------------------------

#[test]
fn configuration_is_listed() {
    let config = RaftConfiguration {
        servers: vec![server(1, "a:1", RaftRole::Voter), server(2, "b:2", RaftRole::Spare)],
    };
    let mut out = String::new();
    ConfigCommand { raw: false }.write_configuration(&config, &mut out);
    assert_eq!(
        out,
        "- ID: 1\n  Address: a:1\n  Role: voter\n- ID: 2\n  Address: b:2\n  Role: spare\n"
    );
    let mut raw = String::new();
    ConfigCommand { raw: true }.write_configuration(&config, &mut raw);
    assert_eq!(raw, "- ID: 1\n  Address: a:1\n  Role: 1\n- ID: 2\n  Address: b:2\n  Role: 2\n");
    assert_eq!(ConfigCommand::role_name(&RaftRole::Standby), "standby");
}

#[test]
fn status_is_summarised() {
    let mut out = String::new();
    StatusCommand::write_status("/d", 3, 10, 1, &mut out);
    assert_eq!(out, "dir: /d\nterm: 3\ncurrent_index: 10\nfirst_index: 1\n");
}

#[test]
fn snapshot_info_is_listed() {
    let mut out = String::new();
    InfoCommand::write_info(
        2,
        9,
        "2020-01-02T03:04:05.000000000Z",
        &vec![server(1, "a:1", RaftRole::Voter)],
        &vec![
            ("raft".to_string(), "".to_string()),
            ("db".to_string(), "/tmp/db".to_string()),
        ],
        &mut out,
    );
    assert_eq!(
        out,
        "term: 2\nindex: 9\ntimestamp: 2020-01-02T03:04:05.000000000Z\nconfiguration:\n- id: 1\n  address: a:1\n  role: voter\nattached_schemas:\n- name: db\n  path: /tmp/db\n"
    );
    let mut empty = String::new();
    InfoCommand::write_info(1, 1, "t", &vec![], &vec![], &mut empty);
    assert_eq!(
        empty,
        "term: 1\nindex: 1\ntimestamp: t\nconfiguration: -\nattached_schemas: -\n"
    );
    assert!(InfoCommand::timestamp_text(0).unwrap().starts_with("1970-01-01T00:00:00"));
}

#[test]
fn state_index_range() {
    let state = DqliteState {
        folder: "/d".to_string(),
        term: 3,
        index: 0,
        voted_for: 1,
        snapshots: vec![RaftSnapshot { term: 1, index: 5, created: 0, has_meta: true, has_data: true }],
        segments: vec![
            RaftSegment::Closed { index_start: 3, index_end: 8 },
            RaftSegment::Closed { index_start: 9, index_end: 12 },
            RaftSegment::Open { counter: 1 },
        ],
    };
    assert_eq!(StateInfo::index_range(&state, &[0, 0, 4]), (3, 16));
    let info = StateInfo::summary(&state, false, &[0, 0, 4]);
    assert_eq!((info.term, info.voted_for, info.index_start, info.index_end), (3, 1, 3, 16));
    assert_eq!(info.folder, "/d");
}

// ------------------------------------------------------------------------------------------
// The snapshot shell
// ------------------------------------------------------------------------------------------

fn attach(filename: &str) -> AuthAction {
    AuthAction::Attach { filename: filename.to_string() }
}

#[test]
fn test_authorizer() {
    let allow = |a: AuthAction, db: Option<&str>| {
        assert_eq!(SnapshotShell::authorizer(&a, db), Authorization::Allow, "{a:?} on {db:?}")
    };
    let deny = |a: AuthAction, db: Option<&str>| {
        assert_eq!(SnapshotShell::authorizer(&a, db), Authorization::Deny, "{a:?} on {db:?}")
    };

    // All-schema rules.
    allow(attach("/tmp/some.db"), None);
    allow(AuthAction::CreateTable, Some("foo"));
    deny(attach(""), None);
    deny(attach("?k=v"), None);
    deny(attach("file:"), None);
    deny(attach("file:?k=v"), None);
    deny(attach(":memory:"), None);
    deny(attach(":memory:?k=v"), None);
    deny(attach("file::memory:"), None);
    deny(attach("file::memory:?k=v"), None);
    deny(AuthAction::Unknown, Some("foo"));

    // Raft schema rules.
    allow(AuthAction::Other, Some("raft"));
    deny(AuthAction::AlterTable, Some("raft"));
    deny(AuthAction::CreateIndex, Some("raft"));
    deny(AuthAction::CreateTable, Some("raft"));
    deny(AuthAction::CreateTrigger, Some("raft"));
    deny(AuthAction::CreateView, Some("raft"));
    deny(AuthAction::CreateVtable, Some("raft"));
    deny(AuthAction::Delete { table_name: "metadata".to_string() }, Some("raft"));
    allow(AuthAction::Delete { table_name: "servers".to_string() }, Some("raft"));
    deny(AuthAction::DropIndex, Some("raft"));
    deny(AuthAction::DropTable, Some("raft"));
    deny(AuthAction::DropTrigger, None);
    deny(AuthAction::DropView, Some("raft"));
    deny(AuthAction::DropVtable, Some("raft"));
    deny(AuthAction::Insert { table_name: "metadata".to_string() }, Some("raft"));
    allow(AuthAction::Insert { table_name: "servers".to_string() }, Some("raft"));
    deny(
        AuthAction::Pragma {
            pragma_name: "writable_schema".to_string(),
            pragma_value: Some("1".to_string()),
        },
        Some("raft"),
    );
    allow(
        AuthAction::Pragma { pragma_name: "writable_schema".to_string(), pragma_value: None },
        Some("raft"),
    );
    deny(AuthAction::Reindex, Some("raft"));
}

#[test]
fn test_header_wal_mode_patching() {
    let mut header = vec![1u8; 100];
    patch_header(&mut header);
    assert_eq!(header[18], 2);
    assert_eq!(header[19], 2);
    assert_eq!(header.iter().filter(|b| **b == 1).count(), 98);

    let mut chunk = vec![1u8; 4096];
    assert_eq!(patch_chunk(&mut chunk, 0, true), Ok(()));
    assert_eq!((chunk[18], chunk[19]), (2, 2));
    let mut later = vec![1u8; 4096];
    assert_eq!(patch_chunk(&mut later, 4096, true), Ok(()));
    assert_eq!((later[18], later[19]), (1, 1));
    let mut wal = vec![1u8; 4096];
    assert_eq!(patch_chunk(&mut wal, 0, false), Ok(()));
    assert_eq!(wal[18], 1);
    let mut tiny = vec![1u8; 50];
    assert_eq!(patch_chunk(&mut tiny, 0, true), Err(FinishError::HeaderTooSmall));
}

#[test]
fn finish_checks() {
    assert_eq!(check_servers(&[]), Err(FinishError::NoServers));
    assert_eq!(check_servers(&[server(1, "a", RaftRole::Voter)]), Ok(()));
    assert_eq!(check_schema_name("main"), Ok(()));
    assert_eq!(check_schema_name("db2"), Ok(()));
    assert_eq!(check_schema_name("ABCxyz09"), Ok(()));
    assert_eq!(
        check_schema_name("db\n"),
        Err(FinishError::InvalidSchemaName { name: "db\n".to_string() })
    );
    assert_eq!(
        check_schema_name("dé"),
        Err(FinishError::InvalidSchemaName { name: "dé".to_string() })
    );
    assert_eq!(
        check_schema_name("my-db"),
        Err(FinishError::InvalidSchemaName { name: "my-db".to_string() })
    );
    assert_eq!(
        check_schema_name(""),
        Err(FinishError::InvalidSchemaName { name: "".to_string() })
    );
    let names: Vec<String> = ["raft", "main", "temp", "other"].iter().map(|s| s.to_string()).collect();
    assert_eq!(schemas_to_write(&names), vec!["main".to_string(), "other".to_string()]);

    let db = |name: &str, has_journal: bool, wal_mode: bool, page_size: u32| AttachedDbInfo {
        name: name.to_string(),
        has_journal,
        wal_mode,
        page_size,
    };
    assert_eq!(check_dbs(&[db("a", true, true, 4096), db("b", false, false, 4096)]), Ok(()));
    assert_eq!(
        check_dbs(&[db("a", false, false, 4096), db("b", true, false, 4096)]),
        Err(FinishError::NonWalJournal { name: "b".to_string() })
    );
    assert_eq!(
        check_dbs(&[db("a", false, false, 4096), db("b", false, false, 1024)]),
        Err(FinishError::PageSizeMismatch { found: 1024, expected: 4096 })
    );
    assert_eq!(check_target_directory(true, true), Err(FinishError::DirectoryNotEmpty));
    assert_eq!(check_target_directory(true, false), Ok(true));
    assert_eq!(check_target_directory(false, false), Ok(false));
    assert_eq!(next_chunk(0, 10000), Some(4096));
    assert_eq!(next_chunk(8192, 10000), Some(1808));
    assert_eq!(next_chunk(10000, 10000), None);
    assert_eq!(check_server_inserted(1), Ok(()));
    assert_eq!(check_server_inserted(0), Err(0));
}

// ------------------------------------------------------------------------------------------
// The point-in-time view
// ------------------------------------------------------------------------------------------

#[test]
fn database_size_from_header() {
    let mut header = vec![0u8; 100];
    header[16] = 0x10; // 4096
    header[31] = 3;
    assert_eq!(decode_database_size(&header), 4096 * 3);
    header[30] = 1;
    assert_eq!(decode_database_size(&header), 4096 * 259);
}

#[test]
fn view_index_moves_within_range() {
    let mut range = IndexRange { first: 3, last: 9, current: 9 };
    assert_eq!(range.set_current_index(5), Ok(()));
    assert_eq!(range.current, 5);
    assert_eq!(
        range.set_current_index(10),
        Err(PointInTimeError::InvalidIndex { index: 10, first: 3, last: 9 })
    );
    assert_eq!(range.current, 5);
    assert_eq!(
        range.set_current_index(2),
        Err(PointInTimeError::InvalidIndex { index: 2, first: 3, last: 9 })
    );
}

#[test]
fn view_loads_entries_after_its_start() {
    let (dir, entries) = sample_dir();
    assert_eq!(first_loaded_index(&dir), Ok(2));
    let loaded = entries_after(&dir, &entries, 2);
    let indexes: Vec<u64> = loaded.iter().map(|(i, _)| *i).collect();
    assert_eq!(indexes, vec![3, 4]);
    let all = entries_after(&dir, &entries, 0);
    let indexes: Vec<u64> = all.iter().map(|(i, _)| *i).collect();
    assert_eq!(indexes, vec![1, 2, 3, 4]);
    let none = DqliteDir::from_parts(1, 1, 0, vec![], vec![]).unwrap();
    assert_eq!(first_loaded_index(&none), Ok(1));
    let corrupted = DqliteDir::from_parts(
        1,
        1,
        0,
        vec![],
        vec![DqliteSegment::Closed { first_index: 5, end_index: 6 }],
    )
    .unwrap();
    assert_eq!(first_loaded_index(&corrupted), Err(PointInTimeError::CorruptedFolder));
}

#[test]
fn file_reads() {
    assert_eq!(page_number_for_read(0, 4096, 100), 1);
    assert_eq!(page_number_for_read(8192, 4096, 4096), 3);
    assert_eq!(main_page_count(0, 4096), Ok(0));
    assert_eq!(main_page_count(8192, 4096), Ok(2));
    assert_eq!(main_page_count(8000, 4096), Err(PointInTimeError::ShortRead));
    assert_eq!(wal_frame_count(0, 4096), Ok(0));
    assert_eq!(wal_frame_count(32 + 2 * (24 + 4096), 4096), Ok(2));
    assert_eq!(wal_frame_count(32 + 24, 4096), Err(PointInTimeError::ShortRead));
    assert_eq!(wal_frame_page_number(&[0, 0, 1, 2, 0, 0, 0, 0, 0, 0, 0, 0, 0, 0, 0, 0, 0, 0, 0, 0, 0, 0, 0, 0]), 258);
    assert_eq!(pragma_answer("raft_last_update", None, 42), Ok("42".to_string()));
    assert_eq!(pragma_answer("raft_last_update", Some("1"), 42), Err(PointInTimeError::NotFound));
    assert_eq!(pragma_answer("page_size", None, 42), Err(PointInTimeError::NotFound));
    assert_eq!(open_decision(true, Some(7), 2, 4096), Ok(7));
    assert_eq!(open_decision(true, None, 2, 4096), Ok(2));
    assert_eq!(open_decision(true, None, 2, 0), Err(PointInTimeError::CantOpen));
    assert_eq!(open_decision(false, None, 2, 4096), Err(PointInTimeError::CantOpen));
}

#[test]
fn file_pages() {
    let main: Vec<u8> = (0u8..12).collect();
    assert_eq!(
        main_pages(&main, 4),
        Ok(vec![(1, vec![0, 1, 2, 3]), (2, vec![4, 5, 6, 7]), (3, vec![8, 9, 10, 11])])
    );
    assert_eq!(main_pages(&[], 4), Ok(vec![]));
    assert_eq!(main_pages(&main[..10], 4), Err(PointInTimeError::ShortRead));

    let mut wal = vec![0xAAu8; 32];
    for (number, fill) in [(7u32, 1u8), (3, 2)] {
        let mut header = number.to_be_bytes().to_vec();
        header.resize(24, 0xFF);
        wal.extend(header);
        wal.extend([fill; 4]);
    }
    assert_eq!(wal_pages(&wal, 4), Ok(vec![(7, vec![1; 4]), (3, vec![2; 4])]));
    assert_eq!(wal_pages(&[], 4), Ok(vec![]));
    assert_eq!(wal_pages(&wal[..32], 4), Ok(vec![]));
    assert_eq!(wal_pages(&wal[..40], 4), Err(PointInTimeError::ShortRead));
}

// ------------------------------------------------------------------------------------------
// The line editor, prompts, runner and raft error messages
// ------------------------------------------------------------------------------------------

#[test]
fn line_editor_decisions() {
    let known: Vec<&'static str> = vec![".abort", ".add-server", ".finish", "help", ".info"];
    assert_eq!(completions(".a", &known), vec![".abort", ".add-server"]);
    assert_eq!(completions(".a x", &known), Vec::<&str>::new());
    assert_eq!(completions("", &known).len(), 5);

    assert_eq!(highlight("select 1", &known), Highlight::Plain);
    assert_eq!(
        highlight(".abort now", &known),
        Highlight::Command {
            first_word: ".abort".to_string(),
            separator: " ".to_string(),
            remainder: "now".to_string(),
            known: true
        }
    );
    assert_eq!(
        highlight(".nope", &known),
        Highlight::Command {
            first_word: ".nope".to_string(),
            separator: "".to_string(),
            remainder: "".to_string(),
            known: false
        }
    );

    assert_eq!(validate("", &known), Validation::Valid);
    assert_eq!(validate(".abort", &known), Validation::Valid);
    assert_eq!(validate(".info  extra", &known), Validation::Valid);
    assert_eq!(validate(".ab", &known), Validation::Invalid("unknown command".to_string()));
    assert_eq!(validate("SELECT 1;", &known), Validation::Valid);
    assert_eq!(validate("SELECT 1", &known), Validation::Incomplete);
    assert!(matches!(validate("SELEC 1;", &known), Validation::Invalid(_)));
}

#[test]
fn prompts() {
    assert_eq!(Prompt::default().as_str(), "> ");
    assert_eq!(Prompt::new("snapshot").as_str(), "snapshot> ");
    assert_eq!(Prompt::open_at(Some(12)).as_str(), "open@12> ");
    assert_eq!(Prompt::open_at(None).as_str(), "open@latest> ");
}

#[test]
fn runner_stops_at_quit() {
    let runner = Runner::new("/d".to_string());
    assert_eq!(runner.dir(), "/d");
    let commands: Vec<Command> = [".status", ".config", ".quit", ".status"]
        .iter()
        .map(|c| Command::from_str(c, None).unwrap())
        .collect();
    assert_eq!(Runner::batch_len(&commands), 2);
    assert_eq!(Runner::batch_len(&commands[..2]), 2);
    let args = Args { raw_commands: vec![], dir_path: None, retry_count: 2 };
    assert_eq!(args.directory(), (".".to_string(), true));
    assert!(!args.has_commands());
    let args = Args { raw_commands: vec![".status".to_string()], dir_path: Some("/x".to_string()), retry_count: 2 };
    assert_eq!(args.directory(), ("/x".to_string(), false));
}

#[test]
fn raft_error_messages() {
    assert_eq!(RaftErrorStr::new().as_str(), Some(String::new()));
    let mut bytes = b"disk full".to_vec();
    bytes.push(0);
    bytes.extend_from_slice(b"junk");
    assert_eq!(RaftErrorStr::from_bytes(bytes).as_str(), Some("disk full".to_string()));
    assert_eq!(RaftErrorStr::from_bytes(b"no end".to_vec()).as_str(), None);
    assert_eq!(RaftErrorStr::from_bytes(vec![0xff, 0]).as_str(), None);
    assert_eq!(RaftErrorStr::from_bytes(vec![0xff, 0]).message_bytes(), Some(vec![0xff]));
}
