use dqlite_utils::command::open::{
    CloseCommand, DatabasesCommand, IndexCommand, OpenCommand, OpenShellCommand,
    OpenShellCommandKind,
};
use dqlite_utils::command::snapshot::{
    AbortCommand, AddServerCommand, FinishCommand, InfoCommand, SetIndexCommand, SetSelfCommand,
    SetTermCommand, SetTimestampCommand, SnapshotCommand, SnapshotShellCommand,
    SnapshotShellCommandKind,
};
use dqlite_utils::command::{
    Command, CommandError, CommandKind, ConfigCommand, HelpCommand, LogCommand, QuitCommand,
    RootCommand, RootCommandKind, ShellKind, SqlCommand, StatusCommand,
};
use dqlite_utils::raft::RaftRole;

fn args(v: &[&str]) -> Vec<String> {
    v.iter().map(|s| s.to_string()).collect()
}

fn parse(raw: &str) -> Result<Command, CommandError> {
    Command::from_str(raw, None)
}

#[test]
fn empty_line_is_noop() {
    assert_eq!(parse(""), Ok(Command::Noop));
}

#[test]
fn sql_lines_are_sql() {
    assert_eq!(
        parse("SELECT 1;"),
        Ok(Command::Sql(SqlCommand { raw: "SELECT 1;".to_string() }))
    );
    assert_eq!(
        Command::from_str("SELEC", Some("sql parser error: oops".to_string())),
        Err(CommandError::InvalidSql { message: "sql parser error: oops".to_string() })
    );
}

#[test]
fn root_commands_parse() {
    assert_eq!(parse(".config"), Ok(Command::Root(RootCommand::Config(ConfigCommand { raw: false }))));
    assert_eq!(parse(".config --raw"), Ok(Command::Root(RootCommand::Config(ConfigCommand { raw: true }))));
    assert_eq!(parse(".log --compact"), Ok(Command::Root(RootCommand::Log(LogCommand { compact: true }))));
    assert_eq!(parse(".quit"), Ok(Command::Root(RootCommand::Quit(QuitCommand))));
    assert_eq!(parse(".status"), Ok(Command::Root(RootCommand::Status(StatusCommand))));
    assert_eq!(parse(".snapshot"), Ok(Command::Root(RootCommand::Snapshot(SnapshotCommand))));
    assert_eq!(parse(".open"), Ok(Command::Root(RootCommand::Open(OpenCommand { index: None }))));
    assert_eq!(parse(".open latest"), Ok(Command::Root(RootCommand::Open(OpenCommand { index: None }))));
    assert_eq!(parse(".open 42"), Ok(Command::Root(RootCommand::Open(OpenCommand { index: Some(42) }))));
}

#[test]
fn unrecognized_arguments_are_refused() {
    assert_eq!(
        parse(".config --bogus"),
        Err(CommandError::UnrecognizedArguments { args: args(&["--bogus"]) })
    );
    assert_eq!(
        parse(".quit now please"),
        Err(CommandError::UnrecognizedArguments { args: args(&["now", "please"]) })
    );
    assert_eq!(
        parse(".open 1 2"),
        Err(CommandError::UnrecognizedArguments { args: args(&["1", "2"]) })
    );
    assert_eq!(
        parse(".set-index 1 2 3"),
        Err(CommandError::UnrecognizedArguments { args: args(&["2", "3"]) })
    );
}

#[test]
fn unknown_commands_are_refused() {
    assert_eq!(parse(".bogus"), Err(CommandError::UnknownCommand));
    assert_eq!(parse(".help .bogus"), Err(CommandError::UnknownCommand));
}

#[test]
fn unclosed_quotes_are_refused() {
    assert_eq!(parse(".finish 'dir"), Err(CommandError::UnclosedQuote));
}

#[test]
fn quoted_arguments_are_one_word() {
    assert_eq!(
        parse(".finish 'my dir'"),
        Ok(Command::Snapshot(SnapshotShellCommand::Finish(FinishCommand { dir: "my dir".to_string() })))
    );
}

#[test]
fn help_command_parses() {
    assert_eq!(parse(".help"), Ok(Command::Help(HelpCommand { command: None })));
    assert_eq!(
        parse(".help .config"),
        Ok(Command::Help(HelpCommand { command: Some(CommandKind::Root(RootCommandKind::Config)) }))
    );
    assert_eq!(
        parse(".help select"),
        Ok(Command::Help(HelpCommand { command: Some(CommandKind::Sql) }))
    );
    assert_eq!(
        parse(".help a b"),
        Err(CommandError::UnrecognizedArguments { args: args(&["b"]) })
    );
}

#[test]
fn snapshot_commands_parse() {
    assert_eq!(parse(".abort"), Ok(Command::Snapshot(SnapshotShellCommand::Abort(AbortCommand))));
    assert_eq!(parse(".info"), Ok(Command::Snapshot(SnapshotShellCommand::Info(InfoCommand))));
    assert_eq!(
        parse(".set-index 7"),
        Ok(Command::Snapshot(SnapshotShellCommand::SetIndex(SetIndexCommand { index: 7 })))
    );
    assert_eq!(
        parse(".set-term +9"),
        Ok(Command::Snapshot(SnapshotShellCommand::SetTerm(SetTermCommand { term: 9 })))
    );
    assert_eq!(
        parse(".set-term"),
        Err(CommandError::MissingArgument { name: "term" })
    );
    assert_eq!(
        parse(".set-index x"),
        Err(CommandError::InvalidNumber { what: "index", raw: "x".to_string() })
    );
    assert_eq!(
        parse(".set-index 18446744073709551616"),
        Err(CommandError::InvalidNumber { what: "index", raw: "18446744073709551616".to_string() })
    );
}

#[test]
fn add_server_parses() {
    assert_eq!(
        AddServerCommand::try_from_args(&args(&["1", "10.0.0.1:9000"])),
        Ok(AddServerCommand { id: 1, address: "10.0.0.1:9000".to_string(), role: RaftRole::Voter })
    );
    assert_eq!(
        AddServerCommand::try_from_args(&args(&["2", "a:1", "SpArE"])),
        Ok(AddServerCommand { id: 2, address: "a:1".to_string(), role: RaftRole::Spare })
    );
    assert_eq!(
        AddServerCommand::try_from_args(&args(&["2", "a:1", "standby"])),
        Ok(AddServerCommand { id: 2, address: "a:1".to_string(), role: RaftRole::Standby })
    );
    assert_eq!(
        AddServerCommand::try_from_args(&[]),
        Err(CommandError::MissingArgument { name: "id" })
    );
    assert_eq!(
        AddServerCommand::try_from_args(&args(&["1"])),
        Err(CommandError::MissingArgument { name: "address" })
    );
    assert_eq!(
        AddServerCommand::try_from_args(&args(&["x", "a"])),
        Err(CommandError::InvalidNumber { what: "id", raw: "x".to_string() })
    );
    assert_eq!(
        AddServerCommand::try_from_args(&args(&["1", "a", "leader"])),
        Err(CommandError::InvalidRole { raw: "leader".to_string() })
    );
    assert_eq!(
        AddServerCommand::try_from_args(&args(&["1", "a", "voter", "x", "y"])),
        Err(CommandError::UnrecognizedArguments { args: args(&["x", "y"]) })
    );
    assert_eq!(
        parse(".add-server 3 host:1 voter"),
        Ok(Command::Snapshot(SnapshotShellCommand::AddServer(AddServerCommand {
            id: 3,
            address: "host:1".to_string(),
            role: RaftRole::Voter
        })))
    );
}

#[test]
fn set_self_parses() {
    assert_eq!(SetSelfCommand::try_from_args(&args(&["5"])), Ok(SetSelfCommand { id: 5 }));
    assert_eq!(
        SetSelfCommand::try_from_args(&[]),
        Err(CommandError::MissingArgument { name: "id" })
    );
}

#[test]
fn set_timestamp_parses_iso8601() {
    assert_eq!(
        parse(".set-timestamp 2020-01-02T03:04:05Z"),
        Ok(Command::Snapshot(SnapshotShellCommand::SetTimestamp(SetTimestampCommand {
            timestamp: 1577934245
        })))
    );
    assert_eq!(
        parse(".set-timestamp yesterday"),
        Err(CommandError::InvalidTimestamp { raw: "yesterday".to_string() })
    );
    assert_eq!(
        SetTimestampCommand::from_parsed(&"t".to_string(), Some(12)),
        Ok(SetTimestampCommand { timestamp: 12 })
    );
}

#[test]
fn open_shell_commands_parse() {
    assert_eq!(parse(".close"), Ok(Command::Open(OpenShellCommand::Close(CloseCommand))));
    assert_eq!(parse(".databases"), Ok(Command::Open(OpenShellCommand::Databases(DatabasesCommand))));
    assert_eq!(parse(".index 3"), Ok(Command::Open(OpenShellCommand::Index(IndexCommand { index: 3 }))));
    assert_eq!(
        parse(".index"),
        Err(CommandError::UnrecognizedArguments { args: vec![] })
    );
    assert_eq!(
        parse(".index a"),
        Err(CommandError::InvalidNumber { what: "index", raw: "a".to_string() })
    );
    assert_eq!(
        parse(".open x"),
        Err(CommandError::InvalidNumber { what: "index", raw: "x".to_string() })
    );
}

#[test]
fn kind_names_read_back() {
    let mut kinds = vec![CommandKind::Help];
    kinds.extend(RootCommandKind::all().into_iter().map(CommandKind::Root));
    kinds.extend(SnapshotShellCommandKind::all().into_iter().map(CommandKind::Snapshot));
    kinds.extend(OpenShellCommandKind::all().into_iter().map(CommandKind::Open));
    for kind in kinds {
        assert_eq!(CommandKind::from_name(kind.name()), Some(kind));
    }
    assert_eq!(CommandKind::from_name(""), Some(CommandKind::Noop));
    assert_eq!(CommandKind::from_name("select"), Some(CommandKind::Sql));
    assert_eq!(
        CommandKind::from_name(".add-server"),
        Some(CommandKind::Snapshot(SnapshotShellCommandKind::AddServer))
    );
    assert_eq!(CommandKind::Snapshot(SnapshotShellCommandKind::AddServer).name(), ".add-server");
    assert_eq!(SnapshotShellCommandKind::AddServer.name(), ".add-server");
    assert_eq!(CommandKind::from_name(".nope"), None);
}

#[test]
fn commands_run_only_in_their_shell() {
    let root = parse(".status").unwrap();
    assert_eq!(root.check_available(ShellKind::Root), Ok(()));
    assert_eq!(
        root.check_available(ShellKind::Snapshot),
        Err(CommandError::Unavailable { command: ".status", shell: "snapshot" })
    );
    let sql = parse("SELECT 1").unwrap();
    assert_eq!(
        sql.check_available(ShellKind::Root),
        Err(CommandError::Unavailable { command: "<sql>", shell: "root" })
    );
    assert_eq!(sql.check_available(ShellKind::Open), Ok(()));
    assert_eq!(sql.check_available(ShellKind::Snapshot), Ok(()));
    let help = parse(".help").unwrap();
    for shell in [ShellKind::Root, ShellKind::Snapshot, ShellKind::Open] {
        assert_eq!(help.check_available(shell), Ok(()));
        assert_eq!(Command::Noop.check_available(shell), Ok(()));
    }
    let close = parse(".close").unwrap();
    assert_eq!(
        close.check_available(ShellKind::Snapshot),
        Err(CommandError::Unavailable { command: ".close", shell: "snapshot" })
    );
    let add = parse(".add-server 1 a").unwrap();
    assert_eq!(
        add.check_available(ShellKind::Root),
        Err(CommandError::Unavailable { command: ".add-server", shell: "root" })
    );
}

#[test]
fn root_command_kinds() {
    assert_eq!(
        RootCommand::try_from_input(RootCommandKind::Log, &[]).unwrap().kind(),
        RootCommandKind::Log
    );
    assert_eq!(
        SnapshotShellCommand::try_from_input(SnapshotShellCommandKind::Info, &[]).unwrap().kind(),
        SnapshotShellCommandKind::Info
    );
    assert_eq!(
        OpenShellCommand::try_from_input(OpenShellCommandKind::Close, &[]).unwrap().kind(),
        OpenShellCommandKind::Close
    );
}

#[test]
fn from_words_reads_words() {
    let cmd = Command::from_words(&args(&[".set-term", "4"])).unwrap();
    assert_eq!(cmd, Command::Snapshot(SnapshotShellCommand::SetTerm(SetTermCommand { term: 4 })));
    assert_eq!(Command::from_words(&[]), Ok(Command::Noop));
}
