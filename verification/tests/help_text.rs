use dqlite_utils::command::open::{OpenShell, OpenShellCommandKind};
use dqlite_utils::command::snapshot::{SnapshotShell, SnapshotShellCommandKind};
use dqlite_utils::command::{CommandKind, HelpCommand, RootCommandKind, RootShell, ShellKind};
use dqlite_utils::help::{Help, HelpError};

fn written(help: &Help) -> String {
    assert!(help.is_renderable());
    let mut out = String::new();
    help.write_to(&mut out);
    out
}

fn all_kinds_with_help() -> Vec<CommandKind> {
    let mut kinds = vec![CommandKind::Help];
    kinds.extend(RootCommandKind::all().into_iter().map(CommandKind::Root));
    kinds.extend(SnapshotShellCommandKind::all().into_iter().map(CommandKind::Snapshot));
    kinds.extend(OpenShellCommandKind::all().into_iter().map(CommandKind::Open));
    kinds
}

#[test]
fn help_test_all_commands_listed_in_help() {
    let help_output = written(&HelpCommand::general_help());
    for command_kind in all_kinds_with_help() {
        assert!(
            help_output.contains(command_kind.name()),
            "{} missing from {help_output}",
            command_kind.name()
        );
    }
}

#[test]
fn mod_test_all_commands_listed_in_help() {
    let help_output = written(&RootShell::help());
    for command_kind in RootCommandKind::all() {
        assert!(help_output.contains(command_kind.name()));
    }
}

#[test]
fn snapshot_test_all_commands_listed_in_help() {
    let help_output = written(&SnapshotShell::help());
    for command_kind in SnapshotShellCommandKind::all() {
        assert!(help_output.contains(command_kind.name()));
    }
}

#[test]
fn open_shell_lists_all_commands_in_help() {
    let help_output = written(&OpenShell::help());
    for command_kind in OpenShellCommandKind::all() {
        assert!(help_output.contains(command_kind.name()));
    }
}

#[test]
fn shell_kind_help_is_the_shell_help() {
    assert_eq!(written(&ShellKind::Root.help()), written(&RootShell::help()));
    assert_eq!(written(&ShellKind::Snapshot.help()), written(&SnapshotShell::help()));
    assert_eq!(written(&ShellKind::Open.help()), written(&OpenShell::help()));
    assert_eq!(ShellKind::Root.name(), "root");
    assert_eq!(ShellKind::Snapshot.name(), "snapshot");
    assert_eq!(ShellKind::Open.name(), "open");
}

fn check_contains(name: &str, help: Help, expected: &[&str]) {
    let written_help = written(&help);
    for e in expected {
        assert!(written_help.contains(e), "{name}: {e} missing from {written_help}");
    }
}

#[test]
fn test_help_output() {
    const NAME: &str = "__HELP_NAME__";
    const SUMMARY: &str = "__HELP_NAME__";

    check_contains(
        "basic info",
        Help::builder().name(NAME).summary(SUMMARY).build().unwrap(),
        &[NAME, SUMMARY],
    );

    const FLAG_1: &str = "--flag-1";
    const FLAG_2: &str = "--flag-2";
    const FLAG_1_HELP: &str = "__FLAG_1_HELP__";
    const FLAG_2_HELP: &str = "__FLAG_2_HELP__";
    check_contains(
        "flags",
        Help::builder()
            .name(NAME)
            .summary(SUMMARY)
            .add_flag(FLAG_1, FLAG_1_HELP)
            .add_flag(FLAG_2, FLAG_2_HELP)
            .build()
            .unwrap(),
        &[FLAG_1, FLAG_2, FLAG_1_HELP, FLAG_2_HELP],
    );

    const ARG_1: &str = "__ARG_1__";
    const ARG_2: &str = "__ARG_2__";
    const ARG_1_HELP: &str = "__ARG_1_HELP__";
    const ARG_2_HELP: &str = "__ARG_2_HELP__";
    check_contains(
        "args",
        Help::builder()
            .name(NAME)
            .summary(SUMMARY)
            .add_arg(ARG_1, ARG_1_HELP)
            .add_optional_arg(ARG_2, ARG_2_HELP)
            .build()
            .unwrap(),
        &[ARG_1, ARG_2, &format!("[{ARG_2}]"), ARG_1_HELP, ARG_2_HELP],
    );

    const COMMAND_1: &str = "__COMMAND_1__";
    const COMMAND_2: &str = "__COMMAND_2__";
    const COMMAND_1_HELP: &str = "__COMMAND_1_HELP__";
    const COMMAND_2_HELP: &str = "__COMMAND_2_HELP__";
    check_contains(
        "commands",
        Help::builder()
            .name(NAME)
            .summary(SUMMARY)
            .add_command(COMMAND_1, COMMAND_1_HELP)
            .add_command(COMMAND_2, COMMAND_2_HELP)
            .build()
            .unwrap(),
        &[COMMAND_1, COMMAND_2, COMMAND_1_HELP, COMMAND_2_HELP],
    );
}

#[test]
fn test_help_validation() {
    let no_name = Help::builder().build();
    assert_eq!(no_name.unwrap_err(), HelpError::MissingName);

    let no_summary = Help::builder().name("asdf").build();
    assert_eq!(no_summary.unwrap_err(), HelpError::MissingSummary);
}

#[test]
fn help_text_layout_is_exact() {
    let help = Help::builder()
        .name("cmd")
        .summary("does things")
        .add_flag("--f", "a flag")
        .add_arg("a", "first")
        .add_optional_arg("bb", "second")
        .build()
        .unwrap();
    assert_eq!(
        written(&help),
        "cmd - does things\n\nUsage\n  cmd [--f] <a> [bb]\n\nArguments\n  a   first\n  bb  second\n\nOptions\n  --f  a flag\n"
    );
}

#[test]
fn help_with_commands_shows_command_usage() {
    let help = Help::builder()
        .name("shell")
        .summary("a shell")
        .add_command(".x", "ex")
        .add_command(".yy", "why")
        .build()
        .unwrap();
    assert_eq!(
        written(&help),
        "shell - a shell\n\nUsage\n  shell <command>\n\nCommands\n  .x   ex\n  .yy  why\n"
    );
}

#[test]
fn skipped_usage_is_left_out() {
    let help = Help::builder().name("n").summary("s").skip_usage().build().unwrap();
    assert_eq!(written(&help), "n - s\n");
}

#[test]
fn long_names_are_not_renderable() {
    let long: &'static str = Box::leak("x".repeat(80).into_boxed_str());
    let help = Help::builder().name("n").summary("s").add_flag(long, "f").build().unwrap();
    assert!(!help.is_renderable());
    let ok = Help::builder().name("n").summary("s").add_flag(&long[..79], "f").build().unwrap();
    assert!(ok.is_renderable());
}

#[test]
fn command_help_texts_name_their_commands() {
    for kind in all_kinds_with_help() {
        let help = kind.help().expect("kind with help");
        assert!(help.is_renderable());
    }
    assert!(CommandKind::Noop.help().is_none());
    assert!(CommandKind::Sql.help().is_none());
    assert_eq!(CommandKind::Root(RootCommandKind::Config).help().unwrap().name(), ".config");
    assert_eq!(CommandKind::Help.help().unwrap().name(), "help");
}

#[test]
fn general_help_names_each_snapshot_command_once() {
    let help_output = written(&HelpCommand::general_help());
    let lines_starting = |name: &str| {
        help_output.lines().filter(|l| l.trim_start().starts_with(&format!("{name} "))).count()
    };
    assert_eq!(lines_starting(".abort"), 1);
    assert_eq!(lines_starting(".add-server"), 1);
    assert!(help_output
        .lines()
        .any(|l| l.trim_start().starts_with(".add-server ") && l.ends_with("add a server to the snapshot")));
}
