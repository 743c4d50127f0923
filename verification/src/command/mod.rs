//! The commands of the shells: their names, their help texts, how a line of input becomes a
//! command, and in which shell each command may run.

pub mod add_server;
pub mod finish;
pub mod open;
pub mod snapshot;

use vstd::prelude::*;

use crate::help::{contains_text, entry_of, expect_built, lemma_help_lists_entries, render_spec, Help, HelpView};
use crate::prompt::{open_prompt_spec, Prompt};
use crate::raft::{role_name_spec, role_raw, servers_view, RaftConfiguration, ServerView};
use crate::text::{decimal, push_decimal, push_str};
use crate::text::{chars_of, copy_strings_from, parse_u64_spec, parse_u64_str, str_eq, strings_view};
use self::open::{
    open_kind_from_name_spec, open_kind_help_spec, open_kind_name_spec, OpenShellCommand,
    OpenShellCommandKind, OpenCommand, open_command_spec, IndexCommand,
};
use self::snapshot::{
    snapshot_command_spec, snapshot_kind_from_name_spec, snapshot_kind_help_spec,
    snapshot_kind_name_spec, SnapshotCommand, SnapshotShellCommand, SnapshotShellCommandKind,
    SnapshotShellCommandView,
};

verus! {

/// Why a line of input is not a command.
#[derive(Clone, Debug, PartialEq, Eq)]
pub enum CommandError {
    /// The first word names no command.
    UnknownCommand,
    /// A required argument is missing.
    MissingArgument { name: &'static str },
    /// Arguments that the command does not take.
    UnrecognizedArguments { args: Vec<String> },
    /// A flag that the command does not take.
    UnrecognizedFlag { flag: String },
    /// An argument that should be a number is not one.
    InvalidNumber { what: &'static str, raw: String },
    /// An argument that should name a raft role does not.
    InvalidRole { raw: String },
    /// An argument that should be an ISO 8601 timestamp is not one.
    InvalidTimestamp { raw: String },
    /// SQL text that does not parse; the parser's message.
    InvalidSql { message: String },
    /// A quote that is opened and never closed.
    UnclosedQuote,
    /// A command given in a shell that does not offer it.
    Unavailable { command: &'static str, shell: &'static str },
}

/// The plain values of a `CommandError`.
pub enum CommandErrorView {
    UnknownCommand,
    MissingArgument(Seq<char>),
    UnrecognizedArguments(Seq<Seq<char>>),
    UnrecognizedFlag(Seq<char>),
    InvalidNumber(Seq<char>, Seq<char>),
    InvalidRole(Seq<char>),
    InvalidTimestamp(Seq<char>),
    InvalidSql(Seq<char>),
    UnclosedQuote,
    Unavailable(Seq<char>, Seq<char>),
}

impl View for CommandError {
    type V = CommandErrorView;

    open spec fn view(&self) -> CommandErrorView {
        match self {
            CommandError::UnknownCommand => CommandErrorView::UnknownCommand,
            CommandError::MissingArgument { name } => CommandErrorView::MissingArgument(name@),
            CommandError::UnrecognizedArguments { args } => CommandErrorView::UnrecognizedArguments(
                strings_view(args@),
            ),
            CommandError::UnrecognizedFlag { flag } => CommandErrorView::UnrecognizedFlag(flag@),
            CommandError::InvalidNumber { what, raw } => CommandErrorView::InvalidNumber(what@, raw@),
            CommandError::InvalidRole { raw } => CommandErrorView::InvalidRole(raw@),
            CommandError::InvalidTimestamp { raw } => CommandErrorView::InvalidTimestamp(raw@),
            CommandError::InvalidSql { message } => CommandErrorView::InvalidSql(message@),
            CommandError::UnclosedQuote => CommandErrorView::UnclosedQuote,
            CommandError::Unavailable { command, shell } => CommandErrorView::Unavailable(
                command@,
                shell@,
            ),
        }
    }
}

/// Whether `r` failed with the error `e`.
pub open spec fn fails_with<T>(r: Result<T, CommandError>, e: CommandErrorView) -> bool {
    r matches Err(x) && x@ == e
}

/// The error of arguments given to a command that takes none.
pub open spec fn no_args_spec(args: Seq<Seq<char>>) -> Option<CommandErrorView> {
    if args.len() == 0 {
        None
    } else {
        Some(CommandErrorView::UnrecognizedArguments(args))
    }
}

/// The one argument called `name` of a command that takes exactly one.
pub open spec fn single_arg_spec(args: Seq<Seq<char>>, name: Seq<char>) -> Result<
    Seq<char>,
    CommandErrorView,
> {
    if args.len() == 0 {
        Err(CommandErrorView::MissingArgument(name))
    } else if args.len() == 1 {
        Ok(args[0])
    } else {
        Err(CommandErrorView::UnrecognizedArguments(args.drop_first()))
    }
}

/// The one argument called `name`, read as a number.
pub open spec fn number_arg_spec(args: Seq<Seq<char>>, name: Seq<char>) -> Result<
    u64,
    CommandErrorView,
> {
    match single_arg_spec(args, name) {
        Err(e) => Err(e),
        Ok(a) => match parse_u64_spec(a) {
            Some(n) => Ok(n),
            None => Err(CommandErrorView::InvalidNumber(name, a)),
        },
    }
}

/// A command that takes no argument: refuses any.
pub fn expect_no_args(args: &[String]) -> (r: Result<(), CommandError>)
    ensures
        match no_args_spec(strings_view(args@)) {
            None => r is Ok,
            Some(e) => fails_with(r, e),
        },
{
    if args.len() == 0 {
        Ok(())
    } else {
        let copied = copy_strings_from(args, 0);
        assert(strings_view(args@).skip(0) =~= strings_view(args@));
        Err(CommandError::UnrecognizedArguments { args: copied })
    }
}

/// The one argument called `name` of a command that takes exactly one.
pub fn expect_single_arg<'a>(args: &'a [String], name: &'static str) -> (r: Result<
    &'a String,
    CommandError,
>)
    ensures
        match single_arg_spec(strings_view(args@), name@) {
            Ok(a) => r matches Ok(s) && s@ == a,
            Err(e) => fails_with(r, e),
        },
{
    if args.len() == 0 {
        Err(CommandError::MissingArgument { name })
    } else if args.len() == 1 {
        Ok(&args[0])
    } else {
        let copied = copy_strings_from(args, 1);
        assert(strings_view(args@).skip(1) =~= strings_view(args@).drop_first());
        Err(CommandError::UnrecognizedArguments { args: copied })
    }
}

/// The one argument called `name`, read as a number.
pub fn expect_number_arg(args: &[String], name: &'static str) -> (r: Result<u64, CommandError>)
    ensures
        match number_arg_spec(strings_view(args@), name@) {
            Ok(n) => r == Ok::<u64, CommandError>(n),
            Err(e) => fails_with(r, e),
        },
{
    let raw = expect_single_arg(args, name)?;
    match parse_u64_str(raw.as_str()) {
        Some(n) => Ok(n),
        None => Err(CommandError::InvalidNumber { what: name, raw: raw.clone() }),
    }
}

/// Whether a command that takes at most the one flag `flag` was given it.
pub open spec fn flag_arg_spec(args: Seq<Seq<char>>, flag: Seq<char>) -> Result<bool, CommandErrorView> {
    if args.len() == 0 {
        Ok(false)
    } else if args.len() == 1 && args[0] == flag {
        Ok(true)
    } else {
        Err(CommandErrorView::UnrecognizedArguments(args))
    }
}

/// Whether a command that takes at most the one flag `flag` was given it.
pub fn expect_flag_arg(args: &[String], flag: &'static str) -> (r: Result<bool, CommandError>)
    ensures
        match flag_arg_spec(strings_view(args@), flag@) {
            Ok(b) => r == Ok::<bool, CommandError>(b),
            Err(e) => fails_with(r, e),
        },
{
    if args.len() == 0 {
        return Ok(false);
    }
    if args.len() == 1 && str_eq(args[0].as_str(), flag) {
        return Ok(true);
    }
    let copied = copy_strings_from(args, 0);
    assert(strings_view(args@).skip(0) =~= strings_view(args@));
    Err(CommandError::UnrecognizedArguments { args: copied })
}

// ---------------------------------------------------------------------------------------------
// Help texts
// ---------------------------------------------------------------------------------------------

/// The help text of a name and a summary alone.
pub open spec fn plain_help(name: &'static str, summary: &'static str) -> HelpView {
    HelpView {
        name: name@,
        summary: summary@,
        skip_usage: false,
        args: Seq::empty(),
        flags: Seq::empty(),
        commands: Seq::empty(),
    }
}

/// The help text that lists `commands` and shows no usage line.
pub open spec fn shell_help(
    name: &'static str,
    summary: &'static str,
    commands: Seq<(Seq<char>, Seq<char>, bool, nat)>,
) -> HelpView {
    HelpView { skip_usage: true, commands, ..plain_help(name, summary) }
}

pub const HELP_NAME: &'static str = ".help";
pub const HELP_TITLE: &'static str = "help";
pub const HELP_SUMMARY: &'static str = "Print help and exit";
pub const HELP_ARG: &'static str = "command";
pub const HELP_ARG_SUMMARY: &'static str = "the command to get help for";

pub const CONFIG_NAME: &'static str = ".config";
pub const CONFIG_SUMMARY: &'static str = "Show the current dqlite configuration";
pub const CONFIG_FLAG: &'static str = "--raw";
pub const CONFIG_FLAG_SUMMARY: &'static str = "print config in go-dqlite cluster.yaml format";

pub const LOG_NAME: &'static str = ".log";
pub const LOG_SUMMARY: &'static str = "Show a list of all commands applied to the dqlite state machine";
pub const LOG_FLAG: &'static str = "--compact";
pub const LOG_FLAG_SUMMARY: &'static str = "output compactly";

pub const QUIT_NAME: &'static str = ".quit";
pub const QUIT_SUMMARY: &'static str = "Exit";

pub const STATUS_NAME: &'static str = ".status";
pub const STATUS_SUMMARY: &'static str = "Show brief summary of the current Raft state";

pub const ROOT_SHELL_NAME: &'static str = "dqlite-utils";
pub const ROOT_SHELL_SUMMARY: &'static str = "an observability tool for inspecting the on-disk state of a dqlite node";

/// The help text of `.help`.
pub open spec fn help_command_help_spec() -> HelpView {
    HelpView { args: seq![entry_of(HELP_ARG, HELP_ARG_SUMMARY, true)], ..plain_help(HELP_TITLE, HELP_SUMMARY) }
}

pub open spec fn config_help_spec() -> HelpView {
    HelpView {
        flags: seq![entry_of(CONFIG_FLAG, CONFIG_FLAG_SUMMARY, false)],
        ..plain_help(CONFIG_NAME, CONFIG_SUMMARY)
    }
}

pub open spec fn log_help_spec() -> HelpView {
    HelpView { flags: seq![entry_of(LOG_FLAG, LOG_FLAG_SUMMARY, false)], ..plain_help(LOG_NAME, LOG_SUMMARY) }
}

/// A help text without arguments, flags or commands.
pub fn plain_help_text(name: &'static str, summary: &'static str) -> (r: Help)
    ensures
        r@ == plain_help(name, summary),
{
    expect_built(Help::builder().name(name).summary(summary).build())
}

// ---------------------------------------------------------------------------------------------
// Kinds of commands
// ---------------------------------------------------------------------------------------------

/// The commands of the root shell.
#[derive(Clone, Copy, Debug, PartialEq, Eq, Structural)]
pub enum RootCommandKind {
    Config,
    Log,
    Quit,
    Snapshot,
    Open,
    Status,
}

pub open spec fn root_kind_name_spec(k: RootCommandKind) -> Seq<char> {
    match k {
        RootCommandKind::Config => CONFIG_NAME@,
        RootCommandKind::Log => LOG_NAME@,
        RootCommandKind::Quit => QUIT_NAME@,
        RootCommandKind::Status => STATUS_NAME@,
        RootCommandKind::Snapshot => snapshot::SNAPSHOT_NAME@,
        RootCommandKind::Open => open::OPEN_NAME@,
    }
}

pub open spec fn root_kind_from_name_spec(s: Seq<char>) -> Option<RootCommandKind> {
    if s == CONFIG_NAME@ {
        Some(RootCommandKind::Config)
    } else if s == LOG_NAME@ {
        Some(RootCommandKind::Log)
    } else if s == QUIT_NAME@ {
        Some(RootCommandKind::Quit)
    } else if s == STATUS_NAME@ {
        Some(RootCommandKind::Status)
    } else if s == snapshot::SNAPSHOT_NAME@ {
        Some(RootCommandKind::Snapshot)
    } else if s == open::OPEN_NAME@ {
        Some(RootCommandKind::Open)
    } else {
        None
    }
}

pub open spec fn root_kind_help_spec(k: RootCommandKind) -> HelpView {
    match k {
        RootCommandKind::Config => config_help_spec(),
        RootCommandKind::Log => log_help_spec(),
        RootCommandKind::Quit => plain_help(QUIT_NAME, QUIT_SUMMARY),
        RootCommandKind::Status => plain_help(STATUS_NAME, STATUS_SUMMARY),
        RootCommandKind::Snapshot => snapshot::snapshot_command_help_spec(),
        RootCommandKind::Open => open::open_command_help_spec(),
    }
}

impl RootCommandKind {
    /// Every kind, in declaration order.
    pub fn all() -> (r: Vec<RootCommandKind>)
        ensures
            r@ == seq![
                RootCommandKind::Config,
                RootCommandKind::Log,
                RootCommandKind::Quit,
                RootCommandKind::Snapshot,
                RootCommandKind::Open,
                RootCommandKind::Status,
            ],
    {
        let r = vec![
            RootCommandKind::Config,
            RootCommandKind::Log,
            RootCommandKind::Quit,
            RootCommandKind::Snapshot,
            RootCommandKind::Open,
            RootCommandKind::Status,
        ];
        assert(r@ =~= seq![
            RootCommandKind::Config,
            RootCommandKind::Log,
            RootCommandKind::Quit,
            RootCommandKind::Snapshot,
            RootCommandKind::Open,
            RootCommandKind::Status,
        ]);
        r
    }

    pub fn name(&self) -> (r: &'static str)
        ensures
            r@ == root_kind_name_spec(*self),
    {
        match self {
            RootCommandKind::Config => CONFIG_NAME,
            RootCommandKind::Log => LOG_NAME,
            RootCommandKind::Quit => QUIT_NAME,
            RootCommandKind::Status => STATUS_NAME,
            RootCommandKind::Snapshot => snapshot::SNAPSHOT_NAME,
            RootCommandKind::Open => open::OPEN_NAME,
        }
    }

    /// The kind whose name is `raw`.
    pub fn from_name(raw: &str) -> (r: Option<RootCommandKind>)
        ensures
            r == root_kind_from_name_spec(raw@),
    {
        if str_eq(raw, CONFIG_NAME) {
            Some(RootCommandKind::Config)
        } else if str_eq(raw, LOG_NAME) {
            Some(RootCommandKind::Log)
        } else if str_eq(raw, QUIT_NAME) {
            Some(RootCommandKind::Quit)
        } else if str_eq(raw, STATUS_NAME) {
            Some(RootCommandKind::Status)
        } else if str_eq(raw, snapshot::SNAPSHOT_NAME) {
            Some(RootCommandKind::Snapshot)
        } else if str_eq(raw, open::OPEN_NAME) {
            Some(RootCommandKind::Open)
        } else {
            None
        }
    }

    pub fn help(&self) -> (r: Help)
        ensures
            r@ == root_kind_help_spec(*self),
    {
        match self {
            RootCommandKind::Config => ConfigCommand::help(),
            RootCommandKind::Log => LogCommand::help(),
            RootCommandKind::Quit => QuitCommand::help(),
            RootCommandKind::Status => StatusCommand::help(),
            RootCommandKind::Snapshot => SnapshotCommand::help(),
            RootCommandKind::Open => OpenCommand::help(),
        }
    }
}

/// What the first word of a line of input names.
#[derive(Clone, Copy, Debug, PartialEq, Eq, Structural)]
pub enum CommandKind {
    Noop,
    Help,
    Root(RootCommandKind),
    Snapshot(SnapshotShellCommandKind),
    Open(OpenShellCommandKind),
    Sql,
}

/// The kind named by `s`: nothing for no text, SQL for text that does not start with `.`,
/// else the command of that name, looked up among the root, snapshot and open shells in turn.
pub open spec fn kind_from_name_spec(s: Seq<char>) -> Option<CommandKind> {
    if s.len() == 0 {
        Some(CommandKind::Noop)
    } else if s == HELP_NAME@ {
        Some(CommandKind::Help)
    } else if s[0] != '.' {
        Some(CommandKind::Sql)
    } else if let Some(k) = root_kind_from_name_spec(s) {
        Some(CommandKind::Root(k))
    } else if let Some(k) = snapshot_kind_from_name_spec(s) {
        Some(CommandKind::Snapshot(k))
    } else if let Some(k) = open_kind_from_name_spec(s) {
        Some(CommandKind::Open(k))
    } else {
        None
    }
}

pub open spec fn kind_name_spec(k: CommandKind) -> Seq<char> {
    match k {
        CommandKind::Help => HELP_NAME@,
        CommandKind::Noop => "no-op"@,
        CommandKind::Root(r) => root_kind_name_spec(r),
        CommandKind::Snapshot(s) => snapshot_kind_name_spec(s),
        CommandKind::Open(o) => open_kind_name_spec(o),
        CommandKind::Sql => "<sql>"@,
    }
}

pub open spec fn kind_help_spec(k: CommandKind) -> Option<HelpView> {
    match k {
        CommandKind::Help => Some(help_command_help_spec()),
        CommandKind::Noop => None,
        CommandKind::Root(r) => Some(root_kind_help_spec(r)),
        CommandKind::Snapshot(s) => Some(snapshot_kind_help_spec(s)),
        CommandKind::Open(o) => Some(open_kind_help_spec(o)),
        CommandKind::Sql => None,
    }
}

impl CommandKind {
    /// The kind named by `raw`; `None` for an unknown command.
    pub fn from_name(raw: &str) -> (r: Option<CommandKind>)
        ensures
            r == kind_from_name_spec(raw@),
    {
        let chars = chars_of(raw);
        if chars.len() == 0 {
            return Some(CommandKind::Noop);
        }
        if str_eq(raw, HELP_NAME) {
            return Some(CommandKind::Help);
        }
        if chars[0] != '.' {
            return Some(CommandKind::Sql);
        }
        if let Some(k) = RootCommandKind::from_name(raw) {
            return Some(CommandKind::Root(k));
        }
        if let Some(k) = SnapshotShellCommandKind::from_name(raw) {
            return Some(CommandKind::Snapshot(k));
        }
        if let Some(k) = OpenShellCommandKind::from_name(raw) {
            return Some(CommandKind::Open(k));
        }
        None
    }

    pub fn name(&self) -> (r: &'static str)
        ensures
            r@ == kind_name_spec(*self),
    {
        match self {
            CommandKind::Help => HELP_NAME,
            CommandKind::Noop => "no-op",
            CommandKind::Root(k) => k.name(),
            CommandKind::Snapshot(k) => k.name(),
            CommandKind::Open(k) => k.name(),
            CommandKind::Sql => "<sql>",
        }
    }

    /// The help text of the command; none for no-op and SQL.
    pub fn help(&self) -> (r: Option<Help>)
        ensures
            match kind_help_spec(*self) {
                Some(h) => r matches Some(x) && x@ == h,
                None => r is None,
            },
    {
        match self {
            CommandKind::Help => Some(HelpCommand::help()),
            CommandKind::Noop => None,
            CommandKind::Root(k) => Some(k.help()),
            CommandKind::Snapshot(k) => Some(k.help()),
            CommandKind::Open(k) => Some(k.help()),
            CommandKind::Sql => None,
        }
    }
}

// ---------------------------------------------------------------------------------------------
// Commands of the root shell
// ---------------------------------------------------------------------------------------------

/// The lines of the program's help: each command kind that has a help text, under the name
/// it is reported by, with the summary of its help.
pub open spec fn general_help_commands_spec() -> Seq<(Seq<char>, Seq<char>, bool, nat)> {
    seq![
        entry_of(HELP_NAME, HELP_SUMMARY, false),
        entry_of(CONFIG_NAME, CONFIG_SUMMARY, false),
        entry_of(LOG_NAME, LOG_SUMMARY, false),
        entry_of(QUIT_NAME, QUIT_SUMMARY, false),
        entry_of(snapshot::SNAPSHOT_NAME, snapshot::SNAPSHOT_SUMMARY, false),
        entry_of(open::OPEN_NAME, open::OPEN_SUMMARY, false),
        entry_of(STATUS_NAME, STATUS_SUMMARY, false),
        entry_of(snapshot::ABORT_NAME, snapshot::ABORT_SUMMARY, false),
        entry_of(snapshot::ADD_SERVER_NAME, snapshot::ADD_SERVER_SUMMARY, false),
        entry_of(snapshot::FINISH_NAME, snapshot::FINISH_SUMMARY, false),
        entry_of(snapshot::INFO_NAME, snapshot::INFO_SUMMARY, false),
        entry_of(snapshot::SET_INDEX_NAME, snapshot::SET_INDEX_SUMMARY, false),
        entry_of(snapshot::SET_TERM_NAME, snapshot::SET_TERM_SUMMARY, false),
        entry_of(snapshot::SET_TIMESTAMP_NAME, snapshot::SET_TIMESTAMP_SUMMARY, false),
        entry_of(open::CLOSE_NAME, open::CLOSE_SUMMARY, false),
        entry_of(open::INDEX_NAME, open::INDEX_SUMMARY, false),
        entry_of(open::DATABASES_NAME, open::DATABASES_SUMMARY, false),
    ]
}

/// `.help [command]`: the help of the shell, or of one command.
#[derive(Clone, Copy, Debug, PartialEq, Eq)]
pub struct HelpCommand {
    pub command: Option<CommandKind>,
}

pub open spec fn help_command_spec(args: Seq<Seq<char>>) -> Result<HelpCommand, CommandErrorView> {
    if args.len() == 0 {
        Ok(HelpCommand { command: None })
    } else if args.len() == 1 {
        match kind_from_name_spec(args[0]) {
            Some(k) => Ok(HelpCommand { command: Some(k) }),
            None => Err(CommandErrorView::UnknownCommand),
        }
    } else {
        Err(CommandErrorView::UnrecognizedArguments(args.drop_first()))
    }
}

impl HelpCommand {
    pub fn help() -> (r: Help)
        ensures
            r@ == help_command_help_spec(),
    {
        let r = expect_built(
            Help::builder().name(HELP_TITLE).summary(HELP_SUMMARY).add_optional_arg(
                HELP_ARG,
                HELP_ARG_SUMMARY,
            ).build(),
        );
        assert(r@.args =~= help_command_help_spec().args);
        r
    }

    /// The help of the whole program: one line for each command, under its reported name.
    pub fn general_help() -> (r: Help)
        ensures
            r@ == shell_help(ROOT_SHELL_NAME, ROOT_SHELL_SUMMARY, general_help_commands_spec()),
    {
        let r = expect_built(
            Help::builder().name(ROOT_SHELL_NAME).summary(ROOT_SHELL_SUMMARY).skip_usage()
                .add_command(HELP_NAME, HELP_SUMMARY)
                .add_command(CONFIG_NAME, CONFIG_SUMMARY)
                .add_command(LOG_NAME, LOG_SUMMARY)
                .add_command(QUIT_NAME, QUIT_SUMMARY)
                .add_command(snapshot::SNAPSHOT_NAME, snapshot::SNAPSHOT_SUMMARY)
                .add_command(open::OPEN_NAME, open::OPEN_SUMMARY)
                .add_command(STATUS_NAME, STATUS_SUMMARY)
                .add_command(snapshot::ABORT_NAME, snapshot::ABORT_SUMMARY)
                .add_command(snapshot::ADD_SERVER_NAME, snapshot::ADD_SERVER_SUMMARY)
                .add_command(snapshot::FINISH_NAME, snapshot::FINISH_SUMMARY)
                .add_command(snapshot::INFO_NAME, snapshot::INFO_SUMMARY)
                .add_command(snapshot::SET_INDEX_NAME, snapshot::SET_INDEX_SUMMARY)
                .add_command(snapshot::SET_TERM_NAME, snapshot::SET_TERM_SUMMARY)
                .add_command(snapshot::SET_TIMESTAMP_NAME, snapshot::SET_TIMESTAMP_SUMMARY)
                .add_command(open::CLOSE_NAME, open::CLOSE_SUMMARY)
                .add_command(open::INDEX_NAME, open::INDEX_SUMMARY)
                .add_command(open::DATABASES_NAME, open::DATABASES_SUMMARY)
                .build(),
        );
        assert(r@.commands =~= general_help_commands_spec());
        r
    }

    pub fn new() -> (r: HelpCommand)
        ensures
            r.command is None,
    {
        HelpCommand { command: None }
    }

    pub fn with_command(command: CommandKind) -> (r: HelpCommand)
        ensures
            r.command == Some(command),
    {
        HelpCommand { command: Some(command) }
    }

    pub fn try_from_args(args: &[String]) -> (r: Result<HelpCommand, CommandError>)
        ensures
            match help_command_spec(strings_view(args@)) {
                Ok(c) => r == Ok::<HelpCommand, CommandError>(c),
                Err(e) => fails_with(r, e),
            },
    {
        if args.len() == 0 {
            Ok(HelpCommand::new())
        } else if args.len() == 1 {
            match CommandKind::from_name(args[0].as_str()) {
                Some(k) => Ok(HelpCommand::with_command(k)),
                None => Err(CommandError::UnknownCommand),
            }
        } else {
            let copied = copy_strings_from(args, 1);
            assert(strings_view(args@).skip(1) =~= strings_view(args@).drop_first());
            Err(CommandError::UnrecognizedArguments { args: copied })
        }
    }
}

/// `.config [--raw]`: the current raft configuration.
#[derive(Clone, Copy, Debug, PartialEq, Eq)]
pub struct ConfigCommand {
    pub raw: bool,
}

impl ConfigCommand {
    pub fn help() -> (r: Help)
        ensures
            r@ == config_help_spec(),
    {
        let r = expect_built(
            Help::builder().name(CONFIG_NAME).summary(CONFIG_SUMMARY).add_flag(
                CONFIG_FLAG,
                CONFIG_FLAG_SUMMARY,
            ).build(),
        );
        assert(r@.flags =~= config_help_spec().flags);
        r
    }

    pub fn try_from_args(args: &[String]) -> (r: Result<ConfigCommand, CommandError>)
        ensures
            match flag_arg_spec(strings_view(args@), CONFIG_FLAG@) {
                Ok(b) => r == Ok::<ConfigCommand, CommandError>(ConfigCommand { raw: b }),
                Err(e) => fails_with(r, e),
            },
    {
        let raw = expect_flag_arg(args, CONFIG_FLAG)?;
        Ok(ConfigCommand { raw })
    }

    /// Writes the servers of `configuration`, one block each: id, address and role, the role
    /// as raft stores it with `--raw`, by name otherwise.
    pub fn write_configuration(&self, configuration: &RaftConfiguration, out: &mut String)
        ensures
            final(out)@ == old(out)@ + config_text(configuration@, self.raw),
    {
        let servers = &configuration.servers;
        let ghost sv = configuration@;
        let mut k: usize = 0;
        while k < servers.len()
            invariant
                k <= servers.len(),
                sv == configuration@,
                sv == servers_view(servers@),
                out@ == old(out)@ + config_text(sv.take(k as int), self.raw),
            decreases servers.len() - k,
        {
            let server = &servers[k];
            push_str(out, "- ID: ");
            push_decimal(out, server.id);
            push_str(out, "\n  Address: ");
            push_str(out, server.address.as_str());
            push_str(out, "\n  Role: ");
            if self.raw {
                push_decimal(out, server.role.as_raw() as u64);
            } else {
                push_str(out, ConfigCommand::role_name(&server.role));
            }
            push_str(out, "\n");
            proof {
                assert(sv.take(k + 1).drop_last() =~= sv.take(k as int));
                assert(sv.take(k + 1).last() == server@);
            }
            k += 1;
            assert(out@ =~= old(out)@ + config_text(sv.take(k as int), self.raw));
        }
        assert(sv.take(k as int) =~= sv);
    }

    /// How the configuration names a role.
    pub fn role_name(role: &crate::raft::RaftRole) -> (r: &'static str)
        ensures
            r@ == crate::raft::role_name_spec(*role),
    {
        role.name()
    }
}

/// The blocks that `.config` writes for the servers `servers`.
pub open spec fn config_text(servers: Seq<ServerView>, raw: bool) -> Seq<char>
    decreases servers.len(),
{
    if servers.len() == 0 {
        Seq::empty()
    } else {
        let s = servers.last();
        config_text(servers.drop_last(), raw) + "- ID: "@ + decimal(s.0 as nat) + "\n  Address: "@ + s.1
            + "\n  Role: "@ + (if raw {
            decimal(role_raw(s.2) as nat)
        } else {
            role_name_spec(s.2)
        }) + "\n"@
    }
}

/// The lines that `.status` writes.
pub open spec fn status_text(dir_path: Seq<char>, term: u64, current_index: u64, first_index: u64) -> Seq<char> {
    "dir: "@ + dir_path + "\nterm: "@ + decimal(term as nat) + "\ncurrent_index: "@ + decimal(
        current_index as nat,
    ) + "\nfirst_index: "@ + decimal(first_index as nat) + "\n"@
}

/// `.log [--compact]`: every entry of the raft log, newest first.
#[derive(Clone, Copy, Debug, PartialEq, Eq)]
pub struct LogCommand {
    pub compact: bool,
}

impl LogCommand {
    pub fn help() -> (r: Help)
        ensures
            r@ == log_help_spec(),
    {
        let r = expect_built(
            Help::builder().name(LOG_NAME).summary(LOG_SUMMARY).add_flag(LOG_FLAG, LOG_FLAG_SUMMARY).build(),
        );
        assert(r@.flags =~= log_help_spec().flags);
        r
    }

    /// The writer of the log, which has written nothing yet.
    pub fn writer(&self) -> (r: crate::log::LogWriter)
        ensures
            r.compact == self.compact,
            r.prev_term is None,
    {
        crate::log::LogWriter::new(self.compact)
    }

    pub fn try_from_args(args: &[String]) -> (r: Result<LogCommand, CommandError>)
        ensures
            match flag_arg_spec(strings_view(args@), LOG_FLAG@) {
                Ok(b) => r == Ok::<LogCommand, CommandError>(LogCommand { compact: b }),
                Err(e) => fails_with(r, e),
            },
    {
        let compact = expect_flag_arg(args, LOG_FLAG)?;
        Ok(LogCommand { compact })
    }
}

/// `.quit`: leaves the program.
#[derive(Clone, Copy, Debug, PartialEq, Eq)]
pub struct QuitCommand;

impl QuitCommand {
    pub fn help() -> (r: Help)
        ensures
            r@ == plain_help(QUIT_NAME, QUIT_SUMMARY),
    {
        plain_help_text(QUIT_NAME, QUIT_SUMMARY)
    }

    pub fn try_from_args(args: &[String]) -> (r: Result<QuitCommand, CommandError>)
        ensures
            match no_args_spec(strings_view(args@)) {
                None => r == Ok::<QuitCommand, CommandError>(QuitCommand),
                Some(e) => fails_with(r, e),
            },
    {
        expect_no_args(args)?;
        Ok(QuitCommand)
    }
}

/// `.status`: a brief summary of the raft state.
#[derive(Clone, Copy, Debug, PartialEq, Eq)]
pub struct StatusCommand;

impl StatusCommand {
    pub fn help() -> (r: Help)
        ensures
            r@ == plain_help(STATUS_NAME, STATUS_SUMMARY),
    {
        plain_help_text(STATUS_NAME, STATUS_SUMMARY)
    }

    /// Writes the summary of the raft state: the directory, the term, the current index and the
    /// first index.
    pub fn write_status(dir_path: &str, term: u64, current_index: u64, first_index: u64, out: &mut String)
        ensures
            final(out)@ == old(out)@ + status_text(dir_path@, term, current_index, first_index),
    {
        push_str(out, "dir: ");
        push_str(out, dir_path);
        push_str(out, "\nterm: ");
        push_decimal(out, term);
        push_str(out, "\ncurrent_index: ");
        push_decimal(out, current_index);
        push_str(out, "\nfirst_index: ");
        push_decimal(out, first_index);
        push_str(out, "\n");
    }

    pub fn try_from_args(args: &[String]) -> (r: Result<StatusCommand, CommandError>)
        ensures
            match no_args_spec(strings_view(args@)) {
                None => r == Ok::<StatusCommand, CommandError>(StatusCommand),
                Some(e) => fails_with(r, e),
            },
    {
        expect_no_args(args)?;
        Ok(StatusCommand)
    }
}

/// A command of the root shell.
#[derive(Clone, Copy, Debug, PartialEq, Eq)]
pub enum RootCommand {
    Config(ConfigCommand),
    Log(LogCommand),
    Quit(QuitCommand),
    Snapshot(SnapshotCommand),
    Open(OpenCommand),
    Status(StatusCommand),
}

/// The root command of kind `k` with the arguments `args`.
pub open spec fn root_command_spec(k: RootCommandKind, args: Seq<Seq<char>>) -> Result<
    RootCommand,
    CommandErrorView,
> {
    match k {
        RootCommandKind::Config => match flag_arg_spec(args, CONFIG_FLAG@) {
            Ok(b) => Ok(RootCommand::Config(ConfigCommand { raw: b })),
            Err(e) => Err(e),
        },
        RootCommandKind::Log => match flag_arg_spec(args, LOG_FLAG@) {
            Ok(b) => Ok(RootCommand::Log(LogCommand { compact: b })),
            Err(e) => Err(e),
        },
        RootCommandKind::Quit => match no_args_spec(args) {
            None => Ok(RootCommand::Quit(QuitCommand)),
            Some(e) => Err(e),
        },
        RootCommandKind::Snapshot => match no_args_spec(args) {
            None => Ok(RootCommand::Snapshot(SnapshotCommand)),
            Some(e) => Err(e),
        },
        RootCommandKind::Open => match open_command_spec(args) {
            Ok(c) => Ok(RootCommand::Open(c)),
            Err(e) => Err(e),
        },
        RootCommandKind::Status => match no_args_spec(args) {
            None => Ok(RootCommand::Status(StatusCommand)),
            Some(e) => Err(e),
        },
    }
}

impl RootCommand {
    pub fn try_from_input(kind: RootCommandKind, args: &[String]) -> (r: Result<
        RootCommand,
        CommandError,
    >)
        ensures
            match root_command_spec(kind, strings_view(args@)) {
                Ok(c) => r == Ok::<RootCommand, CommandError>(c),
                Err(e) => fails_with(r, e),
            },
    {
        match kind {
            RootCommandKind::Config => Ok(RootCommand::Config(ConfigCommand::try_from_args(args)?)),
            RootCommandKind::Log => Ok(RootCommand::Log(LogCommand::try_from_args(args)?)),
            RootCommandKind::Quit => Ok(RootCommand::Quit(QuitCommand::try_from_args(args)?)),
            RootCommandKind::Snapshot => Ok(
                RootCommand::Snapshot(SnapshotCommand::try_from_args(args)?),
            ),
            RootCommandKind::Open => Ok(RootCommand::Open(OpenCommand::try_from_args(args)?)),
            RootCommandKind::Status => Ok(RootCommand::Status(StatusCommand::try_from_args(args)?)),
        }
    }

    pub fn kind(&self) -> (r: RootCommandKind)
        ensures
            r == root_command_kind_spec(*self),
    {
        match self {
            RootCommand::Config(_) => RootCommandKind::Config,
            RootCommand::Log(_) => RootCommandKind::Log,
            RootCommand::Quit(_) => RootCommandKind::Quit,
            RootCommand::Open(_) => RootCommandKind::Open,
            RootCommand::Snapshot(_) => RootCommandKind::Snapshot,
            RootCommand::Status(_) => RootCommandKind::Status,
        }
    }
}

pub open spec fn root_command_kind_spec(c: RootCommand) -> RootCommandKind {
    match c {
        RootCommand::Config(_) => RootCommandKind::Config,
        RootCommand::Log(_) => RootCommandKind::Log,
        RootCommand::Quit(_) => RootCommandKind::Quit,
        RootCommand::Open(_) => RootCommandKind::Open,
        RootCommand::Snapshot(_) => RootCommandKind::Snapshot,
        RootCommand::Status(_) => RootCommandKind::Status,
    }
}

// ---------------------------------------------------------------------------------------------
// SQL
// ---------------------------------------------------------------------------------------------

/// SQL text to run in the shell's connection.
#[derive(Clone, Debug, PartialEq, Eq)]
pub struct SqlCommand {
    pub raw: String,
}

impl SqlCommand {
    /// The SQL command for `raw`, given what the SQL parser reported of it: nothing where it
    /// parsed, else the parser's message.
    pub fn try_from_raw(raw: &str, parse_error: Option<String>) -> (r: Result<SqlCommand, CommandError>)
        ensures
            match parse_error {
                None => r matches Ok(c) && c.raw@ == raw@,
                Some(m) => fails_with(r, CommandErrorView::InvalidSql(m@)),
            },
    {
        match parse_error {
            Some(message) => Err(CommandError::InvalidSql { message }),
            None => {
                let mut owned = String::new();
                crate::text::push_str(&mut owned, raw);
                Ok(SqlCommand { raw: owned })
            },
        }
    }
}

// ---------------------------------------------------------------------------------------------
// Lines of input
// ---------------------------------------------------------------------------------------------

/// A line of input, read as a command.
#[derive(Clone, Debug, PartialEq, Eq)]
pub enum Command {
    Noop,
    Help(HelpCommand),
    Root(RootCommand),
    Snapshot(SnapshotShellCommand),
    Open(OpenShellCommand),
    Sql(SqlCommand),
}

/// The plain values of a command.
pub enum CommandView {
    Noop,
    Help(HelpCommand),
    Root(RootCommand),
    Snapshot(SnapshotShellCommandView),
    Open(OpenShellCommand),
    Sql(Seq<char>),
}

impl View for Command {
    type V = CommandView;

    open spec fn view(&self) -> CommandView {
        match self {
            Command::Noop => CommandView::Noop,
            Command::Help(c) => CommandView::Help(*c),
            Command::Root(c) => CommandView::Root(*c),
            Command::Snapshot(c) => CommandView::Snapshot(c@),
            Command::Open(c) => CommandView::Open(*c),
            Command::Sql(c) => CommandView::Sql(c.raw@),
        }
    }
}

/// Whether `r` is the outcome `s`, each taken by its plain values.
pub open spec fn outcome_is(r: Result<Command, CommandError>, s: Result<CommandView, CommandErrorView>) -> bool {
    match s {
        Ok(v) => r matches Ok(c) && c@ == v,
        Err(e) => fails_with(r, e),
    }
}

/// The command of the words of a line that starts with `.`: the first word names the command,
/// the others are its arguments.
pub open spec fn command_from_words(ws: Seq<Seq<char>>) -> Result<CommandView, CommandErrorView> {
    if ws.len() == 0 {
        Ok(CommandView::Noop)
    } else {
        let args = ws.drop_first();
        match kind_from_name_spec(ws[0]) {
            None => Err(CommandErrorView::UnknownCommand),
            Some(CommandKind::Help) => match help_command_spec(args) {
                Ok(c) => Ok(CommandView::Help(c)),
                Err(e) => Err(e),
            },
            Some(CommandKind::Root(k)) => match root_command_spec(k, args) {
                Ok(c) => Ok(CommandView::Root(c)),
                Err(e) => Err(e),
            },
            Some(CommandKind::Snapshot(k)) => match snapshot_command_spec(k, args) {
                Ok(c) => Ok(CommandView::Snapshot(c)),
                Err(e) => Err(e),
            },
            Some(CommandKind::Open(k)) => match open::open_shell_command_spec(k, args) {
                Ok(c) => Ok(CommandView::Open(c)),
                Err(e) => Err(e),
            },
            // A word that starts with `.` names neither nothing nor SQL.
            Some(CommandKind::Noop) => Ok(CommandView::Noop),
            Some(CommandKind::Sql) => Err(CommandErrorView::UnknownCommand),
        }
    }
}

/// The words that `shell_words::split` cuts a text into; `None` where it reports a quote that is
/// never closed.
pub uninterp spec fn shell_words_split(text: Seq<char>) -> Option<Seq<Seq<char>>>;

/// Calls `shell_words::split`, keeping the words and dropping the error's value. Claimed: the
/// result is the named value `shell_words_split` of the text; and, as the crate's state machine
/// shows (a first character other than a quote, a backslash, a blank or `#` starts a word with
/// that character), a text that starts with `.` and splits at all gives at least one word, the
/// first of which starts with `.`.
#[verifier::external_body]
fn split_words(text: &str) -> (r: Option<Vec<String>>)
    ensures
        match r {
            Some(v) => shell_words_split(text@) == Some(strings_view(v@)),
            None => shell_words_split(text@) is None,
        },
        (text@.len() > 0 && text@[0] == '.' && r is Some) ==> (r->0@.len() > 0 && r->0@[0]@.len() > 0
            && r->0@[0]@[0] == '.'),
{
    shell_words::split(text).ok()
}

impl Command {
    /// The command of the words of a line that starts with `.`.
    pub fn from_words(words: &[String]) -> (r: Result<Command, CommandError>)
        requires
            words@.len() > 0 ==> (words@[0]@.len() > 0 && words@[0]@[0] == '.'),
        ensures
            outcome_is(r, command_from_words(strings_view(words@))),
    {
        if words.len() == 0 {
            return Ok(Command::Noop);
        }
        let ghost ws = strings_view(words@);
        assert(ws[0] == words@[0]@);
        let args = copy_strings_from(words, 1);
        assert(strings_view(args@) =~= ws.drop_first());
        let r = match CommandKind::from_name(words[0].as_str()) {
            None => Err(CommandError::UnknownCommand),
            Some(CommandKind::Help) => match HelpCommand::try_from_args(args.as_slice()) {
                Ok(c) => Ok(Command::Help(c)),
                Err(e) => Err(e),
            },
            Some(CommandKind::Root(k)) => match RootCommand::try_from_input(k, args.as_slice()) {
                Ok(c) => Ok(Command::Root(c)),
                Err(e) => Err(e),
            },
            Some(CommandKind::Snapshot(k)) => match SnapshotShellCommand::try_from_input(k, args.as_slice()) {
                Ok(c) => Ok(Command::Snapshot(c)),
                Err(e) => Err(e),
            },
            Some(CommandKind::Open(k)) => match OpenShellCommand::try_from_input(k, args.as_slice()) {
                Ok(c) => Ok(Command::Open(c)),
                Err(e) => Err(e),
            },
            Some(CommandKind::Noop) => {
                proof {
                    assert(false);
                }
                Ok(Command::Noop)
            },
            Some(CommandKind::Sql) => {
                proof {
                    assert(false);
                }
                Err(CommandError::UnknownCommand)
            },
        };
        r
    }

    /// The command of a line of input: nothing for an empty line; for a line that starts with
    /// `.`, the command its words name; else SQL, given what the SQL parser reported of the
    /// line.
    pub fn from_str(raw: &str, sql_parse_error: Option<String>) -> (r: Result<Command, CommandError>)
        ensures
            raw@.len() == 0 ==> r matches Ok(Command::Noop),
            (raw@.len() > 0 && raw@[0] != '.') ==> match sql_parse_error {
                None => r matches Ok(Command::Sql(c)) && c.raw@ == raw@,
                Some(m) => fails_with(r, CommandErrorView::InvalidSql(m@)),
            },
            (raw@.len() > 0 && raw@[0] == '.') ==> match shell_words_split(raw@) {
                None => fails_with(r, CommandErrorView::UnclosedQuote),
                Some(ws) => outcome_is(r, command_from_words(ws)),
            },
    {
        let chars = chars_of(raw);
        if chars.len() == 0 {
            return Ok(Command::Noop);
        }
        if chars[0] == '.' {
            match split_words(raw) {
                None => Err(CommandError::UnclosedQuote),
                Some(words) => Command::from_words(words.as_slice()),
            }
        } else {
            match SqlCommand::try_from_raw(raw, sql_parse_error) {
                Ok(c) => Ok(Command::Sql(c)),
                Err(e) => Err(e),
            }
        }
    }

    pub fn kind(&self) -> (r: CommandKind)
        ensures
            r == command_kind_spec(self@),
    {
        match self {
            Command::Help(_) => CommandKind::Help,
            Command::Noop => CommandKind::Noop,
            Command::Root(c) => CommandKind::Root(c.kind()),
            Command::Snapshot(c) => CommandKind::Snapshot(c.kind()),
            Command::Open(c) => CommandKind::Open(c.kind()),
            Command::Sql(_) => CommandKind::Sql,
        }
    }

    /// Nothing where the command may run in a shell of kind `shell`; else the error that says it
    /// may not.
    pub fn check_available(&self, shell: ShellKind) -> (r: Result<(), CommandError>)
        ensures
            available_spec(command_kind_spec(self@), shell) ==> r is Ok,
            !available_spec(command_kind_spec(self@), shell) ==> fails_with(
                r,
                CommandErrorView::Unavailable(kind_name_spec(command_kind_spec(self@)), shell_name_spec(shell)),
            ),
    {
        let kind = self.kind();
        let available = match (kind, shell) {
            (CommandKind::Noop, _) | (CommandKind::Help, _) => true,
            (CommandKind::Root(_), ShellKind::Root) => true,
            (CommandKind::Snapshot(_), ShellKind::Snapshot) => true,
            (CommandKind::Open(_), ShellKind::Open) => true,
            (CommandKind::Sql, ShellKind::Snapshot) | (CommandKind::Sql, ShellKind::Open) => true,
            _ => false,
        };
        if available {
            Ok(())
        } else {
            Err(CommandError::Unavailable { command: kind.name(), shell: shell.name() })
        }
    }
}

pub open spec fn command_kind_spec(c: CommandView) -> CommandKind {
    match c {
        CommandView::Help(_) => CommandKind::Help,
        CommandView::Noop => CommandKind::Noop,
        CommandView::Root(r) => CommandKind::Root(root_command_kind_spec(r)),
        CommandView::Snapshot(s) => CommandKind::Snapshot(snapshot::snapshot_command_kind_spec(s)),
        CommandView::Open(o) => CommandKind::Open(open::open_command_kind_spec(o)),
        CommandView::Sql(_) => CommandKind::Sql,
    }
}

// ---------------------------------------------------------------------------------------------
// Shells
// ---------------------------------------------------------------------------------------------

/// The shells: which commands a line of input may name.
#[derive(Clone, Copy, Debug, PartialEq, Eq, Structural)]
pub enum ShellKind {
    Root,
    Snapshot,
    Open,
}

pub open spec fn shell_name_spec(s: ShellKind) -> Seq<char> {
    match s {
        ShellKind::Root => "root"@,
        ShellKind::Snapshot => "snapshot"@,
        ShellKind::Open => "open"@,
    }
}

/// Whether a command of kind `c` may run in a shell of kind `s`: no-op and help anywhere, each
/// shell's own commands in it, SQL in the snapshot and open shells.
pub open spec fn available_spec(c: CommandKind, s: ShellKind) -> bool {
    match c {
        CommandKind::Noop => true,
        CommandKind::Help => true,
        CommandKind::Root(_) => s == ShellKind::Root,
        CommandKind::Snapshot(_) => s == ShellKind::Snapshot,
        CommandKind::Open(_) => s == ShellKind::Open,
        CommandKind::Sql => s == ShellKind::Snapshot || s == ShellKind::Open,
    }
}

pub open spec fn shell_help_spec(s: ShellKind) -> HelpView {
    match s {
        ShellKind::Root => shell_help(ROOT_SHELL_NAME, ROOT_SHELL_SUMMARY, root_shell_commands_spec()),
        ShellKind::Snapshot => shell_help(
            snapshot::SNAPSHOT_SHELL_NAME,
            snapshot::SNAPSHOT_SHELL_SUMMARY,
            snapshot::snapshot_shell_commands_spec(),
        ),
        ShellKind::Open => shell_help(
            open::OPEN_SHELL_NAME,
            open::OPEN_SHELL_SUMMARY,
            open::open_shell_commands_spec(),
        ),
    }
}

impl ShellKind {
    pub fn name(&self) -> (r: &'static str)
        ensures
            r@ == shell_name_spec(*self),
    {
        match self {
            ShellKind::Root => "root",
            ShellKind::Snapshot => "snapshot",
            ShellKind::Open => "open",
        }
    }

    /// The help of the shell.
    pub fn help(&self) -> (r: Help)
        ensures
            r@ == shell_help_spec(*self),
    {
        match self {
            ShellKind::Root => RootShell::help(),
            ShellKind::Snapshot => snapshot::SnapshotShell::help(),
            ShellKind::Open => open::OpenShell::help(),
        }
    }
}

/// The shell the program is in after the command `c` ran in the shell `shell`: `.snapshot` and
/// `.open` enter their shells; `.abort`, `.finish` and `.close` go back to the root shell.
pub open spec fn shell_after_spec(c: CommandView, shell: ShellKind) -> ShellKind {
    match c {
        CommandView::Root(RootCommand::Snapshot(_)) => ShellKind::Snapshot,
        CommandView::Root(RootCommand::Open(_)) => ShellKind::Open,
        CommandView::Snapshot(SnapshotShellCommandView::Abort) => ShellKind::Root,
        CommandView::Snapshot(SnapshotShellCommandView::Finish(_)) => ShellKind::Root,
        CommandView::Open(OpenShellCommand::Close(_)) => ShellKind::Root,
        _ => shell,
    }
}

/// The prompt after the command `c` ran with the prompt `prompt`: each shell's own prompt on
/// entering it, the open shell's prompt at the new index after `.index`, the root prompt on
/// leaving a shell.
pub open spec fn prompt_after_spec(c: CommandView, prompt: Seq<char>) -> Seq<char> {
    match c {
        CommandView::Root(RootCommand::Snapshot(_)) => "snapshot> "@,
        CommandView::Root(RootCommand::Open(o)) => open_prompt_spec(o.index),
        CommandView::Snapshot(SnapshotShellCommandView::Abort) => "> "@,
        CommandView::Snapshot(SnapshotShellCommandView::Finish(_)) => "> "@,
        CommandView::Open(OpenShellCommand::Close(_)) => "> "@,
        CommandView::Open(OpenShellCommand::Index(i)) => open_prompt_spec(Some(i.index)),
        _ => prompt,
    }
}

/// The shell the program is in, and its prompt.
#[derive(Clone, Debug)]
pub struct ShellState {
    pub kind: ShellKind,
    pub prompt: Prompt,
}

impl ShellState {
    /// The state the program starts in: the root shell, with the prompt `> `.
    pub fn root() -> (r: ShellState)
        ensures
            r.kind == ShellKind::Root,
            r.prompt@ == "> "@,
    {
        ShellState { kind: ShellKind::Root, prompt: Prompt::default() }
    }

    /// Moves to the shell and prompt that follow the command `c`, once it ran.
    pub fn after(&mut self, c: &Command)
        ensures
            final(self).kind == shell_after_spec(c@, old(self).kind),
            final(self).prompt@ == prompt_after_spec(c@, old(self).prompt@),
    {
        match c {
            Command::Root(RootCommand::Snapshot(_)) => {
                self.kind = ShellKind::Snapshot;
                self.prompt = Prompt::new("snapshot");
                proof {
                    reveal_strlit("snapshot");
                    reveal_strlit("> ");
                    reveal_strlit("snapshot> ");
                    assert(self.prompt@ =~= "snapshot> "@);
                }
            },
            Command::Root(RootCommand::Open(o)) => {
                self.kind = ShellKind::Open;
                self.prompt = Prompt::open_at(o.index);
            },
            Command::Snapshot(SnapshotShellCommand::Abort(_))
            | Command::Snapshot(SnapshotShellCommand::Finish(_))
            | Command::Open(OpenShellCommand::Close(_)) => {
                self.kind = ShellKind::Root;
                self.prompt = Prompt::default();
            },
            Command::Open(OpenShellCommand::Index(i)) => {
                self.prompt = Prompt::open_at(Some(i.index));
            },
            _ => {},
        }
    }
}

/// The commands the root shell lists in its help.
pub open spec fn root_shell_commands_spec() -> Seq<(Seq<char>, Seq<char>, bool, nat)> {
    seq![
        entry_of(HELP_TITLE, HELP_SUMMARY, false),
        entry_of(CONFIG_NAME, CONFIG_SUMMARY, false),
        entry_of(LOG_NAME, LOG_SUMMARY, false),
        entry_of(QUIT_NAME, QUIT_SUMMARY, false),
        entry_of(snapshot::SNAPSHOT_NAME, snapshot::SNAPSHOT_SUMMARY, false),
        entry_of(STATUS_NAME, STATUS_SUMMARY, false),
        entry_of(open::OPEN_NAME, open::OPEN_SUMMARY, false),
    ]
}

/// The shell the program starts in.
#[derive(Clone, Debug)]
pub struct RootShell {
    prompt: Prompt,
}

impl RootShell {
    /// The root shell, with the prompt `> `.
    pub fn new() -> (r: RootShell)
        ensures
            r.prompt_spec()@ == "> "@,
    {
        RootShell { prompt: Prompt::default() }
    }

    pub closed spec fn prompt_spec(&self) -> Prompt {
        self.prompt
    }

    /// The help of the root shell: one line per command.
    pub fn help() -> (r: Help)
        ensures
            r@ == shell_help(ROOT_SHELL_NAME, ROOT_SHELL_SUMMARY, root_shell_commands_spec()),
    {
        let r = expect_built(
            Help::builder().name(ROOT_SHELL_NAME).summary(ROOT_SHELL_SUMMARY).skip_usage()
                .add_command(HELP_TITLE, HELP_SUMMARY)
                .add_command(CONFIG_NAME, CONFIG_SUMMARY)
                .add_command(LOG_NAME, LOG_SUMMARY)
                .add_command(QUIT_NAME, QUIT_SUMMARY)
                .add_command(snapshot::SNAPSHOT_NAME, snapshot::SNAPSHOT_SUMMARY)
                .add_command(STATUS_NAME, STATUS_SUMMARY)
                .add_command(open::OPEN_NAME, open::OPEN_SUMMARY)
                .build(),
        );
        assert(r@.commands =~= root_shell_commands_spec());
        r
    }

    pub fn prompt(&self) -> (r: &Prompt)
        ensures
            *r == self.prompt_spec(),
    {
        &self.prompt
    }
}

// ---------------------------------------------------------------------------------------------
// Laws
// ---------------------------------------------------------------------------------------------

/// Every command of the root shell is named in the root shell's written help.
pub proof fn lemma_root_help_lists_commands(k: RootCommandKind)
    ensures
        contains_text(render_spec(shell_help_spec(ShellKind::Root)), root_kind_name_spec(k)),
{
    let h = shell_help_spec(ShellKind::Root);
    lemma_help_lists_entries(h);
    let j: int = match k {
        RootCommandKind::Config => 1,
        RootCommandKind::Log => 2,
        RootCommandKind::Quit => 3,
        RootCommandKind::Snapshot => 4,
        RootCommandKind::Status => 5,
        RootCommandKind::Open => 6,
    };
    assert(h.commands[j].0 == root_kind_name_spec(k));
}

/// Every command of the snapshot shell is named in the snapshot shell's written help.
pub proof fn lemma_snapshot_help_lists_commands(k: SnapshotShellCommandKind)
    ensures
        contains_text(render_spec(shell_help_spec(ShellKind::Snapshot)), snapshot_kind_name_spec(k)),
{
    let h = shell_help_spec(ShellKind::Snapshot);
    lemma_help_lists_entries(h);
    let j: int = match k {
        SnapshotShellCommandKind::Abort => 0,
        SnapshotShellCommandKind::AddServer => 1,
        SnapshotShellCommandKind::Finish => 2,
        SnapshotShellCommandKind::Info => 4,
        SnapshotShellCommandKind::SetIndex => 5,
        SnapshotShellCommandKind::SetTerm => 6,
        SnapshotShellCommandKind::SetTimestamp => 7,
    };
    assert(h.commands[j].0 == snapshot_kind_name_spec(k));
}

/// Every command of the open shell is named in the open shell's written help.
pub proof fn lemma_open_help_lists_commands(k: OpenShellCommandKind)
    ensures
        contains_text(render_spec(shell_help_spec(ShellKind::Open)), open_kind_name_spec(k)),
{
    let h = shell_help_spec(ShellKind::Open);
    lemma_help_lists_entries(h);
    let j: int = match k {
        OpenShellCommandKind::Close => 0,
        OpenShellCommandKind::Databases => 1,
        OpenShellCommandKind::Index => 2,
    };
    assert(h.commands[j].0 == open_kind_name_spec(k));
}

/// The length and the second and third characters of a command name, which tell the names apart.
spec fn name_key(s: Seq<char>) -> (int, char, char) {
    (s.len() as int, s[1], s[2])
}

/// The name of every command kind reads back as that kind.
pub proof fn lemma_kind_name_roundtrip(k: CommandKind)
    requires
        k !is Noop,
        k !is Sql,
    ensures
        kind_from_name_spec(kind_name_spec(k)) == Some(k),
{
    reveal_strlit(".help");
    reveal_strlit(".config");
    reveal_strlit(".log");
    reveal_strlit(".quit");
    reveal_strlit(".status");
    reveal_strlit(".snapshot");
    reveal_strlit(".open");
    reveal_strlit(".abort");
    reveal_strlit(".add-server");
    reveal_strlit(".finish");
    reveal_strlit(".info");
    reveal_strlit(".set-index");
    reveal_strlit(".set-term");
    reveal_strlit(".set-timestamp");
    reveal_strlit(".close");
    reveal_strlit(".index");
    reveal_strlit(".databases");
    assert(name_key(".help"@) == (5int, 'h', 'e'));
    assert(name_key(".config"@) == (7int, 'c', 'o'));
    assert(name_key(".log"@) == (4int, 'l', 'o'));
    assert(name_key(".quit"@) == (5int, 'q', 'u'));
    assert(name_key(".status"@) == (7int, 's', 't'));
    assert(name_key(".snapshot"@) == (9int, 's', 'n'));
    assert(name_key(".open"@) == (5int, 'o', 'p'));
    assert(name_key(".abort"@) == (6int, 'a', 'b'));
    assert(name_key(".add-server"@) == (11int, 'a', 'd'));
    assert(name_key(".finish"@) == (7int, 'f', 'i'));
    assert(name_key(".info"@) == (5int, 'i', 'n'));
    assert(name_key(".set-index"@) == (10int, 's', 'e'));
    assert(name_key(".set-term"@) == (9int, 's', 'e'));
    assert(name_key(".set-timestamp"@) == (14int, 's', 'e'));
    assert(name_key(".close"@) == (6int, 'c', 'l'));
    assert(name_key(".index"@) == (6int, 'i', 'n'));
    assert(name_key(".databases"@) == (10int, 'd', 'a'));
}

/// Every command kind that has a help text is named in the program's written help.
pub proof fn lemma_general_help_lists_commands(k: CommandKind)
    requires
        k !is Noop,
        k !is Sql,
    ensures
        contains_text(
            render_spec(shell_help(ROOT_SHELL_NAME, ROOT_SHELL_SUMMARY, general_help_commands_spec())),
            kind_name_spec(k),
        ),
{
    let h = shell_help(ROOT_SHELL_NAME, ROOT_SHELL_SUMMARY, general_help_commands_spec());
    lemma_help_lists_entries(h);
    let j: int = match k {
        CommandKind::Help => 0,
        CommandKind::Root(RootCommandKind::Config) => 1,
        CommandKind::Root(RootCommandKind::Log) => 2,
        CommandKind::Root(RootCommandKind::Quit) => 3,
        CommandKind::Root(RootCommandKind::Snapshot) => 4,
        CommandKind::Root(RootCommandKind::Open) => 5,
        CommandKind::Root(RootCommandKind::Status) => 6,
        CommandKind::Snapshot(SnapshotShellCommandKind::Abort) => 7,
        CommandKind::Snapshot(SnapshotShellCommandKind::AddServer) => 8,
        CommandKind::Snapshot(SnapshotShellCommandKind::Finish) => 9,
        CommandKind::Snapshot(SnapshotShellCommandKind::Info) => 10,
        CommandKind::Snapshot(SnapshotShellCommandKind::SetIndex) => 11,
        CommandKind::Snapshot(SnapshotShellCommandKind::SetTerm) => 12,
        CommandKind::Snapshot(SnapshotShellCommandKind::SetTimestamp) => 13,
        CommandKind::Open(OpenShellCommandKind::Close) => 14,
        CommandKind::Open(OpenShellCommandKind::Index) => 15,
        CommandKind::Open(OpenShellCommandKind::Databases) => 16,
        _ => 0,
    };
    assert(h.commands[j].0 == kind_name_spec(k));
}

/// Entering the snapshot shell and aborting goes back to the root shell and its prompt.
pub proof fn lemma_abort_undoes_snapshot(prompt: Seq<char>)
    ensures
        shell_after_spec(
            CommandView::Snapshot(SnapshotShellCommandView::Abort),
            shell_after_spec(CommandView::Root(RootCommand::Snapshot(SnapshotCommand)), ShellKind::Root),
        ) == ShellKind::Root,
        prompt_after_spec(
            CommandView::Snapshot(SnapshotShellCommandView::Abort),
            prompt_after_spec(CommandView::Root(RootCommand::Snapshot(SnapshotCommand)), prompt),
        ) == "> "@,
{
}

/// Opening a state, moving between indexes, and closing goes back to the root shell and its
/// prompt.
pub proof fn lemma_close_undoes_open(open: OpenCommand, moves: Seq<IndexCommand>, prompt: Seq<char>)
    ensures
        shell_after_spec(
            CommandView::Open(OpenShellCommand::Close(open::CloseCommand)),
            moves_shell(moves, shell_after_spec(CommandView::Root(RootCommand::Open(open)), ShellKind::Root)),
        ) == ShellKind::Root,
        moves_shell(moves, shell_after_spec(CommandView::Root(RootCommand::Open(open)), ShellKind::Root))
            == ShellKind::Open,
        prompt_after_spec(CommandView::Open(OpenShellCommand::Close(open::CloseCommand)), prompt) == "> "@,
    decreases moves.len(),
{
    if moves.len() > 0 {
        lemma_close_undoes_open(open, moves.drop_last(), prompt);
    }
}

/// The shell after a run of `.index` commands.
pub open spec fn moves_shell(moves: Seq<IndexCommand>, shell: ShellKind) -> ShellKind
    decreases moves.len(),
{
    if moves.len() == 0 {
        shell
    } else {
        shell_after_spec(CommandView::Open(OpenShellCommand::Index(moves.last())), moves_shell(moves.drop_last(), shell))
    }
}

/// Whether the prompt is that of the shell: `> ` in the root shell, `snapshot> ` in the snapshot
/// shell, the prompt at some index or at the latest state in the open shell.
pub open spec fn prompt_matches_shell(kind: ShellKind, prompt: Seq<char>) -> bool {
    match kind {
        ShellKind::Root => prompt == "> "@,
        ShellKind::Snapshot => prompt == "snapshot> "@,
        ShellKind::Open => exists|i: Option<u64>| prompt == open_prompt_spec(i),
    }
}

/// Running a command where it is available keeps the prompt that of the shell.
pub proof fn lemma_prompt_follows_shell(c: CommandView, kind: ShellKind, prompt: Seq<char>)
    requires
        available_spec(command_kind_spec(c), kind),
        prompt_matches_shell(kind, prompt),
    ensures
        prompt_matches_shell(shell_after_spec(c, kind), prompt_after_spec(c, prompt)),
{
    match c {
        CommandView::Root(RootCommand::Open(o)) => {
            assert(prompt_after_spec(c, prompt) == open_prompt_spec(o.index));
        },
        CommandView::Open(OpenShellCommand::Index(i)) => {
            assert(prompt_after_spec(c, prompt) == open_prompt_spec(Some(i.index)));
        },
        _ => {},
    }
}

/// A command named alone, of a kind that takes no argument, is that command.
pub proof fn lemma_bare_name_is_command(k: CommandKind)
    requires
        k is Help || k is Root || k == CommandKind::Snapshot(SnapshotShellCommandKind::Abort) || k
            == CommandKind::Snapshot(SnapshotShellCommandKind::Info) || k == CommandKind::Open(
            OpenShellCommandKind::Close,
        ) || k == CommandKind::Open(OpenShellCommandKind::Databases),
    ensures
        command_from_words(seq![kind_name_spec(k)]) matches Ok(c) && command_kind_spec(c) == k,
{
    lemma_kind_name_roundtrip(k);
    let ws = seq![kind_name_spec(k)];
    assert(ws.drop_first() =~= Seq::<Seq<char>>::empty());
}

} // verus!
