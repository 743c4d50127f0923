//! The open shell: queries on the databases of a point-in-time state.

use vstd::prelude::*;

use crate::help::{entry_of, expect_built, Help, HelpView};
use crate::text::{copy_strings_from, parse_u64_spec, parse_u64_str, str_eq, strings_view};
use super::{
    expect_no_args, fails_with, no_args_spec, plain_help, plain_help_text, shell_help,
    CommandError, CommandErrorView,
};

verus! {

pub const OPEN_NAME: &'static str = ".open";
pub const OPEN_SUMMARY: &'static str = "open a shell on a point-in-time dqlite state";
pub const OPEN_ARG: &'static str = "index";
pub const OPEN_ARG_SUMMARY: &'static str = "the index of the point-in-time state to open, or 'latest' (default)";

pub const CLOSE_NAME: &'static str = ".close";
pub const CLOSE_SUMMARY: &'static str = "exit the open shell and close the connection";
pub const INDEX_NAME: &'static str = ".index";
pub const INDEX_SUMMARY: &'static str = "set the raft index to query for all databases";
pub const DATABASES_NAME: &'static str = ".databases";
pub const DATABASES_SUMMARY: &'static str = "list databases available in the open shell";

pub const OPEN_SHELL_NAME: &'static str = "open shell";
pub const OPEN_SHELL_SUMMARY: &'static str = "query a point-in-time dqlite state";

pub open spec fn open_command_help_spec() -> HelpView {
    HelpView {
        args: seq![entry_of(OPEN_ARG, OPEN_ARG_SUMMARY, true)],
        ..plain_help(OPEN_NAME, OPEN_SUMMARY)
    }
}

/// `.open [index|latest]`: opens the state at a raft index, or the latest one.
#[derive(Clone, Copy, Debug, PartialEq, Eq)]
pub struct OpenCommand {
    pub index: Option<u64>,
}

/// The `.open` command for the arguments `args`.
pub open spec fn open_command_spec(args: Seq<Seq<char>>) -> Result<OpenCommand, CommandErrorView> {
    if args.len() == 0 {
        Ok(OpenCommand { index: None })
    } else if args.len() == 1 {
        if args[0] == "latest"@ {
            Ok(OpenCommand { index: None })
        } else {
            match parse_u64_spec(args[0]) {
                Some(n) => Ok(OpenCommand { index: Some(n) }),
                None => Err(CommandErrorView::InvalidNumber(OPEN_ARG@, args[0])),
            }
        }
    } else {
        Err(CommandErrorView::UnrecognizedArguments(args))
    }
}

impl OpenCommand {
    pub fn help() -> (r: Help)
        ensures
            r@ == open_command_help_spec(),
    {
        let r = expect_built(
            Help::builder().name(OPEN_NAME).summary(OPEN_SUMMARY).add_optional_arg(
                OPEN_ARG,
                OPEN_ARG_SUMMARY,
            ).build(),
        );
        assert(r@.args =~= open_command_help_spec().args);
        r
    }

    pub fn try_from_args(args: &[String]) -> (r: Result<OpenCommand, CommandError>)
        ensures
            match open_command_spec(strings_view(args@)) {
                Ok(c) => r == Ok::<OpenCommand, CommandError>(c),
                Err(e) => fails_with(r, e),
            },
    {
        if args.len() == 0 {
            return Ok(OpenCommand { index: None });
        }
        if args.len() == 1 {
            if str_eq(args[0].as_str(), "latest") {
                return Ok(OpenCommand { index: None });
            }
            return match parse_u64_str(args[0].as_str()) {
                Some(n) => Ok(OpenCommand { index: Some(n) }),
                None => Err(CommandError::InvalidNumber { what: OPEN_ARG, raw: args[0].clone() }),
            };
        }
        let copied = copy_strings_from(args, 0);
        assert(strings_view(args@).skip(0) =~= strings_view(args@));
        Err(CommandError::UnrecognizedArguments { args: copied })
    }
}

/// `.close`: leaves the open shell.
#[derive(Clone, Copy, Debug, PartialEq, Eq)]
pub struct CloseCommand;

impl CloseCommand {
    pub fn help() -> (r: Help)
        ensures
            r@ == plain_help(CLOSE_NAME, CLOSE_SUMMARY),
    {
        plain_help_text(CLOSE_NAME, CLOSE_SUMMARY)
    }

    pub fn try_from_args(args: &[String]) -> (r: Result<CloseCommand, CommandError>)
        ensures
            match no_args_spec(strings_view(args@)) {
                None => r == Ok::<CloseCommand, CommandError>(CloseCommand),
                Some(e) => fails_with(r, e),
            },
    {
        expect_no_args(args)?;
        Ok(CloseCommand)
    }
}

/// `.index <index>`: moves the open shell to another raft index.
#[derive(Clone, Copy, Debug, PartialEq, Eq)]
pub struct IndexCommand {
    pub index: u64,
}

/// The `.index` command for the arguments `args`: exactly one, a number.
pub open spec fn index_command_spec(args: Seq<Seq<char>>) -> Result<IndexCommand, CommandErrorView> {
    if args.len() != 1 {
        Err(CommandErrorView::UnrecognizedArguments(args))
    } else {
        match parse_u64_spec(args[0]) {
            Some(n) => Ok(IndexCommand { index: n }),
            None => Err(CommandErrorView::InvalidNumber(OPEN_ARG@, args[0])),
        }
    }
}

impl IndexCommand {
    pub fn help() -> (r: Help)
        ensures
            r@ == plain_help(INDEX_NAME, INDEX_SUMMARY),
    {
        plain_help_text(INDEX_NAME, INDEX_SUMMARY)
    }

    pub fn try_from_args(args: &[String]) -> (r: Result<IndexCommand, CommandError>)
        ensures
            match index_command_spec(strings_view(args@)) {
                Ok(c) => r == Ok::<IndexCommand, CommandError>(c),
                Err(e) => fails_with(r, e),
            },
    {
        if args.len() != 1 {
            let copied = copy_strings_from(args, 0);
            assert(strings_view(args@).skip(0) =~= strings_view(args@));
            return Err(CommandError::UnrecognizedArguments { args: copied });
        }
        match parse_u64_str(args[0].as_str()) {
            Some(index) => Ok(IndexCommand { index }),
            None => Err(CommandError::InvalidNumber { what: OPEN_ARG, raw: args[0].clone() }),
        }
    }
}

/// `.databases`: lists the databases of the open shell.
#[derive(Clone, Copy, Debug, PartialEq, Eq)]
pub struct DatabasesCommand;

impl DatabasesCommand {
    pub fn help() -> (r: Help)
        ensures
            r@ == plain_help(DATABASES_NAME, DATABASES_SUMMARY),
    {
        plain_help_text(DATABASES_NAME, DATABASES_SUMMARY)
    }

    pub fn try_from_args(args: &[String]) -> (r: Result<DatabasesCommand, CommandError>)
        ensures
            match no_args_spec(strings_view(args@)) {
                None => r == Ok::<DatabasesCommand, CommandError>(DatabasesCommand),
                Some(e) => fails_with(r, e),
            },
    {
        expect_no_args(args)?;
        Ok(DatabasesCommand)
    }
}

/// The commands of the open shell.
#[derive(Clone, Copy, Debug, PartialEq, Eq, Structural)]
pub enum OpenShellCommandKind {
    Close,
    Index,
    Databases,
}

pub open spec fn open_kind_name_spec(k: OpenShellCommandKind) -> Seq<char> {
    match k {
        OpenShellCommandKind::Close => CLOSE_NAME@,
        OpenShellCommandKind::Index => INDEX_NAME@,
        OpenShellCommandKind::Databases => DATABASES_NAME@,
    }
}

pub open spec fn open_kind_from_name_spec(s: Seq<char>) -> Option<OpenShellCommandKind> {
    if s == CLOSE_NAME@ {
        Some(OpenShellCommandKind::Close)
    } else if s == INDEX_NAME@ {
        Some(OpenShellCommandKind::Index)
    } else if s == DATABASES_NAME@ {
        Some(OpenShellCommandKind::Databases)
    } else {
        None
    }
}

pub open spec fn open_kind_help_spec(k: OpenShellCommandKind) -> HelpView {
    match k {
        OpenShellCommandKind::Close => plain_help(CLOSE_NAME, CLOSE_SUMMARY),
        OpenShellCommandKind::Index => plain_help(INDEX_NAME, INDEX_SUMMARY),
        OpenShellCommandKind::Databases => plain_help(DATABASES_NAME, DATABASES_SUMMARY),
    }
}

impl OpenShellCommandKind {
    /// Every kind, in declaration order.
    pub fn all() -> (r: Vec<OpenShellCommandKind>)
        ensures
            r@ == seq![OpenShellCommandKind::Close, OpenShellCommandKind::Index, OpenShellCommandKind::Databases],
    {
        let r = vec![OpenShellCommandKind::Close, OpenShellCommandKind::Index, OpenShellCommandKind::Databases];
        assert(r@ =~= seq![OpenShellCommandKind::Close, OpenShellCommandKind::Index, OpenShellCommandKind::Databases]);
        r
    }

    pub fn name(&self) -> (r: &'static str)
        ensures
            r@ == open_kind_name_spec(*self),
    {
        match self {
            OpenShellCommandKind::Close => CLOSE_NAME,
            OpenShellCommandKind::Index => INDEX_NAME,
            OpenShellCommandKind::Databases => DATABASES_NAME,
        }
    }

    /// The kind whose name is `raw`.
    pub fn from_name(raw: &str) -> (r: Option<OpenShellCommandKind>)
        ensures
            r == open_kind_from_name_spec(raw@),
    {
        if str_eq(raw, CLOSE_NAME) {
            Some(OpenShellCommandKind::Close)
        } else if str_eq(raw, INDEX_NAME) {
            Some(OpenShellCommandKind::Index)
        } else if str_eq(raw, DATABASES_NAME) {
            Some(OpenShellCommandKind::Databases)
        } else {
            None
        }
    }

    pub fn help(&self) -> (r: Help)
        ensures
            r@ == open_kind_help_spec(*self),
    {
        match self {
            OpenShellCommandKind::Close => CloseCommand::help(),
            OpenShellCommandKind::Index => IndexCommand::help(),
            OpenShellCommandKind::Databases => DatabasesCommand::help(),
        }
    }
}

/// A command of the open shell.
#[derive(Clone, Copy, Debug, PartialEq, Eq)]
pub enum OpenShellCommand {
    Close(CloseCommand),
    Index(IndexCommand),
    Databases(DatabasesCommand),
}

/// The open shell command of kind `k` with the arguments `args`.
pub open spec fn open_shell_command_spec(k: OpenShellCommandKind, args: Seq<Seq<char>>) -> Result<
    OpenShellCommand,
    CommandErrorView,
> {
    match k {
        OpenShellCommandKind::Close => match no_args_spec(args) {
            None => Ok(OpenShellCommand::Close(CloseCommand)),
            Some(e) => Err(e),
        },
        OpenShellCommandKind::Index => match index_command_spec(args) {
            Ok(c) => Ok(OpenShellCommand::Index(c)),
            Err(e) => Err(e),
        },
        OpenShellCommandKind::Databases => match no_args_spec(args) {
            None => Ok(OpenShellCommand::Databases(DatabasesCommand)),
            Some(e) => Err(e),
        },
    }
}

pub open spec fn open_command_kind_spec(c: OpenShellCommand) -> OpenShellCommandKind {
    match c {
        OpenShellCommand::Close(_) => OpenShellCommandKind::Close,
        OpenShellCommand::Index(_) => OpenShellCommandKind::Index,
        OpenShellCommand::Databases(_) => OpenShellCommandKind::Databases,
    }
}

impl OpenShellCommand {
    pub fn try_from_input(kind: OpenShellCommandKind, args: &[String]) -> (r: Result<
        OpenShellCommand,
        CommandError,
    >)
        ensures
            match open_shell_command_spec(kind, strings_view(args@)) {
                Ok(c) => r == Ok::<OpenShellCommand, CommandError>(c),
                Err(e) => fails_with(r, e),
            },
    {
        match kind {
            OpenShellCommandKind::Close => Ok(OpenShellCommand::Close(CloseCommand::try_from_args(args)?)),
            OpenShellCommandKind::Index => Ok(OpenShellCommand::Index(IndexCommand::try_from_args(args)?)),
            OpenShellCommandKind::Databases => Ok(
                OpenShellCommand::Databases(DatabasesCommand::try_from_args(args)?),
            ),
        }
    }

    pub fn kind(&self) -> (r: OpenShellCommandKind)
        ensures
            r == open_command_kind_spec(*self),
    {
        match self {
            OpenShellCommand::Close(_) => OpenShellCommandKind::Close,
            OpenShellCommand::Index(_) => OpenShellCommandKind::Index,
            OpenShellCommand::Databases(_) => OpenShellCommandKind::Databases,
        }
    }
}

/// The commands the open shell lists in its help.
pub open spec fn open_shell_commands_spec() -> Seq<(Seq<char>, Seq<char>, bool, nat)> {
    seq![
        entry_of(CLOSE_NAME, CLOSE_SUMMARY, false),
        entry_of(DATABASES_NAME, DATABASES_SUMMARY, false),
        entry_of(INDEX_NAME, INDEX_SUMMARY, false),
    ]
}

/// The open shell.
pub struct OpenShell;

impl OpenShell {
    /// The help of the open shell: one line per command.
    pub fn help() -> (r: Help)
        ensures
            r@ == shell_help(OPEN_SHELL_NAME, OPEN_SHELL_SUMMARY, open_shell_commands_spec()),
    {
        let r = expect_built(
            Help::builder().name(OPEN_SHELL_NAME).summary(OPEN_SHELL_SUMMARY)
                .add_command(CLOSE_NAME, CLOSE_SUMMARY)
                .add_command(DATABASES_NAME, DATABASES_SUMMARY)
                .add_command(INDEX_NAME, INDEX_SUMMARY)
                .skip_usage()
                .build(),
        );
        assert(r@.commands =~= open_shell_commands_spec());
        r
    }
}

} // verus!
