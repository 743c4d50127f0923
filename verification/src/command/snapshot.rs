//! The snapshot shell: its commands and the way it guards its own schema.

use vstd::prelude::*;

use crate::help::{entry_of, expect_built, Help, HelpView};
use crate::raft::{role_from_name_spec, role_name_spec, servers_view, RaftRole, RaftServer, ServerView};
use crate::text::{
    chars_of, copy_strings_from, find_char, first_index_of, parse_u64_spec, parse_u64_str, starts_with,
    str_eq, strings_view, sub_chars, decimal, push_decimal, push_str,
};
use super::{
    expect_no_args, expect_number_arg, expect_single_arg, fails_with, no_args_spec, number_arg_spec,
    plain_help, plain_help_text, shell_help, single_arg_spec, CommandError, CommandErrorView,
    HELP_SUMMARY, HELP_TITLE,
};

verus! {

pub const SNAPSHOT_NAME: &'static str = ".snapshot";
pub const SNAPSHOT_SUMMARY: &'static str = "Enter snapshot-creation shell";
pub const SNAPSHOT_ARG: &'static str = "dir";
pub const SNAPSHOT_ARG_SUMMARY: &'static str = "the directory to save the snapshot into";

pub const ABORT_NAME: &'static str = ".abort";
pub const ABORT_SUMMARY: &'static str = "exit the snapshot shell without writing to disk";
pub const ADD_SERVER_NAME: &'static str = ".add-server";
pub const ADD_SERVER_SUMMARY: &'static str = "add a server to the snapshot";
pub const ADD_SERVER_ID: &'static str = "id";
pub const ADD_SERVER_ID_SUMMARY: &'static str = "the raft ID of the server";
pub const ADD_SERVER_ADDRESS: &'static str = "address";
pub const ADD_SERVER_ADDRESS_SUMMARY: &'static str = "the server's address";
pub const ADD_SERVER_ROLE: &'static str = "role";
pub const ADD_SERVER_ROLE_SUMMARY: &'static str = "the role of the new server (standby, voter or spare, default: voter)";
pub const FINISH_NAME: &'static str = ".finish";
pub const FINISH_SUMMARY: &'static str = "validate snapshot and write to disk";
pub const INFO_NAME: &'static str = ".info";
pub const INFO_SUMMARY: &'static str = "show info about the current snapshot";
pub const SET_INDEX_NAME: &'static str = ".set-index";
pub const SET_INDEX_SUMMARY: &'static str = "set the index of the snapshot";
pub const SET_INDEX_ARG: &'static str = "index";
pub const SET_INDEX_ARG_SUMMARY: &'static str = "the new index";
pub const SET_TERM_NAME: &'static str = ".set-term";
pub const SET_TERM_SUMMARY: &'static str = "set the term of the snapshot";
pub const SET_TIMESTAMP_NAME: &'static str = ".set-timestamp";
pub const SET_TIMESTAMP_SUMMARY: &'static str = "set the timestamp of the snapshot";
pub const SET_SELF_NAME: &'static str = ".set-self";
pub const SET_SELF_SUMMARY: &'static str = "set the self server in the snapshot";
pub const SET_SELF_ARG: &'static str = "id";
pub const SET_SELF_ARG_SUMMARY: &'static str = "the ID of the server to mark as self";

pub const SNAPSHOT_SHELL_NAME: &'static str = "snapshot shell";
pub const SNAPSHOT_SHELL_SUMMARY: &'static str = "incrementally create a snapshot";

pub open spec fn snapshot_command_help_spec() -> HelpView {
    HelpView {
        args: seq![entry_of(SNAPSHOT_ARG, SNAPSHOT_ARG_SUMMARY, false)],
        ..plain_help(SNAPSHOT_NAME, SNAPSHOT_SUMMARY)
    }
}

pub open spec fn add_server_help_spec() -> HelpView {
    HelpView {
        args: seq![
            entry_of(ADD_SERVER_ID, ADD_SERVER_ID_SUMMARY, false),
            entry_of(ADD_SERVER_ADDRESS, ADD_SERVER_ADDRESS_SUMMARY, false),
            entry_of(ADD_SERVER_ROLE, ADD_SERVER_ROLE_SUMMARY, true),
        ],
        ..plain_help(ADD_SERVER_NAME, ADD_SERVER_SUMMARY)
    }
}

pub open spec fn finish_help_spec() -> HelpView {
    HelpView {
        args: seq![entry_of(SNAPSHOT_ARG, SNAPSHOT_ARG_SUMMARY, false)],
        ..plain_help(FINISH_NAME, FINISH_SUMMARY)
    }
}

pub open spec fn set_index_help_spec() -> HelpView {
    HelpView {
        args: seq![entry_of(SET_INDEX_ARG, SET_INDEX_ARG_SUMMARY, false)],
        ..plain_help(SET_INDEX_NAME, SET_INDEX_SUMMARY)
    }
}

pub open spec fn set_self_help_spec() -> HelpView {
    HelpView {
        args: seq![entry_of(SET_SELF_ARG, SET_SELF_ARG_SUMMARY, false)],
        ..plain_help(SET_SELF_NAME, SET_SELF_SUMMARY)
    }
}

/// `.snapshot`: enters the snapshot shell.
#[derive(Clone, Copy, Debug, PartialEq, Eq)]
pub struct SnapshotCommand;

impl SnapshotCommand {
    pub fn help() -> (r: Help)
        ensures
            r@ == snapshot_command_help_spec(),
    {
        let r = expect_built(
            Help::builder().name(SNAPSHOT_NAME).summary(SNAPSHOT_SUMMARY).add_arg(
                SNAPSHOT_ARG,
                SNAPSHOT_ARG_SUMMARY,
            ).build(),
        );
        assert(r@.args =~= snapshot_command_help_spec().args);
        r
    }

    pub fn try_from_args(args: &[String]) -> (r: Result<SnapshotCommand, CommandError>)
        ensures
            match no_args_spec(strings_view(args@)) {
                None => r == Ok::<SnapshotCommand, CommandError>(SnapshotCommand),
                Some(e) => fails_with(r, e),
            },
    {
        expect_no_args(args)?;
        Ok(SnapshotCommand)
    }
}

/// `.abort`: leaves the snapshot shell without writing anything.
#[derive(Clone, Copy, Debug, PartialEq, Eq)]
pub struct AbortCommand;

impl AbortCommand {
    pub fn help() -> (r: Help)
        ensures
            r@ == plain_help(ABORT_NAME, ABORT_SUMMARY),
    {
        plain_help_text(ABORT_NAME, ABORT_SUMMARY)
    }

    pub fn try_from_args(args: &[String]) -> (r: Result<AbortCommand, CommandError>)
        ensures
            match no_args_spec(strings_view(args@)) {
                None => r == Ok::<AbortCommand, CommandError>(AbortCommand),
                Some(e) => fails_with(r, e),
            },
    {
        expect_no_args(args)?;
        Ok(AbortCommand)
    }
}

/// `.add-server <id> <address> [role]`: adds a server to the snapshot's configuration.
#[derive(Clone, Debug, PartialEq, Eq)]
pub struct AddServerCommand {
    pub id: u64,
    pub address: String,
    pub role: RaftRole,
}

impl View for AddServerCommand {
    type V = (u64, Seq<char>, RaftRole);

    open spec fn view(&self) -> (u64, Seq<char>, RaftRole) {
        (self.id, self.address@, self.role)
    }
}

/// The server that `.add-server` adds for the arguments `args`: an id, an address and an
/// optional role, `voter` where none is given.
pub open spec fn add_server_spec(args: Seq<Seq<char>>) -> Result<
    (u64, Seq<char>, RaftRole),
    CommandErrorView,
> {
    if args.len() == 0 {
        Err(CommandErrorView::MissingArgument(ADD_SERVER_ID@))
    } else if args.len() == 1 {
        Err(CommandErrorView::MissingArgument(ADD_SERVER_ADDRESS@))
    } else if args.len() > 3 {
        Err(CommandErrorView::UnrecognizedArguments(args.skip(3)))
    } else {
        match parse_u64_spec(args[0]) {
            None => Err(CommandErrorView::InvalidNumber(ADD_SERVER_ID@, args[0])),
            Some(id) => if args.len() == 2 {
                Ok((id, args[1], RaftRole::Voter))
            } else {
                match role_from_name_spec(args[2]) {
                    Some(role) => Ok((id, args[1], role)),
                    None => Err(CommandErrorView::InvalidRole(args[2])),
                }
            },
        }
    }
}

impl AddServerCommand {
    pub fn help() -> (r: Help)
        ensures
            r@ == add_server_help_spec(),
    {
        let r = expect_built(
            Help::builder().name(ADD_SERVER_NAME).summary(ADD_SERVER_SUMMARY).add_arg(
                ADD_SERVER_ID,
                ADD_SERVER_ID_SUMMARY,
            ).add_arg(ADD_SERVER_ADDRESS, ADD_SERVER_ADDRESS_SUMMARY).add_optional_arg(
                ADD_SERVER_ROLE,
                ADD_SERVER_ROLE_SUMMARY,
            ).build(),
        );
        assert(r@.args =~= add_server_help_spec().args);
        r
    }

    pub fn try_from_args(args: &[String]) -> (r: Result<AddServerCommand, CommandError>)
        ensures
            match add_server_spec(strings_view(args@)) {
                Ok(v) => r matches Ok(c) && c@ == v,
                Err(e) => fails_with(r, e),
            },
    {
        if args.len() == 0 {
            return Err(CommandError::MissingArgument { name: ADD_SERVER_ID });
        }
        if args.len() == 1 {
            return Err(CommandError::MissingArgument { name: ADD_SERVER_ADDRESS });
        }
        if args.len() > 3 {
            let copied = copy_strings_from(args, 3);
            return Err(CommandError::UnrecognizedArguments { args: copied });
        }
        let id = match parse_u64_str(args[0].as_str()) {
            Some(id) => id,
            None => {
                return Err(CommandError::InvalidNumber { what: ADD_SERVER_ID, raw: args[0].clone() });
            },
        };
        let address = args[1].clone();
        if args.len() == 2 {
            return Ok(AddServerCommand { id, address, role: RaftRole::Voter });
        }
        match RaftRole::from_name(args[2].as_str()) {
            Some(role) => Ok(AddServerCommand { id, address, role }),
            None => Err(CommandError::InvalidRole { raw: args[2].clone() }),
        }
    }
}

/// `.finish <dir>`: checks the snapshot and writes it into `dir`.
#[derive(Clone, Debug, PartialEq, Eq)]
pub struct FinishCommand {
    pub dir: String,
}

impl FinishCommand {
    pub fn help() -> (r: Help)
        ensures
            r@ == finish_help_spec(),
    {
        let r = expect_built(
            Help::builder().name(FINISH_NAME).summary(FINISH_SUMMARY).add_arg(
                SNAPSHOT_ARG,
                SNAPSHOT_ARG_SUMMARY,
            ).build(),
        );
        assert(r@.args =~= finish_help_spec().args);
        r
    }

    pub fn try_from_args(args: &[String]) -> (r: Result<FinishCommand, CommandError>)
        ensures
            match single_arg_spec(strings_view(args@), SNAPSHOT_ARG@) {
                Ok(a) => r matches Ok(c) && c.dir@ == a,
                Err(e) => fails_with(r, e),
            },
    {
        let dir = expect_single_arg(args, SNAPSHOT_ARG)?;
        Ok(FinishCommand { dir: dir.clone() })
    }
}

/// `.info`: shows the snapshot being built.
#[derive(Clone, Copy, Debug, PartialEq, Eq)]
pub struct InfoCommand;

impl InfoCommand {
    pub fn help() -> (r: Help)
        ensures
            r@ == plain_help(INFO_NAME, INFO_SUMMARY),
    {
        plain_help_text(INFO_NAME, INFO_SUMMARY)
    }

    pub fn try_from_args(args: &[String]) -> (r: Result<InfoCommand, CommandError>)
        ensures
            match no_args_spec(strings_view(args@)) {
                None => r == Ok::<InfoCommand, CommandError>(InfoCommand),
                Some(e) => fails_with(r, e),
            },
    {
        expect_no_args(args)?;
        Ok(InfoCommand)
    }
}

/// The lines `.info` writes for the servers of the snapshot.
pub open spec fn info_servers_text(s: Seq<ServerView>) -> Seq<char>
    decreases s.len(),
{
    if s.len() == 0 {
        Seq::empty()
    } else {
        info_servers_text(s.drop_last()) + "- id: "@ + decimal(s.last().0 as nat) + "\n  address: "@
            + s.last().1 + "\n  role: "@ + role_name_spec(s.last().2) + "\n"@
    }
}

/// The lines `.info` writes for the attached schemas, each a name and a file path; `raft` and
/// `temp` are left out.
pub open spec fn info_schemas_text(s: Seq<(Seq<char>, Seq<char>)>) -> Seq<char>
    decreases s.len(),
{
    if s.len() == 0 {
        Seq::empty()
    } else if s.last().0 == "raft"@ || s.last().0 == "temp"@ {
        info_schemas_text(s.drop_last())
    } else {
        info_schemas_text(s.drop_last()) + "- name: "@ + s.last().0 + "\n  path: "@ + (if s.last().1.len()
            == 0 {
            "-"@
        } else {
            s.last().1
        }) + "\n"@
    }
}

/// Everything `.info` writes of the snapshot being built.
pub open spec fn info_text(
    term: u64,
    index: u64,
    timestamp: Seq<char>,
    servers: Seq<ServerView>,
    schemas: Seq<(Seq<char>, Seq<char>)>,
) -> Seq<char> {
    "term: "@ + decimal(term as nat) + "\nindex: "@ + decimal(index as nat) + "\ntimestamp: "@ + timestamp
        + "\n"@ + (if servers.len() == 0 {
        "configuration: -\n"@
    } else {
        "configuration:\n"@ + info_servers_text(servers)
    }) + (if schemas.len() == 0 {
        "attached_schemas: -\n"@
    } else {
        "attached_schemas:\n"@ + info_schemas_text(schemas)
    })
}

/// The plain values of schema names and paths.
pub open spec fn schemas_view(v: Seq<(String, String)>) -> Seq<(Seq<char>, Seq<char>)> {
    v.map_values(|p: (String, String)| (p.0@, p.1@))
}

/// Whether every schema that `.info` lists has a file: a temporary schema, with no file, would
/// keep `.info` from ever finishing.
pub open spec fn schemas_listable(s: Seq<(Seq<char>, Seq<char>)>) -> bool {
    forall|i: int|
        0 <= i < s.len() && !(s[i].0 == "raft"@ || s[i].0 == "temp"@) ==> #[trigger] s[i].1.len() > 0
}

/// The text of a UTC instant, given in seconds since the Unix epoch, as `time::UtcDateTime`
/// formats it in the default ISO 8601 format; `None` where the instant is out of its range or
/// the formatting fails.
pub uninterp spec fn iso8601_text(unix_seconds: i64) -> Option<Seq<char>>;

/// Calls `time::UtcDateTime::from_unix_timestamp` and then `format` with the default ISO 8601
/// format description. Claimed: the result is the named value `iso8601_text` of the instant.
#[verifier::external_body]
fn format_iso8601(unix_seconds: i64) -> (r: Option<String>)
    ensures
        match r {
            Some(s) => iso8601_text(unix_seconds) == Some(s@),
            None => iso8601_text(unix_seconds) is None,
        },
{
    match time::UtcDateTime::from_unix_timestamp(unix_seconds) {
        Ok(t) => t.format(&time::format_description::well_known::Iso8601::DEFAULT).ok(),
        Err(_) => None,
    }
}

fn push_info_servers(out: &mut String, servers: &Vec<RaftServer>)
    ensures
        final(out)@ == old(out)@ + info_servers_text(servers_view(servers@)),
{
    let ghost sv = servers_view(servers@);
    let mut k: usize = 0;
    while k < servers.len()
        invariant
            k <= servers.len(),
            sv == servers_view(servers@),
            out@ == old(out)@ + info_servers_text(sv.take(k as int)),
        decreases servers.len() - k,
    {
        let server = &servers[k];
        push_str(out, "- id: ");
        push_decimal(out, server.id);
        push_str(out, "\n  address: ");
        push_str(out, server.address.as_str());
        push_str(out, "\n  role: ");
        push_str(out, server.role.name());
        push_str(out, "\n");
        proof {
            assert(sv.take(k + 1).drop_last() =~= sv.take(k as int));
            assert(sv.take(k + 1).last() == server@);
        }
        k += 1;
        assert(out@ =~= old(out)@ + info_servers_text(sv.take(k as int)));
    }
    assert(sv.take(k as int) =~= sv);
}

fn push_info_schema(out: &mut String, name: &String, file: &String)
    ensures
        (name@ == "raft"@ || name@ == "temp"@) ==> final(out)@ == old(out)@,
        !(name@ == "raft"@ || name@ == "temp"@) ==> final(out)@ == old(out)@ + ("- name: "@ + name@
            + "\n  path: "@ + (if file@.len() == 0 {
            "-"@
        } else {
            file@
        }) + "\n"@),
{
    if !(str_eq(name.as_str(), "raft") || str_eq(name.as_str(), "temp")) {
        push_str(out, "- name: ");
        push_str(out, name.as_str());
        push_str(out, "\n  path: ");
        if chars_of(file.as_str()).len() == 0 {
            push_str(out, "-");
        } else {
            push_str(out, file.as_str());
        }
        push_str(out, "\n");
    }
}

fn push_info_schemas(out: &mut String, schemas: &Vec<(String, String)>)
    ensures
        final(out)@ == old(out)@ + info_schemas_text(schemas_view(schemas@)),
{
    let ghost cv = schemas_view(schemas@);
    let mut k: usize = 0;
    while k < schemas.len()
        invariant
            k <= schemas.len(),
            cv == schemas_view(schemas@),
            out@ == old(out)@ + info_schemas_text(cv.take(k as int)),
        decreases schemas.len() - k,
    {
        let (name, file) = &schemas[k];
        proof {
            assert(cv.take(k + 1).drop_last() =~= cv.take(k as int));
            assert(cv.take(k + 1).last() == (name@, file@));
        }
        push_info_schema(out, name, file);
        k += 1;
        assert(out@ =~= old(out)@ + info_schemas_text(cv.take(k as int)));
    }
    assert(cv.take(k as int) =~= cv);
}

impl InfoCommand {
    /// The creation time of the snapshot as `.info` shows it.
    pub fn timestamp_text(unix_seconds: i64) -> (r: Option<String>)
        ensures
            match r {
                Some(s) => iso8601_text(unix_seconds) == Some(s@),
                None => iso8601_text(unix_seconds) is None,
            },
    {
        format_iso8601(unix_seconds)
    }

    /// Writes what `.info` shows of the snapshot: its term, index and creation time, its
    /// servers, and the schemas attached to the shell, each a name and a file path.
    pub fn write_info(
        term: u64,
        index: u64,
        timestamp: &str,
        servers: &Vec<RaftServer>,
        schemas: &Vec<(String, String)>,
        out: &mut String,
    )
        requires
            schemas_listable(schemas_view(schemas@)),
        ensures
            final(out)@ == old(out)@ + info_text(term, index, timestamp@, servers_view(servers@), schemas_view(schemas@)),
    {
        let ghost sv = servers_view(servers@);
        let ghost cv = schemas_view(schemas@);
        push_str(out, "term: ");
        push_decimal(out, term);
        push_str(out, "\nindex: ");
        push_decimal(out, index);
        push_str(out, "\ntimestamp: ");
        push_str(out, timestamp);
        push_str(out, "\n");
        let ghost head = out@;
        if servers.len() == 0 {
            push_str(out, "configuration: -\n");
        } else {
            push_str(out, "configuration:\n");
            push_info_servers(out, servers);
        }
        if schemas.len() == 0 {
            push_str(out, "attached_schemas: -\n");
        } else {
            push_str(out, "attached_schemas:\n");
            push_info_schemas(out, schemas);
        }
        assert(out@ =~= old(out)@ + info_text(term, index, timestamp@, sv, cv));
    }
}

/// `.set-index <index>`: sets the raft index of the snapshot.
#[derive(Clone, Copy, Debug, PartialEq, Eq)]
pub struct SetIndexCommand {
    pub index: u64,
}

impl SetIndexCommand {
    pub fn help() -> (r: Help)
        ensures
            r@ == set_index_help_spec(),
    {
        let r = expect_built(
            Help::builder().name(SET_INDEX_NAME).summary(SET_INDEX_SUMMARY).add_arg(
                SET_INDEX_ARG,
                SET_INDEX_ARG_SUMMARY,
            ).build(),
        );
        assert(r@.args =~= set_index_help_spec().args);
        r
    }

    pub fn try_from_args(args: &[String]) -> (r: Result<SetIndexCommand, CommandError>)
        ensures
            match number_arg_spec(strings_view(args@), SET_INDEX_ARG@) {
                Ok(n) => r == Ok::<SetIndexCommand, CommandError>(SetIndexCommand { index: n }),
                Err(e) => fails_with(r, e),
            },
    {
        let index = expect_number_arg(args, SET_INDEX_ARG)?;
        Ok(SetIndexCommand { index })
    }
}

/// `.set-term <term>`: sets the raft term of the snapshot.
#[derive(Clone, Copy, Debug, PartialEq, Eq)]
pub struct SetTermCommand {
    pub term: u64,
}

impl SetTermCommand {
    pub fn help() -> (r: Help)
        ensures
            r@ == plain_help(SET_TERM_NAME, SET_TERM_SUMMARY),
    {
        plain_help_text(SET_TERM_NAME, SET_TERM_SUMMARY)
    }

    pub fn try_from_args(args: &[String]) -> (r: Result<SetTermCommand, CommandError>)
        ensures
            match number_arg_spec(strings_view(args@), "term"@) {
                Ok(n) => r == Ok::<SetTermCommand, CommandError>(SetTermCommand { term: n }),
                Err(e) => fails_with(r, e),
            },
    {
        let term = expect_number_arg(args, "term")?;
        Ok(SetTermCommand { term })
    }
}

/// `.set-self <id>`: marks a server of the snapshot as this node.
#[derive(Clone, Copy, Debug, PartialEq, Eq)]
pub struct SetSelfCommand {
    pub id: u64,
}

impl SetSelfCommand {
    pub fn help() -> (r: Help)
        ensures
            r@ == set_self_help_spec(),
    {
        let r = expect_built(
            Help::builder().name(SET_SELF_NAME).summary(SET_SELF_SUMMARY).add_arg(
                SET_SELF_ARG,
                SET_SELF_ARG_SUMMARY,
            ).build(),
        );
        assert(r@.args =~= set_self_help_spec().args);
        r
    }

    pub fn try_from_args(args: &[String]) -> (r: Result<SetSelfCommand, CommandError>)
        ensures
            match number_arg_spec(strings_view(args@), SET_SELF_ARG@) {
                Ok(n) => r == Ok::<SetSelfCommand, CommandError>(SetSelfCommand { id: n }),
                Err(e) => fails_with(r, e),
            },
    {
        let id = expect_number_arg(args, SET_SELF_ARG)?;
        Ok(SetSelfCommand { id })
    }
}

/// The instant, in whole seconds since the Unix epoch, that `time::UtcDateTime::parse` reads
/// from a text in the default ISO 8601 format; `None` where it refuses the text.
pub uninterp spec fn iso8601_unix_seconds(text: Seq<char>) -> Option<i64>;

/// Calls `time::UtcDateTime::parse` with the default ISO 8601 format description and keeps
/// the parsed instant's `unix_timestamp`. Claimed: the result is the named value
/// `iso8601_unix_seconds` of the text, the same for the same text.
#[verifier::external_body]
fn parse_iso8601_unix_seconds(text: &str) -> (r: Option<i64>)
    ensures
        r == iso8601_unix_seconds(text@),
{
    match time::UtcDateTime::parse(text, &time::format_description::well_known::Iso8601::DEFAULT) {
        Ok(t) => Some(t.unix_timestamp()),
        Err(_) => None,
    }
}

/// `.set-timestamp <timestamp>`: sets the creation time of the snapshot.
#[derive(Clone, Copy, Debug, PartialEq, Eq)]
pub struct SetTimestampCommand {
    /// Seconds since the Unix epoch.
    pub timestamp: i64,
}

/// The `.set-timestamp` command for its arguments.
pub open spec fn set_timestamp_spec(args: Seq<Seq<char>>) -> Result<
    SetTimestampCommand,
    CommandErrorView,
> {
    match single_arg_spec(args, "timestamp"@) {
        Err(e) => Err(e),
        Ok(a) => match iso8601_unix_seconds(a) {
            Some(t) => Ok(SetTimestampCommand { timestamp: t }),
            None => Err(CommandErrorView::InvalidTimestamp(a)),
        },
    }
}

impl SetTimestampCommand {
    pub fn help() -> (r: Help)
        ensures
            r@ == plain_help(SET_TIMESTAMP_NAME, SET_TIMESTAMP_SUMMARY),
    {
        plain_help_text(SET_TIMESTAMP_NAME, SET_TIMESTAMP_SUMMARY)
    }

    /// The command for the text `raw`, which reads as the instant `parsed`, if any.
    pub fn from_parsed(raw: &String, parsed: Option<i64>) -> (r: Result<SetTimestampCommand, CommandError>)
        ensures
            match parsed {
                Some(t) => r == Ok::<SetTimestampCommand, CommandError>(SetTimestampCommand { timestamp: t }),
                None => fails_with(r, CommandErrorView::InvalidTimestamp(raw@)),
            },
    {
        match parsed {
            Some(timestamp) => Ok(SetTimestampCommand { timestamp }),
            None => Err(CommandError::InvalidTimestamp { raw: raw.clone() }),
        }
    }

    pub fn try_from_args(args: &[String]) -> (r: Result<SetTimestampCommand, CommandError>)
        ensures
            match set_timestamp_spec(strings_view(args@)) {
                Ok(c) => r == Ok::<SetTimestampCommand, CommandError>(c),
                Err(e) => fails_with(r, e),
            },
    {
        let raw = expect_single_arg(args, "timestamp")?;
        let parsed = parse_iso8601_unix_seconds(raw.as_str());
        SetTimestampCommand::from_parsed(raw, parsed)
    }
}

/// The commands of the snapshot shell.
#[derive(Clone, Copy, Debug, PartialEq, Eq, Structural)]
pub enum SnapshotShellCommandKind {
    Abort,
    AddServer,
    Finish,
    Info,
    SetIndex,
    SetTerm,
    SetTimestamp,
}

/// The name by which each kind is reported.
pub open spec fn snapshot_kind_name_spec(k: SnapshotShellCommandKind) -> Seq<char> {
    match k {
        SnapshotShellCommandKind::Abort => ABORT_NAME@,
        SnapshotShellCommandKind::AddServer => ADD_SERVER_NAME@,
        SnapshotShellCommandKind::Finish => FINISH_NAME@,
        SnapshotShellCommandKind::Info => INFO_NAME@,
        SnapshotShellCommandKind::SetIndex => SET_INDEX_NAME@,
        SnapshotShellCommandKind::SetTerm => SET_TERM_NAME@,
        SnapshotShellCommandKind::SetTimestamp => SET_TIMESTAMP_NAME@,
    }
}

pub open spec fn snapshot_kind_from_name_spec(s: Seq<char>) -> Option<SnapshotShellCommandKind> {
    if s == ABORT_NAME@ {
        Some(SnapshotShellCommandKind::Abort)
    } else if s == ADD_SERVER_NAME@ {
        Some(SnapshotShellCommandKind::AddServer)
    } else if s == FINISH_NAME@ {
        Some(SnapshotShellCommandKind::Finish)
    } else if s == INFO_NAME@ {
        Some(SnapshotShellCommandKind::Info)
    } else if s == SET_INDEX_NAME@ {
        Some(SnapshotShellCommandKind::SetIndex)
    } else if s == SET_TERM_NAME@ {
        Some(SnapshotShellCommandKind::SetTerm)
    } else if s == SET_TIMESTAMP_NAME@ {
        Some(SnapshotShellCommandKind::SetTimestamp)
    } else {
        None
    }
}

pub open spec fn snapshot_kind_help_spec(k: SnapshotShellCommandKind) -> HelpView {
    match k {
        SnapshotShellCommandKind::Abort => plain_help(ABORT_NAME, ABORT_SUMMARY),
        SnapshotShellCommandKind::AddServer => add_server_help_spec(),
        SnapshotShellCommandKind::Finish => finish_help_spec(),
        SnapshotShellCommandKind::Info => plain_help(INFO_NAME, INFO_SUMMARY),
        SnapshotShellCommandKind::SetIndex => set_index_help_spec(),
        SnapshotShellCommandKind::SetTerm => plain_help(SET_TERM_NAME, SET_TERM_SUMMARY),
        SnapshotShellCommandKind::SetTimestamp => plain_help(SET_TIMESTAMP_NAME, SET_TIMESTAMP_SUMMARY),
    }
}

impl SnapshotShellCommandKind {
    /// Every kind, in declaration order.
    pub fn all() -> (r: Vec<SnapshotShellCommandKind>)
        ensures
            r@ == seq![
                SnapshotShellCommandKind::Abort,
                SnapshotShellCommandKind::AddServer,
                SnapshotShellCommandKind::Finish,
                SnapshotShellCommandKind::Info,
                SnapshotShellCommandKind::SetIndex,
                SnapshotShellCommandKind::SetTerm,
                SnapshotShellCommandKind::SetTimestamp,
            ],
    {
        let r = vec![
            SnapshotShellCommandKind::Abort,
            SnapshotShellCommandKind::AddServer,
            SnapshotShellCommandKind::Finish,
            SnapshotShellCommandKind::Info,
            SnapshotShellCommandKind::SetIndex,
            SnapshotShellCommandKind::SetTerm,
            SnapshotShellCommandKind::SetTimestamp,
        ];
        assert(r@ =~= seq![
            SnapshotShellCommandKind::Abort,
            SnapshotShellCommandKind::AddServer,
            SnapshotShellCommandKind::Finish,
            SnapshotShellCommandKind::Info,
            SnapshotShellCommandKind::SetIndex,
            SnapshotShellCommandKind::SetTerm,
            SnapshotShellCommandKind::SetTimestamp,
        ]);
        r
    }

    pub fn name(&self) -> (r: &'static str)
        ensures
            r@ == snapshot_kind_name_spec(*self),
    {
        match self {
            SnapshotShellCommandKind::Abort => ABORT_NAME,
            SnapshotShellCommandKind::AddServer => ADD_SERVER_NAME,
            SnapshotShellCommandKind::Finish => FINISH_NAME,
            SnapshotShellCommandKind::Info => INFO_NAME,
            SnapshotShellCommandKind::SetIndex => SET_INDEX_NAME,
            SnapshotShellCommandKind::SetTerm => SET_TERM_NAME,
            SnapshotShellCommandKind::SetTimestamp => SET_TIMESTAMP_NAME,
        }
    }

    /// The kind whose name is `raw`.
    pub fn from_name(raw: &str) -> (r: Option<SnapshotShellCommandKind>)
        ensures
            r == snapshot_kind_from_name_spec(raw@),
    {
        if str_eq(raw, ABORT_NAME) {
            Some(SnapshotShellCommandKind::Abort)
        } else if str_eq(raw, ADD_SERVER_NAME) {
            Some(SnapshotShellCommandKind::AddServer)
        } else if str_eq(raw, FINISH_NAME) {
            Some(SnapshotShellCommandKind::Finish)
        } else if str_eq(raw, INFO_NAME) {
            Some(SnapshotShellCommandKind::Info)
        } else if str_eq(raw, SET_INDEX_NAME) {
            Some(SnapshotShellCommandKind::SetIndex)
        } else if str_eq(raw, SET_TERM_NAME) {
            Some(SnapshotShellCommandKind::SetTerm)
        } else if str_eq(raw, SET_TIMESTAMP_NAME) {
            Some(SnapshotShellCommandKind::SetTimestamp)
        } else {
            None
        }
    }

    pub fn help(&self) -> (r: Help)
        ensures
            r@ == snapshot_kind_help_spec(*self),
    {
        match self {
            SnapshotShellCommandKind::Abort => AbortCommand::help(),
            SnapshotShellCommandKind::AddServer => AddServerCommand::help(),
            SnapshotShellCommandKind::Finish => FinishCommand::help(),
            SnapshotShellCommandKind::Info => InfoCommand::help(),
            SnapshotShellCommandKind::SetIndex => SetIndexCommand::help(),
            SnapshotShellCommandKind::SetTerm => SetTermCommand::help(),
            SnapshotShellCommandKind::SetTimestamp => SetTimestampCommand::help(),
        }
    }
}

/// A command of the snapshot shell.
#[derive(Clone, Debug, PartialEq, Eq)]
pub enum SnapshotShellCommand {
    Abort(AbortCommand),
    AddServer(AddServerCommand),
    Finish(FinishCommand),
    Info(InfoCommand),
    SetIndex(SetIndexCommand),
    SetTerm(SetTermCommand),
    SetTimestamp(SetTimestampCommand),
}

/// The plain values of a snapshot shell command.
pub enum SnapshotShellCommandView {
    Abort,
    AddServer(u64, Seq<char>, RaftRole),
    Finish(Seq<char>),
    Info,
    SetIndex(u64),
    SetTerm(u64),
    SetTimestamp(i64),
}

impl View for SnapshotShellCommand {
    type V = SnapshotShellCommandView;

    open spec fn view(&self) -> SnapshotShellCommandView {
        match self {
            SnapshotShellCommand::Abort(_) => SnapshotShellCommandView::Abort,
            SnapshotShellCommand::AddServer(c) => SnapshotShellCommandView::AddServer(
                c.id,
                c.address@,
                c.role,
            ),
            SnapshotShellCommand::Finish(c) => SnapshotShellCommandView::Finish(c.dir@),
            SnapshotShellCommand::Info(_) => SnapshotShellCommandView::Info,
            SnapshotShellCommand::SetIndex(c) => SnapshotShellCommandView::SetIndex(c.index),
            SnapshotShellCommand::SetTerm(c) => SnapshotShellCommandView::SetTerm(c.term),
            SnapshotShellCommand::SetTimestamp(c) => SnapshotShellCommandView::SetTimestamp(c.timestamp),
        }
    }
}

/// The snapshot shell command of kind `k` with the arguments `args`.
pub open spec fn snapshot_command_spec(k: SnapshotShellCommandKind, args: Seq<Seq<char>>) -> Result<
    SnapshotShellCommandView,
    CommandErrorView,
> {
    match k {
        SnapshotShellCommandKind::Abort => match no_args_spec(args) {
            None => Ok(SnapshotShellCommandView::Abort),
            Some(e) => Err(e),
        },
        SnapshotShellCommandKind::AddServer => match add_server_spec(args) {
            Ok(v) => Ok(SnapshotShellCommandView::AddServer(v.0, v.1, v.2)),
            Err(e) => Err(e),
        },
        SnapshotShellCommandKind::Finish => match single_arg_spec(args, SNAPSHOT_ARG@) {
            Ok(a) => Ok(SnapshotShellCommandView::Finish(a)),
            Err(e) => Err(e),
        },
        SnapshotShellCommandKind::Info => match no_args_spec(args) {
            None => Ok(SnapshotShellCommandView::Info),
            Some(e) => Err(e),
        },
        SnapshotShellCommandKind::SetIndex => match number_arg_spec(args, SET_INDEX_ARG@) {
            Ok(n) => Ok(SnapshotShellCommandView::SetIndex(n)),
            Err(e) => Err(e),
        },
        SnapshotShellCommandKind::SetTerm => match number_arg_spec(args, "term"@) {
            Ok(n) => Ok(SnapshotShellCommandView::SetTerm(n)),
            Err(e) => Err(e),
        },
        SnapshotShellCommandKind::SetTimestamp => match set_timestamp_spec(args) {
            Ok(c) => Ok(SnapshotShellCommandView::SetTimestamp(c.timestamp)),
            Err(e) => Err(e),
        },
    }
}

pub open spec fn snapshot_command_kind_spec(c: SnapshotShellCommandView) -> SnapshotShellCommandKind {
    match c {
        SnapshotShellCommandView::Abort => SnapshotShellCommandKind::Abort,
        SnapshotShellCommandView::AddServer(..) => SnapshotShellCommandKind::AddServer,
        SnapshotShellCommandView::Finish(_) => SnapshotShellCommandKind::Finish,
        SnapshotShellCommandView::Info => SnapshotShellCommandKind::Info,
        SnapshotShellCommandView::SetIndex(_) => SnapshotShellCommandKind::SetIndex,
        SnapshotShellCommandView::SetTerm(_) => SnapshotShellCommandKind::SetTerm,
        SnapshotShellCommandView::SetTimestamp(_) => SnapshotShellCommandKind::SetTimestamp,
    }
}

impl SnapshotShellCommand {
    pub fn kind(&self) -> (r: SnapshotShellCommandKind)
        ensures
            r == snapshot_command_kind_spec(self@),
    {
        match self {
            SnapshotShellCommand::Abort(_) => SnapshotShellCommandKind::Abort,
            SnapshotShellCommand::AddServer(_) => SnapshotShellCommandKind::AddServer,
            SnapshotShellCommand::Finish(_) => SnapshotShellCommandKind::Finish,
            SnapshotShellCommand::Info(_) => SnapshotShellCommandKind::Info,
            SnapshotShellCommand::SetIndex(_) => SnapshotShellCommandKind::SetIndex,
            SnapshotShellCommand::SetTerm(_) => SnapshotShellCommandKind::SetTerm,
            SnapshotShellCommand::SetTimestamp(_) => SnapshotShellCommandKind::SetTimestamp,
        }
    }

    pub fn try_from_input(kind: SnapshotShellCommandKind, args: &[String]) -> (r: Result<
        SnapshotShellCommand,
        CommandError,
    >)
        ensures
            match snapshot_command_spec(kind, strings_view(args@)) {
                Ok(v) => r matches Ok(c) && c@ == v,
                Err(e) => fails_with(r, e),
            },
    {
        match kind {
            SnapshotShellCommandKind::Abort => Ok(SnapshotShellCommand::Abort(AbortCommand::try_from_args(args)?)),
            SnapshotShellCommandKind::AddServer => Ok(
                SnapshotShellCommand::AddServer(AddServerCommand::try_from_args(args)?),
            ),
            SnapshotShellCommandKind::Finish => Ok(SnapshotShellCommand::Finish(FinishCommand::try_from_args(args)?)),
            SnapshotShellCommandKind::Info => Ok(SnapshotShellCommand::Info(InfoCommand::try_from_args(args)?)),
            SnapshotShellCommandKind::SetIndex => Ok(
                SnapshotShellCommand::SetIndex(SetIndexCommand::try_from_args(args)?),
            ),
            SnapshotShellCommandKind::SetTerm => Ok(SnapshotShellCommand::SetTerm(SetTermCommand::try_from_args(args)?)),
            SnapshotShellCommandKind::SetTimestamp => Ok(
                SnapshotShellCommand::SetTimestamp(SetTimestampCommand::try_from_args(args)?),
            ),
        }
    }
}

/// The commands the snapshot shell lists in its help.
pub open spec fn snapshot_shell_commands_spec() -> Seq<(Seq<char>, Seq<char>, bool, nat)> {
    seq![
        entry_of(ABORT_NAME, ABORT_SUMMARY, false),
        entry_of(ADD_SERVER_NAME, ADD_SERVER_SUMMARY, false),
        entry_of(FINISH_NAME, FINISH_SUMMARY, false),
        entry_of(HELP_TITLE, HELP_SUMMARY, false),
        entry_of(INFO_NAME, INFO_SUMMARY, false),
        entry_of(SET_INDEX_NAME, SET_INDEX_SUMMARY, false),
        entry_of(SET_TERM_NAME, SET_TERM_SUMMARY, false),
        entry_of(SET_TIMESTAMP_NAME, SET_TIMESTAMP_SUMMARY, false),
    ]
}

/// The snapshot shell.
pub struct SnapshotShell;

impl SnapshotShell {
    /// The help of the snapshot shell: one line per command.
    pub fn help() -> (r: Help)
        ensures
            r@ == shell_help(SNAPSHOT_SHELL_NAME, SNAPSHOT_SHELL_SUMMARY, snapshot_shell_commands_spec()),
    {
        let r = expect_built(
            Help::builder().name(SNAPSHOT_SHELL_NAME).summary(SNAPSHOT_SHELL_SUMMARY).skip_usage()
                .add_command(ABORT_NAME, ABORT_SUMMARY)
                .add_command(ADD_SERVER_NAME, ADD_SERVER_SUMMARY)
                .add_command(FINISH_NAME, FINISH_SUMMARY)
                .add_command(HELP_TITLE, HELP_SUMMARY)
                .add_command(INFO_NAME, INFO_SUMMARY)
                .add_command(SET_INDEX_NAME, SET_INDEX_SUMMARY)
                .add_command(SET_TERM_NAME, SET_TERM_SUMMARY)
                .add_command(SET_TIMESTAMP_NAME, SET_TIMESTAMP_SUMMARY)
                .build(),
        );
        assert(r@.commands =~= snapshot_shell_commands_spec());
        r
    }
}

// ---------------------------------------------------------------------------------------------
// Guarding the snapshot shell's schema
// ---------------------------------------------------------------------------------------------

/// What an SQL statement asks of the database, as far as the snapshot shell's guard tells
/// actions apart.
#[derive(Clone, Debug, PartialEq, Eq)]
pub enum AuthAction {
    /// Attaching the database file `filename`.
    Attach { filename: String },
    /// An action the database engine reports with an unknown code.
    Unknown,
    AlterTable,
    CreateIndex,
    CreateTable,
    CreateTrigger,
    CreateView,
    CreateVtable,
    Delete { table_name: String },
    DropIndex,
    DropTable,
    DropTrigger,
    DropView,
    DropVtable,
    Insert { table_name: String },
    Pragma { pragma_name: String, pragma_value: Option<String> },
    Reindex,
    /// Any other action.
    Other,
}

/// Whether an action may go ahead.
#[derive(Clone, Copy, Debug, PartialEq, Eq, Structural)]
pub enum Authorization {
    Allow,
    Deny,
}

/// The file an `ATTACH` names: without a leading `file:`, and up to the first `?`.
pub open spec fn attach_target(filename: Seq<char>) -> Seq<char> {
    let f = if filename.len() >= 5 && filename.take(5) == "file:"@ {
        filename.skip(5)
    } else {
        filename
    };
    match first_index_of(f, '?') {
        Some(i) => f.take(i),
        None => f,
    }
}

/// Whether an action changes the shape of the `raft` schema, or its one metadata row, or makes
/// the schema writable.
pub open spec fn alters_raft_schema(a: AuthAction) -> bool {
    match a {
        AuthAction::AlterTable | AuthAction::CreateIndex | AuthAction::CreateTable
        | AuthAction::CreateTrigger | AuthAction::CreateView | AuthAction::CreateVtable
        | AuthAction::DropIndex | AuthAction::DropTable | AuthAction::DropTrigger
        | AuthAction::DropView | AuthAction::DropVtable | AuthAction::Reindex => true,
        AuthAction::Delete { table_name } => table_name@ == "metadata"@,
        AuthAction::Insert { table_name } => table_name@ == "metadata"@,
        AuthAction::Pragma { pragma_name, pragma_value } => pragma_name@ == "writable_schema"@
            && pragma_value is Some,
        _ => false,
    }
}

/// The guard of the snapshot shell: it refuses to attach a temporary or in-memory database, any
/// action of unknown code, and, on the `raft` schema (or where no schema is named), any action
/// that alters that schema. It allows everything else.
pub open spec fn authorize_spec(a: AuthAction, database_name: Option<Seq<char>>) -> Authorization {
    let target_refused = match a {
        AuthAction::Attach { filename } => attach_target(filename@) == ""@ || attach_target(filename@)
            == ":memory:"@,
        AuthAction::Unknown => true,
        _ => false,
    };
    let raft_schema = match database_name {
        None => true,
        Some(n) => n == "raft"@,
    };
    if target_refused || (raft_schema && alters_raft_schema(a)) {
        Authorization::Deny
    } else {
        Authorization::Allow
    }
}

fn attach_target_of(filename: &String) -> (r: Vec<char>)
    ensures
        r@ == attach_target(filename@),
{
    let chars = chars_of(filename.as_str());
    let prefix = chars_of("file:");
    proof {
        reveal_strlit("file:");
    }
    let f = if starts_with(chars.as_slice(), prefix.as_slice()) {
        let n = chars.len();
        sub_chars(chars.as_slice(), 5, n)
    } else {
        chars
    };
    assert(f@ == (if filename@.len() >= 5 && filename@.take(5) == "file:"@ {
        filename@.skip(5)
    } else {
        filename@
    }));
    match find_char(f.as_slice(), '?') {
        Some(i) => sub_chars(f.as_slice(), 0, i),
        None => f,
    }
}

/// Whether `table_name` is `metadata`.
fn is_metadata(table_name: &String) -> (r: bool)
    ensures
        r == (table_name@ == "metadata"@),
{
    str_eq(table_name.as_str(), "metadata")
}

impl SnapshotShell {
    /// The guard of the snapshot shell's connection, for the action `action` on the schema
    /// `database_name`, if one is named.
    pub fn authorizer(action: &AuthAction, database_name: Option<&str>) -> (r: Authorization)
        ensures
            r == authorize_spec(
                *action,
                match database_name {
                    Some(n) => Some(n@),
                    None => None,
                },
            ),
    {
        // Rules on every schema.
        match action {
            AuthAction::Attach { filename } => {
                let target = attach_target_of(filename);
                let empty = chars_of("");
                let memory = chars_of(":memory:");
                if crate::text::chars_eq(target.as_slice(), empty.as_slice())
                    || crate::text::chars_eq(target.as_slice(), memory.as_slice()) {
                    return Authorization::Deny;
                }
            },
            AuthAction::Unknown => {
                return Authorization::Deny;
            },
            _ => {},
        }
        // Rules on the `raft` schema.
        let raft_schema = match database_name {
            None => true,
            Some(name) => str_eq(name, "raft"),
        };
        if raft_schema {
            let refused = match action {
                AuthAction::AlterTable | AuthAction::CreateIndex | AuthAction::CreateTable
                | AuthAction::CreateTrigger | AuthAction::CreateView | AuthAction::CreateVtable
                | AuthAction::DropIndex | AuthAction::DropTable | AuthAction::DropTrigger
                | AuthAction::DropView | AuthAction::DropVtable | AuthAction::Reindex => true,
                AuthAction::Delete { table_name } => is_metadata(table_name),
                AuthAction::Insert { table_name } => is_metadata(table_name),
                AuthAction::Pragma { pragma_name, pragma_value } => str_eq(
                    pragma_name.as_str(),
                    "writable_schema",
                ) && pragma_value.is_some(),
                _ => false,
            };
            if refused {
                return Authorization::Deny;
            }
        }
        Authorization::Allow
    }
}

/// Outside the `raft` schema, the guard refuses only attachments of temporary or in-memory
/// databases and actions of unknown code.
pub proof fn lemma_authorizer_other_schemas(a: AuthAction, name: Seq<char>)
    requires
        name != "raft"@,
        a !is Attach,
        a !is Unknown,
    ensures
        authorize_spec(a, Some(name)) == Authorization::Allow,
{
}

/// An attachment is refused exactly where the file it names, without `file:` and parameters,
/// is empty or `:memory:`, whatever the schema.
pub proof fn lemma_authorizer_attach(filename: String, database_name: Option<Seq<char>>)
    ensures
        (authorize_spec(AuthAction::Attach { filename }, database_name) == Authorization::Deny) == (
        attach_target(filename@) == ""@ || attach_target(filename@) == ":memory:"@),
{
}

} // verus!
