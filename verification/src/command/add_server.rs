//! `.add-server` with flags: the server's address, an optional role and id, and whether the
//! snapshot is meant for that server.

use vstd::prelude::*;

use crate::raft::{role_from_name_spec, RaftRole};
use crate::text::{chars_of, copy_strings_from, parse_u64_spec, parse_u64_str, str_eq, strings_view};
use super::{fails_with, CommandError, CommandErrorView};

verus! {

pub const SELF_FLAG: &'static str = "--self";
pub const ADDRESS_ARG: &'static str = "address";

/// Whether an argument is a flag: it starts with `--`.
pub open spec fn is_flag(a: Seq<char>) -> bool {
    a.len() >= 2 && a[0] == '-' && a[1] == '-'
}

/// The flags among `args`, in order.
pub open spec fn flags_of(args: Seq<Seq<char>>) -> Seq<Seq<char>>
    decreases args.len(),
{
    if args.len() == 0 {
        Seq::empty()
    } else if is_flag(args.last()) {
        flags_of(args.drop_last()).push(args.last())
    } else {
        flags_of(args.drop_last())
    }
}

/// The arguments among `args` that are not flags, in order.
pub open spec fn positionals_of(args: Seq<Seq<char>>) -> Seq<Seq<char>>
    decreases args.len(),
{
    if args.len() == 0 {
        Seq::empty()
    } else if is_flag(args.last()) {
        positionals_of(args.drop_last())
    } else {
        positionals_of(args.drop_last()).push(args.last())
    }
}

/// `.add-server [--self] <address> [role] [id]`: adds a server to the snapshot, with the next
/// free id where none is given, and marks it as the snapshot's own server with `--self`.
#[derive(Clone, Debug, PartialEq, Eq)]
pub struct AddServerCommand {
    pub address: String,
    pub role: RaftRole,
    pub id: Option<u64>,
    pub set_self: bool,
}

/// The plain values of the command: address, role, id and whether it marks its own server.
pub type AddServerView = (Seq<char>, RaftRole, Option<u64>, bool);

impl View for AddServerCommand {
    type V = AddServerView;

    open spec fn view(&self) -> AddServerView {
        (self.address@, self.role, self.id, self.set_self)
    }
}

/// The command for the arguments `args`: the flags are looked at first, then the positional
/// arguments, then the role, then the id.
pub open spec fn add_server_spec(args: Seq<Seq<char>>) -> Result<AddServerView, CommandErrorView> {
    let flags = flags_of(args);
    let pos = positionals_of(args);
    if flags.len() > 0 && !(flags.len() == 1 && flags[0] == SELF_FLAG@) {
        Err(CommandErrorView::UnrecognizedFlag(flags[0]))
    } else if pos.len() == 0 {
        Err(CommandErrorView::MissingArgument(ADDRESS_ARG@))
    } else if pos.len() > 3 {
        Err(CommandErrorView::UnrecognizedArguments(pos.skip(3)))
    } else {
        let set_self = flags.len() == 1;
        let role = if pos.len() >= 2 {
            role_from_name_spec(pos[1])
        } else {
            Some(RaftRole::Voter)
        };
        match role {
            None => Err(CommandErrorView::InvalidRole(pos[1])),
            Some(r) => if pos.len() == 3 {
                match parse_u64_spec(pos[2]) {
                    Some(id) => Ok((pos[0], r, Some(id), set_self)),
                    None => Err(CommandErrorView::InvalidNumber("id"@, pos[2])),
                }
            } else {
                Ok((pos[0], r, None, set_self))
            },
        }
    }
}

fn is_flag_exec(a: &String) -> (r: bool)
    ensures
        r == is_flag(a@),
{
    let chars = chars_of(a.as_str());
    chars.len() >= 2 && chars[0] == '-' && chars[1] == '-'
}

/// The flags and the other arguments of `args`, each in order.
pub fn partition_flags(args: &[String]) -> (r: (Vec<String>, Vec<String>))
    ensures
        strings_view(r.0@) == flags_of(strings_view(args@)),
        strings_view(r.1@) == positionals_of(strings_view(args@)),
{
    let ghost av = strings_view(args@);
    let mut flags: Vec<String> = Vec::new();
    let mut pos: Vec<String> = Vec::new();
    let mut k: usize = 0;
    while k < args.len()
        invariant
            k <= args.len(),
            av == strings_view(args@),
            strings_view(flags@) == flags_of(av.take(k as int)),
            strings_view(pos@) == positionals_of(av.take(k as int)),
        decreases args.len() - k,
    {
        let a = &args[k];
        proof {
            assert(av.take(k + 1).drop_last() =~= av.take(k as int));
            assert(av.take(k + 1).last() == a@);
        }
        if is_flag_exec(a) {
            let ghost before = flags@;
            flags.push(a.clone());
            assert(strings_view(flags@) =~= strings_view(before).push(a@));
        } else {
            let ghost before = pos@;
            pos.push(a.clone());
            assert(strings_view(pos@) =~= strings_view(before).push(a@));
        }
        k += 1;
    }
    assert(av.take(k as int) =~= av);
    (flags, pos)
}

impl AddServerCommand {
    pub fn try_from_args(args: &[String]) -> (r: Result<AddServerCommand, CommandError>)
        ensures
            match add_server_spec(strings_view(args@)) {
                Ok(v) => r matches Ok(c) && c@ == v,
                Err(e) => fails_with(r, e),
            },
    {
        let (flags, pos) = partition_flags(args);
        let ghost fv = strings_view(flags@);
        let ghost pv = strings_view(pos@);
        proof {
            if flags@.len() > 0 {
                assert(fv[0] == flags@[0]@);
            }
        }
        let set_self = if flags.len() == 0 {
            false
        } else if flags.len() == 1 && str_eq(flags[0].as_str(), SELF_FLAG) {
            true
        } else {
            return Err(CommandError::UnrecognizedFlag { flag: flags[0].clone() });
        };
        if pos.len() == 0 {
            return Err(CommandError::MissingArgument { name: ADDRESS_ARG });
        }
        if pos.len() > 3 {
            let copied = copy_strings_from(pos.as_slice(), 3);
            return Err(CommandError::UnrecognizedArguments { args: copied });
        }
        proof {
            assert(pv[0] == pos@[0]@);
            if pos@.len() >= 2 {
                assert(pv[1] == pos@[1]@);
            }
            if pos@.len() == 3 {
                assert(pv[2] == pos@[2]@);
            }
        }
        let role = if pos.len() >= 2 {
            match RaftRole::from_name(pos[1].as_str()) {
                Some(r) => r,
                None => {
                    return Err(CommandError::InvalidRole { raw: pos[1].clone() });
                },
            }
        } else {
            RaftRole::Voter
        };
        let id = if pos.len() == 3 {
            match parse_u64_str(pos[2].as_str()) {
                Some(id) => Some(id),
                None => {
                    return Err(CommandError::InvalidNumber { what: "id", raw: pos[2].clone() });
                },
            }
        } else {
            None
        };
        Ok(AddServerCommand { address: pos[0].clone(), role, id, set_self })
    }
}

/// How the database answered the insertion of a server.
#[derive(Clone, Copy, Debug, PartialEq, Eq, Structural)]
pub enum InsertOutcome {
    Inserted,
    /// The id is already taken.
    PrimaryKeyTaken,
    /// The address is already taken.
    UniqueTaken,
    /// Any other failure.
    Failed,
}

/// Why a server could not be added.
#[derive(Clone, Copy, Debug, PartialEq, Eq, Structural)]
pub enum AddServerError {
    IdInUse,
    AddressInUse,
    Failed,
}

/// What adding a server comes to, given how the insertion went: the taken id or address is
/// reported as such; once inserted, the server is marked as the snapshot's own where asked.
pub fn insert_result(outcome: InsertOutcome, set_self: bool) -> (r: Result<bool, AddServerError>)
    ensures
        outcome == InsertOutcome::Inserted ==> r == Ok::<bool, AddServerError>(set_self),
        outcome == InsertOutcome::PrimaryKeyTaken ==> r == Err::<bool, AddServerError>(AddServerError::IdInUse),
        outcome == InsertOutcome::UniqueTaken ==> r == Err::<bool, AddServerError>(AddServerError::AddressInUse),
        outcome == InsertOutcome::Failed ==> r == Err::<bool, AddServerError>(AddServerError::Failed),
{
    match outcome {
        InsertOutcome::Inserted => Ok(set_self),
        InsertOutcome::PrimaryKeyTaken => Err(AddServerError::IdInUse),
        InsertOutcome::UniqueTaken => Err(AddServerError::AddressInUse),
        InsertOutcome::Failed => Err(AddServerError::Failed),
    }
}

} // verus!
