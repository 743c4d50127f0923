//! Running a batch of commands, and the options the program starts with.

use vstd::prelude::*;

use crate::command::{Command, RootCommand};

verus! {

/// Whether a command is `.quit`.
pub open spec fn is_quit(c: Command) -> bool {
    c matches Command::Root(RootCommand::Quit(_))
}

/// How many of `commands` run: those before the first `.quit`.
pub open spec fn batch_len_spec(commands: Seq<Command>) -> int {
    if exists|i: int| 0 <= i < commands.len() && is_quit(commands[i]) {
        choose|i: int| 0 <= i < commands.len() && is_quit(commands[i]) && forall|j: int| 0 <= j < i ==> !is_quit(commands[j])
    } else {
        commands.len() as int
    }
}

/// Runs commands on a data directory.
#[derive(Clone, Debug)]
pub struct Runner {
    dir: String,
}

impl Runner {
    pub closed spec fn spec_dir(&self) -> Seq<char> {
        self.dir@
    }

    /// A runner on the directory `dir`.
    pub fn new(dir: String) -> (r: Runner)
        ensures
            r.spec_dir() == dir@,
    {
        Runner { dir }
    }

    /// The directory the commands run on.
    pub fn dir(&self) -> (r: &String)
        ensures
            r@ == self.spec_dir(),
    {
        &self.dir
    }

    /// How many of `commands` a batch runs: it stops at the first `.quit`.
    pub fn batch_len(commands: &[Command]) -> (r: usize)
        ensures
            r == batch_len_spec(commands@),
    {
        let mut k: usize = 0;
        while k < commands.len()
            invariant
                k <= commands.len(),
                forall|j: int| 0 <= j < k ==> !is_quit(commands@[j]),
            decreases commands.len() - k,
        {
            let quit = match &commands[k] {
                Command::Root(RootCommand::Quit(_)) => true,
                _ => false,
            };
            if quit {
                proof {
                    let w = choose|i: int| 0 <= i < commands@.len() && is_quit(commands@[i]) && forall|j: int| 0 <= j < i ==> !is_quit(commands@[j]);
                    assert(is_quit(commands@[k as int]));
                    if w < k {
                        assert(!is_quit(commands@[w]));
                    } else if w > k {
                        assert(!is_quit(commands@[k as int]));
                    }
                }
                return k;
            }
            k += 1;
        }
        k
    }
}

/// The options the program starts with.
#[derive(Clone, Debug, PartialEq, Eq)]
pub struct Args {
    /// Commands to run, in order.
    pub raw_commands: Vec<String>,
    /// The dqlite data directory.
    pub dir_path: Option<String>,
    /// How many times to retry opening the directory.
    pub retry_count: u32,
}

impl Args {
    /// The directory to open, and whether a directory without raft metadata is tolerated: the
    /// one given, which must hold raft state, else the current directory, which need not.
    pub fn directory(&self) -> (r: (String, bool))
        ensures
            match self.dir_path {
                Some(p) => r.0@ == p@ && !r.1,
                None => r.0@ == "."@ && r.1,
            },
    {
        match &self.dir_path {
            Some(p) => (p.clone(), false),
            None => {
                let mut d = String::new();
                crate::text::push_str(&mut d, ".");
                (d, true)
            },
        }
    }

    /// Whether the program runs the given commands, rather than reading them.
    pub fn has_commands(&self) -> (r: bool)
        ensures
            r == (self.raw_commands@.len() > 0),
    {
        self.raw_commands.len() > 0
    }
}

} // verus!
