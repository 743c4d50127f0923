//! Raft servers, roles and configurations.

use vstd::prelude::*;

use crate::text::{chars_of, push_decimal, push_str};

verus! {

/// The role of a server in a raft configuration.
#[derive(Clone, Copy, Debug, PartialEq, Eq, Structural)]
pub enum RaftRole {
    Standby,
    Voter,
    Spare,
}

/// Failures of the raft model.
#[derive(Clone, Copy, Debug, PartialEq, Eq, Structural)]
pub enum RaftError {
    /// A raw role number outside `0..=2`.
    InvalidRole { raw: u8 },
}

/// The number by which raft stores a role.
pub open spec fn role_raw(role: RaftRole) -> u32 {
    match role {
        RaftRole::Standby => 0,
        RaftRole::Voter => 1,
        RaftRole::Spare => 2,
    }
}

/// The role that raft stores as `raw`, if any.
pub open spec fn role_from_raw(raw: u8) -> Option<RaftRole> {
    if raw == 0 {
        Some(RaftRole::Standby)
    } else if raw == 1 {
        Some(RaftRole::Voter)
    } else if raw == 2 {
        Some(RaftRole::Spare)
    } else {
        None
    }
}

/// The lower-case name of a role.
pub open spec fn role_name_spec(role: RaftRole) -> Seq<char> {
    match role {
        RaftRole::Standby => "standby"@,
        RaftRole::Voter => "voter"@,
        RaftRole::Spare => "spare"@,
    }
}

/// `c` with ASCII upper-case letters made lower-case.
pub open spec fn ascii_lower(c: char) -> char {
    if 'A' <= c && c <= 'Z' {
        ((c as int) + 32) as char
    } else {
        c
    }
}

/// `s` with ASCII upper-case letters made lower-case.
pub open spec fn ascii_lowercase(s: Seq<char>) -> Seq<char> {
    s.map_values(|c: char| ascii_lower(c))
}

/// The role named `name`, whatever the case of its letters.
pub open spec fn role_from_name_spec(name: Seq<char>) -> Option<RaftRole> {
    let lower = ascii_lowercase(name);
    if lower == "standby"@ {
        Some(RaftRole::Standby)
    } else if lower == "voter"@ {
        Some(RaftRole::Voter)
    } else if lower == "spare"@ {
        Some(RaftRole::Spare)
    } else {
        None
    }
}

impl RaftRole {
    /// The number by which raft stores this role.
    pub fn as_raw(&self) -> (r: u32)
        ensures
            r == role_raw(*self),
    {
        match self {
            RaftRole::Standby => 0,
            RaftRole::Voter => 1,
            RaftRole::Spare => 2,
        }
    }

    /// The role stored as `raw`, or an error for a number that names no role.
    pub fn try_from_u8(raw: u8) -> (r: Result<RaftRole, RaftError>)
        ensures
            match role_from_raw(raw) {
                Some(role) => r == Ok::<RaftRole, RaftError>(role),
                None => r == Err::<RaftRole, RaftError>(RaftError::InvalidRole { raw }),
            },
    {
        match raw {
            0 => Ok(RaftRole::Standby),
            1 => Ok(RaftRole::Voter),
            2 => Ok(RaftRole::Spare),
            _ => Err(RaftError::InvalidRole { raw }),
        }
    }

    /// The lower-case name of the role.
    pub fn name(&self) -> (r: &'static str)
        ensures
            r@ == role_name_spec(*self),
    {
        match self {
            RaftRole::Standby => "standby",
            RaftRole::Voter => "voter",
            RaftRole::Spare => "spare",
        }
    }

    /// The role called `name` (`standby`, `voter` or `spare`, in any case).
    pub fn from_name(name: &str) -> (r: Option<RaftRole>)
        ensures
            r == role_from_name_spec(name@),
    {
        let chars = chars_of(name);
        let mut lower: Vec<char> = Vec::new();
        let mut i: usize = 0;
        while i < chars.len()
            invariant
                i <= chars.len(),
                chars@ == name@,
                lower@ == ascii_lowercase(chars@.take(i as int)),
            decreases chars.len() - i,
        {
            let c = chars[i];
            let l = if 'A' <= c && c <= 'Z' { ((c as u32) + 32) as u8 as char } else { c };
            assert(l == ascii_lower(c)) by {
                if 'A' <= c && c <= 'Z' {
                    assert((c as u32 + 32) as u8 as char == ((c as int) + 32) as char);
                }
            }
            lower.push(l);
            i += 1;
            assert(lower@ =~= ascii_lowercase(chars@.take(i as int)));
        }
        assert(chars@.take(chars.len() as int) =~= chars@);
        let standby = chars_of("standby");
        let voter = chars_of("voter");
        let spare = chars_of("spare");
        if crate::text::chars_eq(lower.as_slice(), standby.as_slice()) {
            Some(RaftRole::Standby)
        } else if crate::text::chars_eq(lower.as_slice(), voter.as_slice()) {
            Some(RaftRole::Voter)
        } else if crate::text::chars_eq(lower.as_slice(), spare.as_slice()) {
            Some(RaftRole::Spare)
        } else {
            None
        }
    }
}

impl RaftError {
    /// A human-readable description of the failure.
    pub fn message(&self) -> (r: String)
        ensures
            match *self {
                RaftError::InvalidRole { raw } => r@ == "cannot convert "@ + crate::text::decimal(
                    raw as nat,
                ) + " to RaftRole"@,
            },
    {
        match self {
            RaftError::InvalidRole { raw } => {
                let mut s = String::new();
                push_str(&mut s, "cannot convert ");
                push_decimal(&mut s, *raw as u64);
                push_str(&mut s, " to RaftRole");
                s
            },
        }
    }
}

/// A server of a raft configuration.
#[derive(Clone, Debug, PartialEq, Eq)]
pub struct RaftServer {
    pub id: u64,
    pub address: String,
    pub role: RaftRole,
}

/// The plain values of a server: id, address and role.
pub type ServerView = (u64, Seq<char>, RaftRole);

impl View for RaftServer {
    type V = ServerView;

    open spec fn view(&self) -> ServerView {
        (self.id, self.address@, self.role)
    }
}

impl RaftServer {
    /// A server with the same id, address and role.
    pub fn duplicate(&self) -> (r: RaftServer)
        ensures
            r@ == self@,
    {
        RaftServer { id: self.id, address: self.address.clone(), role: self.role }
    }

    /// A server from the raw fields raft stores for it.
    pub fn from_raw(id: u64, address: String, role: u8) -> (r: Result<RaftServer, RaftError>)
        ensures
            match role_from_raw(role) {
                Some(ro) => r matches Ok(s) && s.id == id && s.address@ == address@ && s.role == ro,
                None => r == Err::<RaftServer, RaftError>(RaftError::InvalidRole { raw: role }),
            },
    {
        let role = match RaftRole::try_from_u8(role) {
            Ok(role) => role,
            Err(e) => return Err(e),
        };
        Ok(RaftServer { id, address, role })
    }
}

/// The set of servers of a raft cluster.
#[derive(Clone, Debug, PartialEq, Eq)]
pub struct RaftConfiguration {
    pub servers: Vec<RaftServer>,
}

/// The plain values of a list of servers.
pub open spec fn servers_view(v: Seq<RaftServer>) -> Seq<ServerView> {
    v.map_values(|s: RaftServer| s@)
}

impl View for RaftConfiguration {
    type V = Seq<ServerView>;

    open spec fn view(&self) -> Seq<ServerView> {
        servers_view(self.servers@)
    }
}

impl RaftConfiguration {
    /// A configuration with the same servers in the same order.
    pub fn duplicate(&self) -> (r: RaftConfiguration)
        ensures
            r@ == self@,
    {
        let mut servers: Vec<RaftServer> = Vec::new();
        let mut i: usize = 0;
        while i < self.servers.len()
            invariant
                i <= self.servers.len(),
                servers@.len() == i,
                servers_view(servers@) == self@.take(i as int),
            decreases self.servers.len() - i,
        {
            let d = self.servers[i].duplicate();
            let ghost prev = servers@;
            servers.push(d);
            proof {
                assert(servers@ == prev.push(d));
                assert forall|j: int| 0 <= j < i + 1 implies #[trigger] servers_view(servers@)[j] == self@.take(i + 1)[j] by {
                    assert(servers_view(servers@)[j] == servers@[j]@);
                    assert(self@ == servers_view(self.servers@));
                    assert(self@[j] == self.servers@[j]@);
                    if j < i {
                        assert(servers_view(prev)[j] == self@.take(i as int)[j]);
                        assert(servers_view(prev)[j] == prev[j]@);
                    }
                }
            }
            i += 1;
            assert(servers_view(servers@) =~= self@.take(i as int));
        }
        assert(self@.take(self.servers.len() as int) =~= self@);
        RaftConfiguration { servers }
    }
}

/// Round trip between a role and the number raft stores for it.
pub proof fn lemma_role_raw_roundtrip(role: RaftRole)
    ensures
        role_from_raw(role_raw(role) as u8) == Some(role),
{
}

/// Every number that names a role is the number of that role.
pub proof fn lemma_raw_role_roundtrip(raw: u8)
    requires
        raw <= 2,
    ensures
        role_from_raw(raw) matches Some(role) && role_raw(role) == raw,
{
}

/// Each role is found again from its own name.
pub proof fn lemma_role_name_roundtrip(role: RaftRole)
    ensures
        role_from_name_spec(role_name_spec(role)) == Some(role),
{
    reveal_strlit("standby");
    reveal_strlit("voter");
    reveal_strlit("spare");
    let n = role_name_spec(role);
    assert(ascii_lowercase(n) =~= n);
    assert("standby"@ != "voter"@ ) by { assert("standby"@.len() != "voter"@.len()); }
    assert("standby"@ != "spare"@ ) by { assert("standby"@.len() != "spare"@.len()); }
    assert("voter"@ != "spare"@ ) by { assert("voter"@[0] != "spare"@[0]); }
}

/// The size of the buffer in which raft writes an error message.
pub const RAFT_ERRMSG_BUF_SIZE: usize = 256;

/// The bytes of `b` before its first zero byte, if it has one.
pub open spec fn until_nul(b: Seq<u8>) -> Option<Seq<u8>> {
    if exists|i: int| 0 <= i < b.len() && b[i] == 0 {
        Some(b.take(choose|i: int| 0 <= i < b.len() && b[i] == 0 && forall|j: int| 0 <= j < i ==> b[j] != 0))
    } else {
        None
    }
}

/// The text that the bytes encode in UTF-8, as `String::from_utf8` reads it; `None` where
/// they are not UTF-8.
pub uninterp spec fn utf8_text(bytes: Seq<u8>) -> Option<Seq<char>>;

/// Calls `String::from_utf8`, keeping the text and dropping the error. Claimed: the result is
/// the named value `utf8_text` of the bytes.
#[verifier::external_body]
fn decode_utf8(bytes: Vec<u8>) -> (r: Option<String>)
    ensures
        match r {
            Some(s) => utf8_text(bytes@) == Some(s@),
            None => utf8_text(bytes@) is None,
        },
{
    String::from_utf8(bytes).ok()
}

/// The buffer in which raft writes an error message, terminated by a zero byte.
#[derive(Clone, Debug)]
pub struct RaftErrorStr {
    buf: Vec<u8>,
}

impl View for RaftErrorStr {
    type V = Seq<u8>;

    closed spec fn view(&self) -> Seq<u8> {
        self.buf@
    }
}

impl RaftErrorStr {
    /// A buffer of zero bytes: the empty message.
    pub fn new() -> (r: RaftErrorStr)
        ensures
            r@.len() == RAFT_ERRMSG_BUF_SIZE,
            forall|i: int| 0 <= i < r@.len() ==> r@[i] == 0,
    {
        let mut buf: Vec<u8> = Vec::new();
        let mut k: usize = 0;
        while k < RAFT_ERRMSG_BUF_SIZE
            invariant
                k <= RAFT_ERRMSG_BUF_SIZE,
                buf@.len() == k,
                forall|i: int| 0 <= i < k ==> buf@[i] == 0,
            decreases RAFT_ERRMSG_BUF_SIZE - k,
        {
            buf.push(0);
            k += 1;
        }
        RaftErrorStr { buf }
    }

    /// A buffer holding the bytes `bytes`, as raft left them.
    pub fn from_bytes(bytes: Vec<u8>) -> (r: RaftErrorStr)
        ensures
            r@ == bytes@,
    {
        RaftErrorStr { buf: bytes }
    }

    /// The bytes of the message: those before the first zero byte; `None` where there is none.
    pub fn message_bytes(&self) -> (r: Option<Vec<u8>>)
        ensures
            match until_nul(self@) {
                Some(m) => r matches Some(v) && v@ == m,
                None => r is None,
            },
    {
        let mut k: usize = 0;
        while k < self.buf.len()
            invariant
                k <= self.buf@.len(),
                forall|j: int| 0 <= j < k ==> self.buf@[j] != 0,
            decreases self.buf.len() - k,
        {
            if self.buf[k] == 0 {
                let mut v: Vec<u8> = Vec::new();
                let mut j: usize = 0;
                while j < k
                    invariant
                        j <= k < self.buf@.len(),
                        v@ == self.buf@.take(j as int),
                    decreases k - j,
                {
                    v.push(self.buf[j]);
                    j += 1;
                    assert(v@ =~= self.buf@.take(j as int));
                }
                proof {
                    let w = choose|i: int| 0 <= i < self@.len() && self@[i] == 0 && forall|j: int| 0 <= j < i ==> self@[j] != 0;
                    assert(self@[k as int] == 0);
                    if w < k {
                        assert(self@[w] != 0);
                    } else if w > k {
                        assert(self@[k as int] != 0);
                    }
                }
                return Some(v);
            }
            k += 1;
        }
        None
    }

    /// The message as text; `None` where the buffer has no zero byte or the message is not
    /// UTF-8.
    pub fn as_str(&self) -> (r: Option<String>)
        ensures
            match until_nul(self@) {
                Some(m) => match utf8_text(m) {
                    Some(t) => r matches Some(s) && s@ == t,
                    None => r is None,
                },
                None => r is None,
            },
    {
        match self.message_bytes() {
            Some(m) => decode_utf8(m),
            None => None,
        }
    }
}

} // verus!
