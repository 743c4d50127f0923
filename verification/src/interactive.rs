//! What the interactive line editor decides about a line: which commands complete it, how its
//! first word is shown, and whether it is ready to run.

use vstd::prelude::*;

use crate::text::{chars_of, first_index_of, str_eq, string_of, sub_chars};

verus! {

/// Whether `c` is white space, as `char::is_whitespace` defines it: the characters with the
/// Unicode `White_Space` property.
pub open spec fn is_white_space(c: char) -> bool {
    ('\u{9}' <= c && c <= '\u{d}') || c == ' ' || c == '\u{85}' || c == '\u{a0}' || c == '\u{1680}'
        || ('\u{2000}' <= c && c <= '\u{200a}') || c == '\u{2028}' || c == '\u{2029}' || c == '\u{202f}'
        || c == '\u{205f}' || c == '\u{3000}'
}

fn white_space(c: char) -> (r: bool)
    ensures
        r == is_white_space(c),
{
    ('\u{9}' <= c && c <= '\u{d}') || c == ' ' || c == '\u{85}' || c == '\u{a0}' || c == '\u{1680}'
        || ('\u{2000}' <= c && c <= '\u{200a}') || c == '\u{2028}' || c == '\u{2029}' || c == '\u{202f}'
        || c == '\u{205f}' || c == '\u{3000}'
}

/// Whether `s` starts with `prefix`.
pub open spec fn has_prefix(s: Seq<char>, prefix: Seq<char>) -> bool {
    prefix.len() <= s.len() && s.take(prefix.len() as int) == prefix
}

/// The names of `known` that start with `prefix`, in order.
pub open spec fn names_with_prefix(known: Seq<Seq<char>>, prefix: Seq<char>) -> Seq<Seq<char>>
    decreases known.len(),
{
    if known.len() == 0 {
        Seq::empty()
    } else if has_prefix(known.last(), prefix) {
        names_with_prefix(known.drop_last(), prefix).push(known.last())
    } else {
        names_with_prefix(known.drop_last(), prefix)
    }
}

/// The texts of a list of names.
pub open spec fn names_view(v: Seq<&'static str>) -> Seq<Seq<char>> {
    v.map_values(|s: &'static str| s@)
}

/// The commands that complete `prefix`, the text before the cursor: none once it holds a space,
/// else every known command that starts with it.
pub open spec fn completions_spec(prefix: Seq<char>, known: Seq<Seq<char>>) -> Seq<Seq<char>> {
    if prefix.contains(' ') {
        Seq::empty()
    } else {
        names_with_prefix(known, prefix)
    }
}

fn prefix_of(s: &str, prefix: &[char]) -> (r: bool)
    ensures
        r == has_prefix(s@, prefix@),
{
    let chars = chars_of(s);
    crate::text::starts_with(chars.as_slice(), prefix)
}

/// The commands that complete `prefix`, the text before the cursor.
pub fn completions(prefix: &str, known: &Vec<&'static str>) -> (r: Vec<&'static str>)
    ensures
        names_view(r@) == completions_spec(prefix@, names_view(known@)),
{
    let p = chars_of(prefix);
    let has_space = match crate::text::find_char(p.as_slice(), ' ') {
        Some(_) => true,
        None => false,
    };
    if has_space {
        return Vec::new();
    }
    let ghost kv = names_view(known@);
    let mut r: Vec<&'static str> = Vec::new();
    let mut k: usize = 0;
    while k < known.len()
        invariant
            k <= known.len(),
            p@ == prefix@,
            kv == names_view(known@),
            names_view(r@) == names_with_prefix(kv.take(k as int), prefix@),
        decreases known.len() - k,
    {
        let name = known[k];
        proof {
            assert(kv.take(k + 1).drop_last() =~= kv.take(k as int));
            assert(kv.take(k + 1).last() == name@);
        }
        if prefix_of(name, p.as_slice()) {
            let ghost before = r@;
            r.push(name);
            assert(names_view(r@) =~= names_view(before).push(name@));
        }
        k += 1;
    }
    assert(kv.take(k as int) =~= kv);
    r
}

/// Whether `name` is one of `known`.
pub fn is_known(name: &str, known: &Vec<&'static str>) -> (r: bool)
    ensures
        r == names_view(known@).contains(name@),
{
    let mut k: usize = 0;
    while k < known.len()
        invariant
            k <= known.len(),
            forall|j: int| 0 <= j < k ==> known@[j]@ != name@,
        decreases known.len() - k,
    {
        if str_eq(known[k], name) {
            assert(names_view(known@)[k as int] == name@);
            return true;
        }
        k += 1;
    }
    assert forall|j: int| 0 <= j < names_view(known@).len() implies names_view(known@)[j] != name@ by {
        assert(names_view(known@)[j] == known@[j]@);
    }
    false
}

/// A command line cut at its first space: the first word, the space if any, and the rest.
pub open spec fn split_first_word_spec(line: Seq<char>) -> (Seq<char>, Seq<char>, Seq<char>) {
    match first_index_of(line, ' ') {
        Some(i) => (line.take(i), " "@, line.skip(i + 1)),
        None => (line, Seq::empty(), Seq::empty()),
    }
}

/// How the line editor shows a line: a line that starts with `.` is cut into its first word,
/// shown as a known or an unknown command, and the rest; other lines are shown as they are.
#[derive(Clone, Debug, PartialEq, Eq)]
pub enum Highlight {
    Plain,
    Command { first_word: String, separator: String, remainder: String, known: bool },
}

/// How the line editor shows `line`, given the commands of the current shell.
pub fn highlight(line: &str, known: &Vec<&'static str>) -> (r: Highlight)
    ensures
        !(line@.len() > 0 && line@[0] == '.') ==> r == Highlight::Plain,
        (line@.len() > 0 && line@[0] == '.') ==> (r matches Highlight::Command {
            first_word,
            separator,
            remainder,
            known: k,
        } && (first_word@, separator@, remainder@) == split_first_word_spec(line@) && k == names_view(
            known@,
        ).contains(first_word@)),
{
    let chars = chars_of(line);
    if chars.len() == 0 || chars[0] != '.' {
        return Highlight::Plain;
    }
    let n = chars.len();
    let (first, sep, rest) = match crate::text::find_char(chars.as_slice(), ' ') {
        Some(i) => {
            let first = sub_chars(chars.as_slice(), 0, i);
            let rest = sub_chars(chars.as_slice(), i + 1, n);
            proof {
                reveal_strlit(" ");
                assert(first@ == line@.take(i as int));
                assert(rest@ == line@.skip(i + 1));
            }
            let mut sep = String::new();
            crate::text::push_str(&mut sep, " ");
            (string_of(first.as_slice()), sep, string_of(rest.as_slice()))
        },
        None => (string_of(chars.as_slice()), String::new(), String::new()),
    };
    let k = is_known(first.as_str(), known);
    Highlight::Command { first_word: first, separator: sep, remainder: rest, known: k }
}

/// What the line editor decides of a finished line.
#[derive(Clone, Debug, PartialEq, Eq)]
pub enum Validation {
    Valid,
    /// The line cannot run; why.
    Invalid(String),
    /// The line needs more input.
    Incomplete,
}

/// The first word of a text: its characters up to the first white space.
pub open spec fn first_word_spec(s: Seq<char>) -> Seq<char> {
    if exists|i: int| 0 <= i < s.len() && is_white_space(s[i]) {
        s.take(choose|i: int| 0 <= i < s.len() && is_white_space(s[i]) && forall|j: int| 0 <= j < i ==> !is_white_space(s[j]))
    } else {
        s
    }
}

/// The first of `known` that starts with `word`, if any.
pub open spec fn first_candidate(known: Seq<Seq<char>>, word: Seq<char>) -> Option<Seq<char>> {
    let c = names_with_prefix(known, word);
    if c.len() > 0 {
        Some(c[0])
    } else {
        None
    }
}

/// Whether a command name is accepted: the first known command that starts with it must be
/// the name itself.
pub open spec fn command_accepted(known: Seq<Seq<char>>, word: Seq<char>) -> bool {
    first_candidate(known, word) == Some(word)
}

fn first_word(s: &str) -> (r: Vec<char>)
    ensures
        r@ == first_word_spec(s@),
{
    let chars = chars_of(s);
    let mut i: usize = 0;
    while i < chars.len()
        invariant
            i <= chars.len(),
            chars@ == s@,
            forall|j: int| 0 <= j < i ==> !is_white_space(s@[j]),
        decreases chars.len() - i,
    {
        if white_space(chars[i]) {
            let n = i;
            proof {
                let w = choose|k: int| 0 <= k < s@.len() && is_white_space(s@[k]) && forall|j: int| 0 <= j < k ==> !is_white_space(s@[j]);
                assert(is_white_space(s@[n as int]));
                if w < n {
                    assert(!is_white_space(s@[w]));
                } else if w > n {
                    assert(!is_white_space(s@[n as int]));
                }
                assert(w == n);
            }
            return sub_chars(chars.as_slice(), 0, i);
        }
        i += 1;
    }
    chars
}

fn names_with_prefix_first(prefix: &[char], known: &Vec<&'static str>) -> (r: Option<&'static str>)
    ensures
        match first_candidate(names_view(known@), prefix@) {
            Some(c) => r matches Some(x) && x@ == c,
            None => r is None,
        },
{
    let ghost kv = names_view(known@);
    let mut k: usize = 0;
    while k < known.len()
        invariant
            k <= known.len(),
            kv == names_view(known@),
            names_with_prefix(kv.take(k as int), prefix@).len() == 0,
        decreases known.len() - k,
    {
        proof {
            assert(kv.take(k + 1).drop_last() =~= kv.take(k as int));
            assert(kv.take(k + 1).last() == known@[k as int]@);
        }
        if prefix_of(known[k], prefix) {
            proof {
                lemma_names_with_prefix_extend(kv, prefix@, k + 1);
            }
            return Some(known[k]);
        }
        k += 1;
    }
    assert(kv.take(k as int) =~= kv);
    None
}

/// Names added after the first match leave the first match in place.
proof fn lemma_names_with_prefix_extend(kv: Seq<Seq<char>>, prefix: Seq<char>, k: int)
    requires
        1 <= k <= kv.len(),
        names_with_prefix(kv.take(k - 1), prefix).len() == 0,
        has_prefix(kv[k - 1], prefix),
    ensures
        names_with_prefix(kv, prefix).len() > 0,
        names_with_prefix(kv, prefix)[0] == kv[k - 1],
    decreases kv.len() - k,
{
    if k == kv.len() {
        assert(kv.take(k - 1) =~= kv.drop_last());
    } else {
        assert(kv.drop_last().take(k - 1) =~= kv.take(k - 1));
        lemma_names_with_prefix_extend(kv.drop_last(), prefix, k);
    }
}

/// The result of validating a command whose first word is `word`.
pub fn validate_command(word: &[char], known: &Vec<&'static str>) -> (r: Validation)
    ensures
        command_accepted(names_view(known@), word@) ==> r == Validation::Valid,
        !command_accepted(names_view(known@), word@) ==> (r matches Validation::Invalid(m) && m@ == "unknown command"@),
{
    match names_with_prefix_first(word, known) {
        Some(name) => {
            let name_chars = chars_of(name);
            if crate::text::chars_eq(name_chars.as_slice(), word) {
                return Validation::Valid;
            }
        },
        None => {},
    }
    let mut m = String::new();
    crate::text::push_str(&mut m, "unknown command");
    Validation::Invalid(m)
}

/// The message `sqlparser` gives where it cannot parse a text as SQLite statements, with the
/// SQLite dialect and a recursion limit of 100; `None` where it parses.
pub uninterp spec fn sqlite_parse_error(text: Seq<char>) -> Option<Seq<char>>;

/// Parses `text` with `sqlparser::parser::Parser` (the SQLite dialect, a recursion limit of
/// 100) into statements. Claimed: the result is the named value `sqlite_parse_error` of the
/// text: the parser's error message, or nothing where it parses.
#[verifier::external_body]
fn parse_sqlite(text: &str) -> (r: Option<String>)
    ensures
        match r {
            Some(m) => sqlite_parse_error(text@) == Some(m@),
            None => sqlite_parse_error(text@) is None,
        },
{
    let dialect = sqlparser::dialect::SQLiteDialect {};
    match sqlparser::parser::Parser::new(&dialect).with_recursion_limit(100).try_with_sql(text) {
        Ok(mut parser) => parser.try_parse(|p| p.parse_statements()).err().map(|e| e.to_string()),
        Err(e) => Some(e.to_string()),
    }
}

/// Whether the last character of `s` that is not white space is `;`.
pub open spec fn ends_with_semicolon(s: Seq<char>) -> bool {
    exists|i: int| 0 <= i < s.len() && s[i] == ';' && forall|j: int| i < j < s.len() ==> is_white_space(#[trigger] s[j])
}

fn ends_with_semicolon_exec(s: &str) -> (r: bool)
    ensures
        r == ends_with_semicolon(s@),
{
    let chars = chars_of(s);
    let mut k: usize = chars.len();
    while k > 0
        invariant
            k <= chars.len(),
            chars@ == s@,
            forall|j: int| k <= j < s@.len() ==> is_white_space(#[trigger] s@[j]),
        decreases k,
    {
        let c = chars[k - 1];
        if !white_space(c) {
            proof {
                if c != ';' {
                    assert forall|i: int| 0 <= i < s@.len() && s@[i] == ';' implies !(forall|j: int|
                        i < j < s@.len() ==> is_white_space(#[trigger] s@[j])) by {
                        if i < k - 1 {
                            assert(!is_white_space(s@[k - 1]));
                        }
                    }
                }
            }
            return c == ';';
        }
        k -= 1;
    }
    proof {
        assert forall|i: int| 0 <= i < s@.len() && s@[i] == ';' implies !(forall|j: int|
            i < j < s@.len() ==> is_white_space(#[trigger] s@[j])) by {
            assert(is_white_space(s@[i]));
        }
    }
    false
}

/// What the line editor decides of SQL text: invalid where it does not parse, incomplete until
/// it ends with `;`.
pub fn validate_sql_outcome(text: &str, parse_error: Option<String>) -> (r: Validation)
    ensures
        match parse_error {
            Some(m) => r matches Validation::Invalid(x) && x@ == m@,
            None => if ends_with_semicolon(text@) {
                r == Validation::Valid
            } else {
                r == Validation::Incomplete
            },
        },
{
    match parse_error {
        Some(m) => Validation::Invalid(m),
        None => if ends_with_semicolon_exec(text) {
            Validation::Valid
        } else {
            Validation::Incomplete
        },
    }
}

/// What the line editor decides of a finished line: an empty line is valid; a line that starts
/// with `.` must name a command of the shell; any other must be SQL that parses and ends with
/// `;`.
pub fn validate(input: &str, known: &Vec<&'static str>) -> (r: Validation)
    ensures
        input@.len() == 0 ==> r == Validation::Valid,
        (input@.len() > 0 && input@[0] == '.') ==> (command_accepted(names_view(known@), first_word_spec(input@))
            ==> r == Validation::Valid),
        (input@.len() > 0 && input@[0] == '.') ==> (!command_accepted(names_view(known@), first_word_spec(input@))
            ==> (r matches Validation::Invalid(m) && m@ == "unknown command"@)),
        (input@.len() > 0 && input@[0] != '.') ==> match sqlite_parse_error(input@) {
            Some(m) => r matches Validation::Invalid(x) && x@ == m,
            None => if ends_with_semicolon(input@) {
                r == Validation::Valid
            } else {
                r == Validation::Incomplete
            },
        },
{
    let chars = chars_of(input);
    if chars.len() == 0 {
        return Validation::Valid;
    }
    if chars[0] == '.' {
        let word = first_word(input);
        return validate_command(word.as_slice(), known);
    }
    let parsed = parse_sqlite(input);
    validate_sql_outcome(input, parsed)
}

} // verus!
