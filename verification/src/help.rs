//! Help texts of the commands and shells.

use vstd::prelude::*;

use crate::text::{push_char, push_str};
use vstd::string::StringSliceAdditionalSpecFns;

verus! {

/// One named line of a help text: an argument, a flag or a command.
#[derive(Clone, Copy, Debug)]
pub struct HelpEntry {
    pub name: &'static str,
    pub summary: &'static str,
    /// For an argument: whether it may be left out.
    pub optional: bool,
}

/// The plain values of an entry: name, summary, whether optional, and the name's length in
/// bytes.
pub type EntryView = (Seq<char>, Seq<char>, bool, nat);

impl View for HelpEntry {
    type V = EntryView;

    open spec fn view(&self) -> EntryView {
        (self.name@, self.summary@, self.optional, self.name.spec_bytes().len())
    }
}

pub open spec fn help_entries_view(v: Seq<HelpEntry>) -> Seq<EntryView> {
    v.map_values(|e: HelpEntry| e@)
}

/// The help text of a command or a shell.
#[derive(Clone, Debug)]
pub struct Help {
    name: &'static str,
    summary: &'static str,
    skip_usage: bool,
    args: Vec<HelpEntry>,
    flags: Vec<HelpEntry>,
    commands: Vec<HelpEntry>,
}

/// The plain values of a help text.
pub struct HelpView {
    pub name: Seq<char>,
    pub summary: Seq<char>,
    pub skip_usage: bool,
    pub args: Seq<EntryView>,
    pub flags: Seq<EntryView>,
    pub commands: Seq<EntryView>,
}

impl View for Help {
    type V = HelpView;

    closed spec fn view(&self) -> HelpView {
        HelpView {
            name: self.name@,
            summary: self.summary@,
            skip_usage: self.skip_usage,
            args: help_entries_view(self.args@),
            flags: help_entries_view(self.flags@),
            commands: help_entries_view(self.commands@),
        }
    }
}

/// `n` spaces.
pub open spec fn spaces(n: nat) -> Seq<char> {
    Seq::new(n, |i: int| ' ')
}

/// The flags as the usage line shows them: ` [flag]` each.
pub open spec fn flags_usage(f: Seq<EntryView>) -> Seq<char>
    decreases f.len(),
{
    if f.len() == 0 {
        Seq::empty()
    } else {
        flags_usage(f.drop_last()) + " ["@ + f.last().0 + "]"@
    }
}

/// The arguments as the usage line shows them: ` [arg]` if optional, ` <arg>` if not.
pub open spec fn args_usage(a: Seq<EntryView>) -> Seq<char>
    decreases a.len(),
{
    if a.len() == 0 {
        Seq::empty()
    } else {
        args_usage(a.drop_last()) + if a.last().2 {
            " ["@ + a.last().0 + "]"@
        } else {
            " <"@ + a.last().0 + ">"@
        }
    }
}

/// The usage block of a help text.
pub open spec fn usage_spec(h: HelpView) -> Seq<char> {
    "\nUsage\n"@ + if h.commands.len() > 0 {
        "  "@ + h.name + " <command>\n"@
    } else {
        "  "@ + h.name + flags_usage(h.flags) + args_usage(h.args) + "\n"@
    }
}

/// The greatest name length, in bytes, of the entries.
pub open spec fn max_name_len(e: Seq<EntryView>) -> nat
    decreases e.len(),
{
    if e.len() == 0 {
        0
    } else {
        let m = max_name_len(e.drop_last());
        if e.last().3 > m {
            e.last().3
        } else {
            m
        }
    }
}

/// One line per entry: the name padded to `width` bytes, then the summary.
pub open spec fn section_lines(e: Seq<EntryView>, width: nat) -> Seq<char>
    decreases e.len(),
{
    if e.len() == 0 {
        Seq::empty()
    } else {
        section_lines(e.drop_last(), width) + "  "@ + e.last().0 + spaces((width - e.last().3) as nat)
            + "  "@ + e.last().1 + "\n"@
    }
}

/// A titled block of entries; nothing for no entries.
pub open spec fn section_spec(title: Seq<char>, e: Seq<EntryView>) -> Seq<char> {
    if e.len() == 0 {
        Seq::empty()
    } else {
        "\n"@ + title + "\n"@ + section_lines(e, max_name_len(e))
    }
}

/// The whole help text.
pub open spec fn render_spec(h: HelpView) -> Seq<char> {
    h.name + " - "@ + h.summary + "\n"@ + (if h.skip_usage {
        Seq::empty()
    } else {
        usage_spec(h)
    }) + section_spec("Arguments"@, h.args) + section_spec("Options"@, h.flags) + section_spec(
        "Commands"@,
        h.commands,
    )
}

/// Whether every name of `e` is shorter than the padding the help text can hold.
pub open spec fn names_fit(e: Seq<EntryView>) -> bool {
    forall|i: int| 0 <= i < e.len() ==> #[trigger] e[i].3 < 80
}

/// Whether the help text can be written: every entry name is shorter than 80 bytes.
pub open spec fn renderable(h: HelpView) -> bool {
    names_fit(h.args) && names_fit(h.flags) && names_fit(h.commands)
}

proof fn lemma_max_name_len(e: Seq<EntryView>)
    ensures
        forall|i: int| 0 <= i < e.len() ==> #[trigger] e[i].3 <= max_name_len(e),
    decreases e.len(),
{
    if e.len() > 0 {
        lemma_max_name_len(e.drop_last());
        assert forall|i: int| 0 <= i < e.len() implies #[trigger] e[i].3 <= max_name_len(e) by {
            if i < e.len() - 1 {
                assert(e[i] == e.drop_last()[i]);
            }
        }
    }
}

fn push_spaces(s: &mut String, n: usize)
    ensures
        final(s)@ == old(s)@ + spaces(n as nat),
{
    let mut k: usize = 0;
    while k < n
        invariant
            k <= n,
            s@ == old(s)@ + spaces(k as nat),
        decreases n - k,
    {
        push_char(s, ' ');
        k += 1;
        assert(s@ =~= old(s)@ + spaces(k as nat));
    }
}

fn names_fit_exec(v: &Vec<HelpEntry>) -> (r: bool)
    ensures
        r == names_fit(help_entries_view(v@)),
{
    let ghost e = help_entries_view(v@);
    let mut k: usize = 0;
    while k < v.len()
        invariant
            k <= v.len(),
            e == help_entries_view(v@),
            forall|j: int| 0 <= j < k ==> #[trigger] e[j].3 < 80,
        decreases v.len() - k,
    {
        let len = v[k].name.as_bytes().len();
        assert(e[k as int] == v@[k as int]@);
        assert(e[k as int].3 == len);
        if len >= 80 {
            return false;
        }
        k += 1;
    }
    true
}

impl Help {
    /// A builder with nothing set.
    pub fn builder() -> (r: HelpBuilder)
        ensures
            r@ == empty_builder_view(),
    {
        let r = HelpBuilder {
            name: None,
            summary: None,
            skip_usage: false,
            args: Vec::new(),
            flags: Vec::new(),
            commands: Vec::new(),
        };
        assert(help_entries_view(r.args@) =~= Seq::<EntryView>::empty());
        assert(help_entries_view(r.flags@) =~= Seq::<EntryView>::empty());
        assert(help_entries_view(r.commands@) =~= Seq::<EntryView>::empty());
        r
    }

    pub fn name(&self) -> (r: &'static str)
        ensures
            r@ == self@.name,
    {
        self.name
    }

    pub fn summary(&self) -> (r: &'static str)
        ensures
            r@ == self@.summary,
    {
        self.summary
    }

    /// The commands that the help text lists.
    pub fn commands(&self) -> (r: &Vec<HelpEntry>)
        ensures
            help_entries_view(r@) == self@.commands,
    {
        &self.commands
    }

    /// Whether the help text can be written: every entry name is shorter than 80 bytes.
    pub fn is_renderable(&self) -> (r: bool)
        ensures
            r == renderable(self@),
    {
        names_fit_exec(&self.args) && names_fit_exec(&self.flags) && names_fit_exec(&self.commands)
    }

    /// Appends the help text to `out`.
    pub fn write_to(&self, out: &mut String)
        requires
            renderable(self@),
        ensures
            final(out)@ == old(out)@ + render_spec(self@),
    {
        let ghost h = self@;
        push_str(out, self.name);
        push_str(out, " - ");
        push_str(out, self.summary);
        push_str(out, "\n");
        let ghost s1 = out@;
        assert(s1 =~= old(out)@ + (h.name + " - "@ + h.summary + "\n"@));
        if !self.skip_usage {
            self.handle_usage(out);
        }
        let ghost s2 = out@;
        assert(s2 =~= old(out)@ + (h.name + " - "@ + h.summary + "\n"@ + (if h.skip_usage {
            Seq::empty()
        } else {
            usage_spec(h)
        })));
        Help::handle_section(out, "Arguments", &self.args);
        Help::handle_section(out, "Options", &self.flags);
        Help::handle_section(out, "Commands", &self.commands);
        assert(out@ =~= old(out)@ + render_spec(h));
    }

    /// Appends the usage block.
    fn handle_usage(&self, out: &mut String)
        ensures
            final(out)@ == old(out)@ + usage_spec(self@),
    {
        push_str(out, "\nUsage\n");
        if self.commands.len() > 0 {
            push_str(out, "  ");
            push_str(out, self.name);
            push_str(out, " <command>\n");
            assert(out@ =~= old(out)@ + usage_spec(self@));
            return;
        }
        push_str(out, "  ");
        push_str(out, self.name);
        let ghost base = out@;
        let ghost flags = help_entries_view(self.flags@);
        let mut i: usize = 0;
        while i < self.flags.len()
            invariant
                i <= self.flags.len(),
                flags == help_entries_view(self.flags@),
                out@ == base + flags_usage(flags.take(i as int)),
            decreases self.flags.len() - i,
        {
            push_str(out, " [");
            push_str(out, self.flags[i].name);
            push_str(out, "]");
            proof {
                assert(flags.take(i + 1).drop_last() =~= flags.take(i as int));
                assert(flags[i as int] == self.flags@[i as int]@);
            }
            i += 1;
            assert(out@ =~= base + flags_usage(flags.take(i as int)));
        }
        assert(flags.take(i as int) =~= flags);
        let ghost base2 = out@;
        let ghost args = help_entries_view(self.args@);
        let mut j: usize = 0;
        while j < self.args.len()
            invariant
                j <= self.args.len(),
                args == help_entries_view(self.args@),
                out@ == base2 + args_usage(args.take(j as int)),
            decreases self.args.len() - j,
        {
            let arg = self.args[j];
            if arg.optional {
                push_str(out, " [");
                push_str(out, arg.name);
                push_str(out, "]");
            } else {
                push_str(out, " <");
                push_str(out, arg.name);
                push_str(out, ">");
            }
            proof {
                assert(args.take(j + 1).drop_last() =~= args.take(j as int));
                assert(args[j as int] == self.args@[j as int]@);
            }
            j += 1;
            assert(out@ =~= base2 + args_usage(args.take(j as int)));
        }
        assert(args.take(j as int) =~= args);
        push_str(out, "\n");
        assert(out@ =~= old(out)@ + usage_spec(self@));
    }

    /// Appends a titled block listing `entries`, names aligned; nothing for no entries.
    fn handle_section(out: &mut String, title: &str, entries: &Vec<HelpEntry>)
        requires
            names_fit(help_entries_view(entries@)),
        ensures
            final(out)@ == old(out)@ + section_spec(title@, help_entries_view(entries@)),
    {
        let ghost e = help_entries_view(entries@);
        if entries.len() == 0 {
            return;
        }
        push_str(out, "\n");
        push_str(out, title);
        push_str(out, "\n");
        let mut width: usize = 0;
        let mut i: usize = 0;
        while i < entries.len()
            invariant
                i <= entries.len(),
                e == help_entries_view(entries@),
                names_fit(e),
                width == max_name_len(e.take(i as int)),
                width < 80,
            decreases entries.len() - i,
        {
            proof {
                assert(e.take(i + 1).drop_last() =~= e.take(i as int));
                assert(e[i as int] == entries@[i as int]@);
            }
            let len = entries[i].name.len();
            if len > width {
                width = len;
            }
            i += 1;
        }
        assert(e.take(i as int) =~= e);
        proof {
            lemma_max_name_len(e);
        }
        let ghost base = out@;
        let mut k: usize = 0;
        while k < entries.len()
            invariant
                k <= entries.len(),
                e == help_entries_view(entries@),
                width == max_name_len(e),
                forall|j: int| 0 <= j < e.len() ==> #[trigger] e[j].3 <= width,
                out@ == base + section_lines(e.take(k as int), width as nat),
            decreases entries.len() - k,
        {
            let entry = entries[k];
            proof {
                assert(e.take(k + 1).drop_last() =~= e.take(k as int));
                assert(e[k as int] == entry@);
                assert(e[k as int].3 <= width);
                assert(entry.name.len() == entry@.3);
            }
            push_str(out, "  ");
            push_str(out, entry.name);
            push_spaces(out, width - entry.name.len());
            push_str(out, "  ");
            push_str(out, entry.summary);
            push_str(out, "\n");
            k += 1;
            assert(out@ =~= base + section_lines(e.take(k as int), width as nat));
        }
        assert(e.take(k as int) =~= e);
    }
}

/// Why a help text could not be built.
#[derive(Clone, Copy, Debug, PartialEq, Eq, Structural)]
pub enum HelpError {
    MissingName,
    MissingSummary,
}

/// Builds a help text piece by piece.
#[derive(Clone, Debug)]
pub struct HelpBuilder {
    name: Option<&'static str>,
    summary: Option<&'static str>,
    skip_usage: bool,
    args: Vec<HelpEntry>,
    flags: Vec<HelpEntry>,
    commands: Vec<HelpEntry>,
}

/// The plain values of a builder.
pub struct HelpBuilderView {
    pub name: Option<Seq<char>>,
    pub summary: Option<Seq<char>>,
    pub skip_usage: bool,
    pub args: Seq<EntryView>,
    pub flags: Seq<EntryView>,
    pub commands: Seq<EntryView>,
}

pub open spec fn empty_builder_view() -> HelpBuilderView {
    HelpBuilderView {
        name: None,
        summary: None,
        skip_usage: false,
        args: Seq::empty(),
        flags: Seq::empty(),
        commands: Seq::empty(),
    }
}

pub open spec fn opt_str_view(o: Option<&'static str>) -> Option<Seq<char>> {
    match o {
        Some(s) => Some(s@),
        None => None,
    }
}

impl View for HelpBuilder {
    type V = HelpBuilderView;

    closed spec fn view(&self) -> HelpBuilderView {
        HelpBuilderView {
            name: opt_str_view(self.name),
            summary: opt_str_view(self.summary),
            skip_usage: self.skip_usage,
            args: help_entries_view(self.args@),
            flags: help_entries_view(self.flags@),
            commands: help_entries_view(self.commands@),
        }
    }
}

/// The plain values of an entry made of a name and a summary.
pub open spec fn entry_of(name: &'static str, summary: &'static str, optional: bool) -> EntryView {
    (name@, summary@, optional, name.spec_bytes().len())
}

/// The help text out of a build that succeeded.
pub fn expect_built(r: Result<Help, HelpError>) -> (h: Help)
    requires
        r is Ok,
    ensures
        r == Ok::<Help, HelpError>(h),
{
    match r {
        Ok(h) => h,
        Err(_) => {
            proof {
                assert(false);
            }
            Help {
                name: "",
                summary: "",
                skip_usage: false,
                args: Vec::new(),
                flags: Vec::new(),
                commands: Vec::new(),
            }
        },
    }
}

impl HelpBuilder {
    pub fn name(self, name: &'static str) -> (r: HelpBuilder)
        ensures
            r@ == (HelpBuilderView { name: Some(name@), ..self@ }),
    {
        HelpBuilder { name: Some(name), ..self }
    }

    pub fn summary(self, summary: &'static str) -> (r: HelpBuilder)
        ensures
            r@ == (HelpBuilderView { summary: Some(summary@), ..self@ }),
    {
        HelpBuilder { summary: Some(summary), ..self }
    }

    /// Leaves the usage block out of the help text.
    pub fn skip_usage(self) -> (r: HelpBuilder)
        ensures
            r@ == (HelpBuilderView { skip_usage: true, ..self@ }),
    {
        HelpBuilder { skip_usage: true, ..self }
    }

    /// Adds a required argument.
    pub fn add_arg(self, name: &'static str, summary: &'static str) -> (r: HelpBuilder)
        ensures
            r@ == (HelpBuilderView { args: self@.args.push(entry_of(name, summary, false)), ..self@ }),
    {
        let mut args = self.args;
        args.push(HelpEntry { name, summary, optional: false });
        let r = HelpBuilder { args, ..self };
        assert(r@.args =~= self@.args.push(entry_of(name, summary, false)));
        r
    }

    /// Adds an argument that may be left out.
    pub fn add_optional_arg(self, name: &'static str, summary: &'static str) -> (r: HelpBuilder)
        ensures
            r@ == (HelpBuilderView { args: self@.args.push(entry_of(name, summary, true)), ..self@ }),
    {
        let mut args = self.args;
        args.push(HelpEntry { name, summary, optional: true });
        let r = HelpBuilder { args, ..self };
        assert(r@.args =~= self@.args.push(entry_of(name, summary, true)));
        r
    }

    /// Adds a flag.
    pub fn add_flag(self, name: &'static str, summary: &'static str) -> (r: HelpBuilder)
        ensures
            r@ == (HelpBuilderView { flags: self@.flags.push(entry_of(name, summary, false)), ..self@ }),
    {
        let mut flags = self.flags;
        flags.push(HelpEntry { name, summary, optional: false });
        let r = HelpBuilder { flags, ..self };
        assert(r@.flags =~= self@.flags.push(entry_of(name, summary, false)));
        r
    }

    /// Adds a command.
    pub fn add_command(self, name: &'static str, summary: &'static str) -> (r: HelpBuilder)
        ensures
            r@ == (HelpBuilderView {
                commands: self@.commands.push(entry_of(name, summary, false)),
                ..self@
            }),
    {
        let mut commands = self.commands;
        commands.push(HelpEntry { name, summary, optional: false });
        let r = HelpBuilder { commands, ..self };
        assert(r@.commands =~= self@.commands.push(entry_of(name, summary, false)));
        r
    }

    /// The help text, once a name and a summary are set.
    pub fn build(self) -> (r: Result<Help, HelpError>)
        ensures
            match (self@.name, self@.summary) {
                (Some(n), Some(s)) => r matches Ok(h) && h@ == (HelpView {
                    name: n,
                    summary: s,
                    skip_usage: self@.skip_usage,
                    args: self@.args,
                    flags: self@.flags,
                    commands: self@.commands,
                }),
                (None, _) => r == Err::<Help, HelpError>(HelpError::MissingName),
                (Some(_), None) => r == Err::<Help, HelpError>(HelpError::MissingSummary),
            },
    {
        let name = match self.name {
            Some(n) => n,
            None => return Err(HelpError::MissingName),
        };
        let summary = match self.summary {
            Some(s) => s,
            None => return Err(HelpError::MissingSummary),
        };
        Ok(
            Help {
                name,
                summary,
                skip_usage: self.skip_usage,
                args: self.args,
                flags: self.flags,
                commands: self.commands,
            },
        )
    }
}

/// Whether `t` occurs in `s`.
pub open spec fn contains_text(s: Seq<char>, t: Seq<char>) -> bool {
    exists|i: int| 0 <= i && i + t.len() <= s.len() && #[trigger] s.subrange(i, i + t.len()) == t
}

proof fn lemma_contains_extend(a: Seq<char>, s: Seq<char>, b: Seq<char>, t: Seq<char>)
    requires
        contains_text(s, t),
    ensures
        contains_text(a + s + b, t),
{
    let i = choose|i: int| 0 <= i && i + t.len() <= s.len() && #[trigger] s.subrange(i, i + t.len()) == t;
    let w = a + s + b;
    assert(w.subrange(a.len() + i, a.len() + i + t.len()) =~= t);
}

proof fn lemma_section_lines_contain(e: Seq<EntryView>, width: nat, j: int)
    requires
        0 <= j < e.len(),
    ensures
        contains_text(section_lines(e, width), e[j].0),
    decreases e.len(),
{
    let prev = section_lines(e.drop_last(), width);
    let rest = "  "@ + e.last().0 + spaces((width - e.last().3) as nat) + "  "@ + e.last().1 + "\n"@;
    assert(section_lines(e, width) == prev + rest);
    if j == e.len() - 1 {
        let s = section_lines(e, width);
        let k: int = (prev.len() + "  "@.len()) as int;
        assert(s.subrange(k, k + e[j].0.len()) =~= e[j].0);
    } else {
        assert(e[j] == e.drop_last()[j]);
        lemma_section_lines_contain(e.drop_last(), width, j);
        lemma_contains_extend(Seq::empty(), prev, rest, e[j].0);
        assert(Seq::<char>::empty() + prev + rest =~= prev + rest);
    }
}

/// Every argument, flag and command of a help text is named in the written text.
pub proof fn lemma_help_lists_entries(h: HelpView)
    ensures
        forall|j: int| 0 <= j < h.args.len() ==> contains_text(render_spec(h), #[trigger] h.args[j].0),
        forall|j: int| 0 <= j < h.flags.len() ==> contains_text(render_spec(h), #[trigger] h.flags[j].0),
        forall|j: int| 0 <= j < h.commands.len() ==> contains_text(render_spec(h), #[trigger] h.commands[j].0),
{
    let head = h.name + " - "@ + h.summary + "\n"@ + (if h.skip_usage {
        Seq::empty()
    } else {
        usage_spec(h)
    });
    let sa = section_spec("Arguments"@, h.args);
    let sf = section_spec("Options"@, h.flags);
    let sc = section_spec("Commands"@, h.commands);
    assert(render_spec(h) =~= head + sa + sf + sc);
    assert forall|j: int| 0 <= j < h.args.len() implies contains_text(render_spec(h), #[trigger] h.args[j].0) by {
        lemma_section_lines_contain(h.args, max_name_len(h.args), j);
        let pre = "\n"@ + "Arguments"@ + "\n"@;
        lemma_contains_extend(pre, section_lines(h.args, max_name_len(h.args)), Seq::empty(), h.args[j].0);
        assert(pre + section_lines(h.args, max_name_len(h.args)) + Seq::<char>::empty() =~= sa);
        lemma_contains_extend(head, sa, sf + sc, h.args[j].0);
        assert(head + sa + (sf + sc) =~= render_spec(h));
    }
    assert forall|j: int| 0 <= j < h.flags.len() implies contains_text(render_spec(h), #[trigger] h.flags[j].0) by {
        lemma_section_lines_contain(h.flags, max_name_len(h.flags), j);
        let pre = "\n"@ + "Options"@ + "\n"@;
        lemma_contains_extend(pre, section_lines(h.flags, max_name_len(h.flags)), Seq::empty(), h.flags[j].0);
        assert(pre + section_lines(h.flags, max_name_len(h.flags)) + Seq::<char>::empty() =~= sf);
        lemma_contains_extend(head + sa, sf, sc, h.flags[j].0);
        assert(head + sa + sf + sc =~= render_spec(h));
    }
    assert forall|j: int| 0 <= j < h.commands.len() implies contains_text(render_spec(h), #[trigger] h.commands[j].0) by {
        lemma_section_lines_contain(h.commands, max_name_len(h.commands), j);
        let pre = "\n"@ + "Commands"@ + "\n"@;
        lemma_contains_extend(pre, section_lines(h.commands, max_name_len(h.commands)), Seq::empty(), h.commands[j].0);
        assert(pre + section_lines(h.commands, max_name_len(h.commands)) + Seq::<char>::empty() =~= sc);
        lemma_contains_extend(head + sa + sf, sc, Seq::empty(), h.commands[j].0);
        assert(head + sa + sf + sc + Seq::<char>::empty() =~= render_spec(h));
    }
}

proof fn lemma_section_lines_contain_summary(e: Seq<EntryView>, width: nat, j: int)
    requires
        0 <= j < e.len(),
    ensures
        contains_text(section_lines(e, width), e[j].1),
    decreases e.len(),
{
    let prev = section_lines(e.drop_last(), width);
    let rest = "  "@ + e.last().0 + spaces((width - e.last().3) as nat) + "  "@ + e.last().1 + "\n"@;
    assert(section_lines(e, width) == prev + rest);
    if j == e.len() - 1 {
        let s = section_lines(e, width);
        let k: int = (prev.len() + "  "@.len() + e.last().0.len() + spaces((width - e.last().3) as nat).len()
            + "  "@.len()) as int;
        assert(s.subrange(k, k + e[j].1.len()) =~= e[j].1);
    } else {
        assert(e[j] == e.drop_last()[j]);
        lemma_section_lines_contain_summary(e.drop_last(), width, j);
        lemma_contains_extend(Seq::empty(), prev, rest, e[j].1);
        assert(Seq::<char>::empty() + prev + rest =~= prev + rest);
    }
}

/// The summary of every argument, flag and command of a help text is in the written text, and
/// so are the help text's own name and summary.
pub proof fn lemma_help_lists_summaries(h: HelpView)
    ensures
        contains_text(render_spec(h), h.name),
        contains_text(render_spec(h), h.summary),
        forall|j: int| 0 <= j < h.args.len() ==> contains_text(render_spec(h), #[trigger] h.args[j].1),
        forall|j: int| 0 <= j < h.flags.len() ==> contains_text(render_spec(h), #[trigger] h.flags[j].1),
        forall|j: int| 0 <= j < h.commands.len() ==> contains_text(render_spec(h), #[trigger] h.commands[j].1),
{
    let head = h.name + " - "@ + h.summary + "\n"@ + (if h.skip_usage {
        Seq::empty()
    } else {
        usage_spec(h)
    });
    let sa = section_spec("Arguments"@, h.args);
    let sf = section_spec("Options"@, h.flags);
    let sc = section_spec("Commands"@, h.commands);
    let r = render_spec(h);
    assert(r =~= head + sa + sf + sc);
    reveal_strlit(" - ");
    assert(r.subrange(0, 0 + h.name.len() as int) =~= h.name);
    let k: int = (h.name.len() + 3) as int;
    assert(r.subrange(k, k + h.summary.len()) =~= h.summary);
    assert(contains_text(r, h.name));
    assert(contains_text(r, h.summary));
    assert forall|j: int| 0 <= j < h.args.len() implies contains_text(r, #[trigger] h.args[j].1) by {
        lemma_section_lines_contain_summary(h.args, max_name_len(h.args), j);
        let pre = "\n"@ + "Arguments"@ + "\n"@;
        lemma_contains_extend(pre, section_lines(h.args, max_name_len(h.args)), Seq::empty(), h.args[j].1);
        assert(pre + section_lines(h.args, max_name_len(h.args)) + Seq::<char>::empty() =~= sa);
        lemma_contains_extend(head, sa, sf + sc, h.args[j].1);
        assert(head + sa + (sf + sc) =~= r);
    }
    assert forall|j: int| 0 <= j < h.flags.len() implies contains_text(r, #[trigger] h.flags[j].1) by {
        lemma_section_lines_contain_summary(h.flags, max_name_len(h.flags), j);
        let pre = "\n"@ + "Options"@ + "\n"@;
        lemma_contains_extend(pre, section_lines(h.flags, max_name_len(h.flags)), Seq::empty(), h.flags[j].1);
        assert(pre + section_lines(h.flags, max_name_len(h.flags)) + Seq::<char>::empty() =~= sf);
        lemma_contains_extend(head + sa, sf, sc, h.flags[j].1);
        assert(head + sa + sf + sc =~= r);
    }
    assert forall|j: int| 0 <= j < h.commands.len() implies contains_text(r, #[trigger] h.commands[j].1) by {
        lemma_section_lines_contain_summary(h.commands, max_name_len(h.commands), j);
        let pre = "\n"@ + "Commands"@ + "\n"@;
        lemma_contains_extend(pre, section_lines(h.commands, max_name_len(h.commands)), Seq::empty(), h.commands[j].1);
        assert(pre + section_lines(h.commands, max_name_len(h.commands)) + Seq::<char>::empty() =~= sc);
        lemma_contains_extend(head + sa + sf, sc, Seq::empty(), h.commands[j].1);
        assert(head + sa + sf + sc + Seq::<char>::empty() =~= r);
    }
}

} // verus!
