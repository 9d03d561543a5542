//! Reading a document: the text is cut into lines, and the constructs of
//! the grammar are read from them.

use crate::chars::{run_end, string_of, to_chars};
use crate::grammar::{
    blanks_end, block_at, command_at, commands_from, comments, comments_end, depends_from,
    domain_at, domains_from, event_at, events_from, item_at, line_class, line_start, lines_from,
    lines_of, opt_block_at, param_at, params_from, protocol_at, redirect_at, type_def_at,
    types_from, variant_at, variants_at, variants_from, version_at, version_matched, Construct,
    Outcome,
};
use crate::line::{
    comment_text, is_comment, range_is, read_comment, read_domain_head, read_keyword,
    read_member_head, read_named, read_number, read_param_head, read_type_head, read_variant,
};
use crate::model::{
    commands_view, domains_view, events_view, lines_view, params_view, type_defs_view,
    variants_view, Command, Domain, Event, Item, Lines, Param, Protocol, Redirect, Type, TypeDef,
    Variant, Version,
};
use vstd::prelude::*;

verus! {

/// Why a text is no document.
#[derive(Clone, Copy, Debug, PartialEq, Eq, Structural)]
pub enum ParseError {
    /// The text ended before a construct was complete, and more text could
    /// complete it. Reading a whole text never gives this.
    Incomplete,
    /// The text does not hold the construct `expected` where it has to stand.
    /// `position` counts the characters before the line that does not fit.
    Malformed { position: usize, expected: Construct },
}

/// The lines that a vector of lines stands for.
pub open spec fn text_lines(v: Seq<Vec<char>>) -> Lines {
    Seq::new(v.len(), |i: int| v[i]@)
}

/// The start of a line does not depend on the lines after it.
pub proof fn lemma_line_start_prefix(a: Lines, b: Lines, k: int)
    requires
        0 <= k <= a.len(),
        k <= b.len(),
        forall|m: int| 0 <= m < k ==> a[m] == b[m],
    ensures
        line_start(a, k) == line_start(b, k),
    decreases k,
{
    if k > 0 {
        lemma_line_start_prefix(a, b, k - 1);
    }
}

/// Lines start one after another.
pub proof fn lemma_line_start_grows(lines: Lines, j: int, k: int)
    requires
        0 <= j <= k <= lines.len(),
    ensures
        0 <= line_start(lines, j) <= line_start(lines, k),
    decreases k,
{
    if j < k {
        lemma_line_start_grows(lines, j, k - 1);
    } else if k > 0 {
        lemma_line_start_grows(lines, j - 1, k - 1);
    }
}

/// A text, cut into its complete lines.
pub struct Source {
    pub chars: Vec<char>,
    pub lines: Vec<Vec<char>>,
}

impl Source {
    /// The lines are those of the text, and they end within it.
    pub open spec fn wf(&self) -> bool {
        &&& text_lines(self.lines@) == lines_of(self.chars@)
        &&& line_start(text_lines(self.lines@), self.lines@.len() as int) <= self.chars@.len()
    }

    /// The lines of the text.
    pub open spec fn view_lines(&self) -> Lines {
        text_lines(self.lines@)
    }

    /// Cuts a text into its lines.
    pub fn new(input: &str) -> (r: Source)
        ensures
            r.wf(),
            r.chars@ == input@,
    {
        let chars = to_chars(input);
        let mut lines: Vec<Vec<char>> = Vec::new();
        let mut i: usize = 0;
        let mut done = false;
        assert(text_lines(lines@) =~= Seq::<Seq<char>>::empty());
        while !done
            invariant
                i <= chars.len(),
                lines_of(chars@) == lines_from(chars@, i as int, text_lines(lines@)),
                i == line_start(text_lines(lines@), lines@.len() as int),
                done ==> run_end(chars@, i as int, line_class()) >= chars.len(),
            decreases chars.len() - i + (if done { 0int } else { 1int }),
        {
            let mut k: usize = i;
            while k < chars.len() && chars[k] != '\n'
                invariant
                    i <= k <= chars.len(),
                    run_end(chars@, i as int, line_class()) == run_end(
                        chars@,
                        k as int,
                        line_class(),
                    ),
                decreases chars.len() - k,
            {
                k += 1;
            }
            if k < chars.len() {
                let mut line: Vec<char> = Vec::new();
                let mut m: usize = i;
                while m < k
                    invariant
                        i <= m <= k <= chars.len(),
                        line@ == chars@.subrange(i as int, m as int),
                    decreases k - m,
                {
                    line.push(chars[m]);
                    m += 1;
                    assert(line@ =~= chars@.subrange(i as int, m as int));
                }
                let ghost before = text_lines(lines@);
                lines.push(line);
                proof {
                    let after = text_lines(lines@);
                    assert(after =~= before.push(chars@.subrange(i as int, k as int)));
                    lemma_line_start_prefix(before, after, before.len() as int);
                }
                i = k + 1;
            } else {
                done = true;
            }
        }
        Source { chars, lines }
    }

    /// The text from line `k` on.
    pub fn rest(&self, k: usize) -> (r: String)
        requires
            self.wf(),
            k <= self.lines@.len(),
        ensures
            r@ == self.chars@.subrange(
                line_start(self.view_lines(), k as int),
                self.chars@.len() as int,
            ),
    {
        let from = self.offset(k);
        string_of(&self.chars, from, self.chars.len())
    }

    /// How many characters stand before line `k`.
    pub fn offset(&self, k: usize) -> (r: usize)
        requires
            self.wf(),
            k <= self.lines@.len(),
        ensures
            r == line_start(self.view_lines(), k as int),
            r <= self.chars@.len(),
    {
        let total = self.chars.len();
        let mut at: usize = 0;
        let mut j: usize = 0;
        proof {
            lemma_line_start_grows(self.view_lines(), k as int, self.lines@.len() as int);
        }
        while j < k
            invariant
                j <= k <= self.lines@.len(),
                at == line_start(self.view_lines(), j as int),
                line_start(self.view_lines(), k as int) <= total,
            decreases k - j,
        {
            proof {
                lemma_line_start_grows(self.view_lines(), j + 1, k as int);
            }
            at = at + self.lines[j].len() + 1;
            j += 1;
        }
        at
    }
}

/// Reads the description that starts at line `i`.
pub fn read_comments(lines: &Vec<Vec<char>>, i: usize) -> (r: (Vec<String>, usize))
    requires
        i <= lines.len(),
    ensures
        lines_view(r.0@) == comments(text_lines(lines@), i as int),
        r.1 == comments_end(text_lines(lines@), i as int),
        i <= r.1 <= lines.len(),
{
    let ghost all = text_lines(lines@);
    let mut acc: Vec<String> = Vec::new();
    let mut j: usize = i;
    let mut done = false;
    while !done
        invariant
            all == text_lines(lines@),
            i <= j <= lines.len(),
            acc@.len() == j - i,
            comments_end(all, i as int) == comments_end(all, j as int),
            forall|k: int| 0 <= k < j - i ==> (#[trigger] acc@[k])@ == comment_text(all[i + k]),
            done ==> !(j < lines.len() && is_comment(all[j as int])),
        decreases lines.len() - j + (if done { 0int } else { 1int }),
    {
        if j < lines.len() {
            match read_comment(&lines[j]) {
                Some(text) => {
                    acc.push(text);
                    j += 1;
                },
                None => {
                    done = true;
                },
            }
        } else {
            done = true;
        }
    }
    assert(lines_view(acc@) =~= comments(all, i as int));
    (acc, j)
}

/// The end of the run of empty lines that starts at line `i`.
pub fn skip_empty(lines: &Vec<Vec<char>>, i: usize) -> (j: usize)
    requires
        i <= lines.len(),
    ensures
        j == blanks_end(text_lines(lines@), i as int),
        i <= j <= lines.len(),
{
    let mut j: usize = i;
    while j < lines.len() && lines[j].len() == 0
        invariant
            i <= j <= lines.len(),
            blanks_end(text_lines(lines@), i as int) == blanks_end(text_lines(lines@), j as int),
        decreases lines.len() - j,
    {
        j += 1;
    }
    j
}

/// Reads one variant at line `i`.
pub fn read_variant_at(lines: &Vec<Vec<char>>, i: usize) -> (r: Option<(Variant, usize)>)
    requires
        i <= lines.len(),
    ensures
        match r {
            Some((v, k)) => variant_at(text_lines(lines@), i as int) == Some((v@, k as int)) && i
                < k <= lines.len(),
            None => variant_at(text_lines(lines@), i as int) is None,
        },
{
    let (description, j) = read_comments(lines, i);
    if j < lines.len() {
        match read_variant(&lines[j]) {
            Some(name) => Some((Variant { description, name }, j + 1)),
            None => None,
        }
    } else {
        None
    }
}

/// Reads the variants that follow one another from line `i`.
pub fn read_variants_from(lines: &Vec<Vec<char>>, i: usize) -> (r: (Vec<Variant>, usize))
    requires
        i <= lines.len(),
    ensures
        (variants_view(r.0@), r.1 as int) == variants_from(
            text_lines(lines@),
            i as int,
            Seq::empty(),
        ),
        i <= r.1 <= lines.len(),
{
    let ghost all = text_lines(lines@);
    let mut acc: Vec<Variant> = Vec::new();
    let mut j: usize = i;
    let mut done = false;
    assert(variants_view(acc@) =~= Seq::empty());
    while !done
        invariant
            all == text_lines(lines@),
            i <= j <= lines.len(),
            variants_from(all, i as int, Seq::empty()) == variants_from(
                all,
                j as int,
                variants_view(acc@),
            ),
            done ==> variant_at(all, j as int) is None,
        decreases lines.len() - j + (if done { 0int } else { 1int }),
    {
        match read_variant_at(lines, j) {
            Some((v, k)) => {
                let ghost before = variants_view(acc@);
                acc.push(v);
                assert(variants_view(acc@) =~= before.push(v@));
                j = k;
            },
            None => {
                done = true;
            },
        }
    }
    (acc, j)
}

/// Reads one or more variants from line `i`.
pub fn read_variants(lines: &Vec<Vec<char>>, i: usize) -> (r: Option<(Vec<Variant>, usize)>)
    requires
        i <= lines.len(),
    ensures
        match r {
            Some((v, k)) => variants_at(text_lines(lines@), i as int) == Some(
                (variants_view(v@), k as int),
            ) && i <= k <= lines.len(),
            None => variants_at(text_lines(lines@), i as int) is None,
        },
{
    let (variants, k) = read_variants_from(lines, i);
    if variants.len() > 0 {
        Some((variants, k))
    } else {
        None
    }
}

/// Reads one parameter at line `i`.
pub fn read_param_at(lines: &Vec<Vec<char>>, i: usize) -> (r: Option<(Param, usize)>)
    requires
        i <= lines.len(),
    ensures
        match r {
            Some((p, k)) => param_at(text_lines(lines@), i as int) == Some((p@, k as int)) && i
                < k <= lines.len(),
            None => param_at(text_lines(lines@), i as int) is None,
        },
{
    let (description, j) = read_comments(lines, i);
    if j >= lines.len() {
        return None;
    }
    let head = match read_param_head(&lines[j]) {
        Some(head) => head,
        None => {
            return None;
        },
    };
    match head.ty {
        Type::Enum(_) => match read_variants(lines, j + 1) {
            Some((variants, k)) => Some(
                (
                    Param {
                        description,
                        experimental: head.experimental,
                        deprecated: head.deprecated,
                        optional: head.optional,
                        ty: Type::Enum(variants),
                        name: head.name,
                    },
                    k,
                ),
            ),
            None => None,
        },
        ty => Some(
            (
                Param {
                    description,
                    experimental: head.experimental,
                    deprecated: head.deprecated,
                    optional: head.optional,
                    ty,
                    name: head.name,
                },
                j + 1,
            ),
        ),
    }
}

/// Reads the parameters that follow one another from line `i`.
pub fn read_params_from(lines: &Vec<Vec<char>>, i: usize) -> (r: (Vec<Param>, usize))
    requires
        i <= lines.len(),
    ensures
        (params_view(r.0@), r.1 as int) == params_from(text_lines(lines@), i as int, Seq::empty()),
        i <= r.1 <= lines.len(),
{
    let ghost all = text_lines(lines@);
    let mut acc: Vec<Param> = Vec::new();
    let mut j: usize = i;
    let mut done = false;
    assert(params_view(acc@) =~= Seq::empty());
    while !done
        invariant
            all == text_lines(lines@),
            i <= j <= lines.len(),
            params_from(all, i as int, Seq::empty()) == params_from(
                all,
                j as int,
                params_view(acc@),
            ),
            done ==> param_at(all, j as int) is None,
        decreases lines.len() - j + (if done { 0int } else { 1int }),
    {
        match read_param_at(lines, j) {
            Some((p, k)) => {
                let ghost before = params_view(acc@);
                acc.push(p);
                assert(params_view(acc@) =~= before.push(p@));
                j = k;
            },
            None => {
                done = true;
            },
        }
    }
    (acc, j)
}

/// Reads a block of parameters under the keyword `kw` at line `i`.
pub fn read_block(lines: &Vec<Vec<char>>, i: usize, kw: &str) -> (r: Option<(Vec<Param>, usize)>)
    requires
        i <= lines.len(),
    ensures
        match r {
            Some((v, k)) => block_at(text_lines(lines@), i as int, kw@) == Some(
                (params_view(v@), k as int),
            ) && i < k <= lines.len(),
            None => block_at(text_lines(lines@), i as int, kw@) is None,
        },
{
    if i < lines.len() && read_keyword(&lines[i], kw) {
        let (params, k) = read_params_from(lines, i + 1);
        if params.len() > 0 {
            Some((params, k))
        } else {
            None
        }
    } else {
        None
    }
}

/// Reads a block of parameters that may be absent.
pub fn read_opt_block(lines: &Vec<Vec<char>>, i: usize, kw: &str) -> (r: (Vec<Param>, usize))
    requires
        i <= lines.len(),
    ensures
        (params_view(r.0@), r.1 as int) == opt_block_at(text_lines(lines@), i as int, kw@),
        i <= r.1 <= lines.len(),
{
    match read_block(lines, i, kw) {
        Some(r) => r,
        None => {
            let none: Vec<Param> = Vec::new();
            assert(params_view(none@) =~= Seq::empty());
            (none, i)
        },
    }
}

/// Reads what a type definition adds, at line `i`.
pub fn read_item_at(lines: &Vec<Vec<char>>, i: usize) -> (r: Option<(Item, usize)>)
    requires
        i <= lines.len(),
    ensures
        match r {
            Some((it, k)) => item_at(text_lines(lines@), i as int) == Some((it@, k as int)) && i
                < k <= lines.len(),
            None => item_at(text_lines(lines@), i as int) is None,
        },
{
    if i < lines.len() && read_keyword(&lines[i], "enum") {
        match read_variants(lines, i + 1) {
            Some((variants, k)) => Some((Item::Enum(variants), k)),
            None => None,
        }
    } else {
        match read_block(lines, i, "properties") {
            Some((params, k)) => Some((Item::Properties(params), k)),
            None => None,
        }
    }
}

/// Reads one type definition at line `i`.
pub fn read_type_def_at(lines: &Vec<Vec<char>>, i: usize) -> (r: Option<(TypeDef, usize)>)
    requires
        i <= lines.len(),
    ensures
        match r {
            Some((t, k)) => type_def_at(text_lines(lines@), i as int) == Some((t@, k as int)) && i
                < k <= lines.len(),
            None => type_def_at(text_lines(lines@), i as int) is None,
        },
{
    let (description, j) = read_comments(lines, i);
    if j >= lines.len() {
        return None;
    }
    let head = match read_type_head(&lines[j]) {
        Some(head) => head,
        None => {
            return None;
        },
    };
    let (item, k) = match read_item_at(lines, j + 1) {
        Some((it, k)) => (Some(it), k),
        None => (None, j + 1),
    };
    Some(
        (
            TypeDef {
                description,
                experimental: head.experimental,
                deprecated: head.deprecated,
                id: head.id,
                extends: head.extends,
                item,
            },
            k,
        ),
    )
}

/// Reads one redirect at line `i`.
pub fn read_redirect_at(lines: &Vec<Vec<char>>, i: usize) -> (r: Option<(Redirect, usize)>)
    requires
        i <= lines.len(),
    ensures
        match r {
            Some((t, k)) => redirect_at(text_lines(lines@), i as int) == Some((t@, k as int)) && i
                < k <= lines.len(),
            None => redirect_at(text_lines(lines@), i as int) is None,
        },
{
    let (description, j) = read_comments(lines, i);
    if j >= lines.len() {
        return None;
    }
    match read_named(&lines[j], "redirect") {
        Some(to) => Some((Redirect { description, to }, j + 1)),
        None => None,
    }
}

/// Reads one command at line `i`.
pub fn read_command_at(lines: &Vec<Vec<char>>, i: usize) -> (r: Option<(Command, usize)>)
    requires
        i <= lines.len(),
    ensures
        match r {
            Some((c, k)) => command_at(text_lines(lines@), i as int) == Some((c@, k as int)) && i
                < k <= lines.len(),
            None => command_at(text_lines(lines@), i as int) is None,
        },
{
    let (description, j) = read_comments(lines, i);
    if j >= lines.len() {
        return None;
    }
    let head = match read_member_head(&lines[j], "command") {
        Some(head) => head,
        None => {
            return None;
        },
    };
    let (redirect, a) = match read_redirect_at(lines, j + 1) {
        Some((r, a)) => (Some(r), a),
        None => (None, j + 1),
    };
    let (parameters, b) = read_opt_block(lines, a, "parameters");
    let c = skip_empty(lines, b);
    let (results, d) = read_opt_block(lines, c, "returns");
    Some(
        (
            Command {
                description,
                experimental: head.experimental,
                deprecated: head.deprecated,
                name: head.name,
                redirect,
                parameters,
                returns: results,
            },
            d,
        ),
    )
}

/// Reads one event at line `i`.
pub fn read_event_at(lines: &Vec<Vec<char>>, i: usize) -> (r: Option<(Event, usize)>)
    requires
        i <= lines.len(),
    ensures
        match r {
            Some((e, k)) => event_at(text_lines(lines@), i as int) == Some((e@, k as int)) && i
                < k <= lines.len(),
            None => event_at(text_lines(lines@), i as int) is None,
        },
{
    let (description, j) = read_comments(lines, i);
    if j >= lines.len() {
        return None;
    }
    let head = match read_member_head(&lines[j], "event") {
        Some(head) => head,
        None => {
            return None;
        },
    };
    let (parameters, k) = read_opt_block(lines, j + 1, "parameters");
    Some(
        (
            Event {
                description,
                experimental: head.experimental,
                deprecated: head.deprecated,
                name: head.name,
                parameters,
            },
            k,
        ),
    )
}

/// Reads the `depends on` lines that follow one another from line `i`.
pub fn read_depends_from(lines: &Vec<Vec<char>>, i: usize) -> (r: (Vec<String>, usize))
    requires
        i <= lines.len(),
    ensures
        (lines_view(r.0@), r.1 as int) == depends_from(text_lines(lines@), i as int, Seq::empty()),
        i <= r.1 <= lines.len(),
{
    let ghost all = text_lines(lines@);
    let mut acc: Vec<String> = Vec::new();
    let mut j: usize = i;
    let mut done = false;
    assert(lines_view(acc@) =~= Seq::empty());
    while !done
        invariant
            all == text_lines(lines@),
            i <= j <= lines.len(),
            depends_from(all, i as int, Seq::empty()) == depends_from(
                all,
                j as int,
                lines_view(acc@),
            ),
            done ==> !(j < lines.len() && crate::line::named_line(
                all[j as int],
                "depends on"@,
            ) is Some),
        decreases lines.len() - j + (if done { 0int } else { 1int }),
    {
        if j < lines.len() {
            match read_named(&lines[j], "depends on") {
                Some(name) => {
                    let ghost before = lines_view(acc@);
                    acc.push(name);
                    assert(lines_view(acc@) =~= before.push(name@));
                    j += 1;
                },
                None => {
                    done = true;
                },
            }
        } else {
            done = true;
        }
    }
    (acc, j)
}

/// Reads the type definitions that follow from line `i`.
pub fn read_types_from(lines: &Vec<Vec<char>>, i: usize) -> (r: (Vec<TypeDef>, usize))
    requires
        i <= lines.len(),
    ensures
        (type_defs_view(r.0@), r.1 as int) == types_from(
            text_lines(lines@),
            i as int,
            Seq::empty(),
        ),
        i <= r.1 <= lines.len(),
{
    let ghost all = text_lines(lines@);
    let mut acc: Vec<TypeDef> = Vec::new();
    let mut j: usize = i;
    let mut done = false;
    assert(type_defs_view(acc@) =~= Seq::empty());
    while !done
        invariant
            all == text_lines(lines@),
            i <= j <= lines.len(),
            types_from(all, i as int, Seq::empty()) == types_from(
                all,
                j as int,
                type_defs_view(acc@),
            ),
            done ==> type_def_at(all, blanks_end(all, j as int)) is None,
        decreases lines.len() - j + (if done { 0int } else { 1int }),
    {
        let start = skip_empty(lines, j);
        match read_type_def_at(lines, start) {
            Some((t, k)) => {
                let ghost before = type_defs_view(acc@);
                acc.push(t);
                assert(type_defs_view(acc@) =~= before.push(t@));
                j = k;
            },
            None => {
                done = true;
            },
        }
    }
    (acc, j)
}

/// Reads the commands that follow from line `i`.
pub fn read_commands_from(lines: &Vec<Vec<char>>, i: usize) -> (r: (Vec<Command>, usize))
    requires
        i <= lines.len(),
    ensures
        (commands_view(r.0@), r.1 as int) == commands_from(
            text_lines(lines@),
            i as int,
            Seq::empty(),
        ),
        i <= r.1 <= lines.len(),
{
    let ghost all = text_lines(lines@);
    let mut acc: Vec<Command> = Vec::new();
    let mut j: usize = i;
    let mut done = false;
    assert(commands_view(acc@) =~= Seq::empty());
    while !done
        invariant
            all == text_lines(lines@),
            i <= j <= lines.len(),
            commands_from(all, i as int, Seq::empty()) == commands_from(
                all,
                j as int,
                commands_view(acc@),
            ),
            done ==> command_at(all, blanks_end(all, j as int)) is None,
        decreases lines.len() - j + (if done { 0int } else { 1int }),
    {
        let start = skip_empty(lines, j);
        match read_command_at(lines, start) {
            Some((c, k)) => {
                let ghost before = commands_view(acc@);
                acc.push(c);
                assert(commands_view(acc@) =~= before.push(c@));
                j = k;
            },
            None => {
                done = true;
            },
        }
    }
    (acc, j)
}

/// Reads the events that follow from line `i`.
pub fn read_events_from(lines: &Vec<Vec<char>>, i: usize) -> (r: (Vec<Event>, usize))
    requires
        i <= lines.len(),
    ensures
        (events_view(r.0@), r.1 as int) == events_from(text_lines(lines@), i as int, Seq::empty()),
        i <= r.1 <= lines.len(),
{
    let ghost all = text_lines(lines@);
    let mut acc: Vec<Event> = Vec::new();
    let mut j: usize = i;
    let mut done = false;
    assert(events_view(acc@) =~= Seq::empty());
    while !done
        invariant
            all == text_lines(lines@),
            i <= j <= lines.len(),
            events_from(all, i as int, Seq::empty()) == events_from(
                all,
                j as int,
                events_view(acc@),
            ),
            done ==> event_at(all, blanks_end(all, j as int)) is None,
        decreases lines.len() - j + (if done { 0int } else { 1int }),
    {
        let start = skip_empty(lines, j);
        match read_event_at(lines, start) {
            Some((e, k)) => {
                let ghost before = events_view(acc@);
                acc.push(e);
                assert(events_view(acc@) =~= before.push(e@));
                j = k;
            },
            None => {
                done = true;
            },
        }
    }
    (acc, j)
}

/// Reads one domain at line `i`.
pub fn read_domain_at(lines: &Vec<Vec<char>>, i: usize) -> (r: Option<(Domain, usize)>)
    requires
        i <= lines.len(),
    ensures
        match r {
            Some((d, k)) => domain_at(text_lines(lines@), i as int) == Some((d@, k as int)) && i
                < k <= lines.len(),
            None => domain_at(text_lines(lines@), i as int) is None,
        },
{
    let (description, j) = read_comments(lines, i);
    if j >= lines.len() {
        return None;
    }
    let head = match read_domain_head(&lines[j]) {
        Some(head) => head,
        None => {
            return None;
        },
    };
    let (dependencies, a) = read_depends_from(lines, j + 1);
    let (types, b) = read_types_from(lines, a);
    let (commands, c) = read_commands_from(lines, b);
    let (events, d) = read_events_from(lines, c);
    Some(
        (
            Domain {
                description,
                experimental: head.experimental,
                deprecated: head.deprecated,
                name: head.name,
                dependencies,
                types,
                commands,
                events,
            },
            d,
        ),
    )
}

/// Reads the domains that follow from line `i`.
pub fn read_domains_from(lines: &Vec<Vec<char>>, i: usize) -> (r: (Vec<Domain>, usize))
    requires
        i <= lines.len(),
    ensures
        (domains_view(r.0@), r.1 as int) == domains_from(
            text_lines(lines@),
            i as int,
            Seq::empty(),
        ),
        i <= r.1 <= lines.len(),
{
    let ghost all = text_lines(lines@);
    let mut acc: Vec<Domain> = Vec::new();
    let mut j: usize = i;
    let mut done = false;
    assert(domains_view(acc@) =~= Seq::empty());
    while !done
        invariant
            all == text_lines(lines@),
            i <= j <= lines.len(),
            domains_from(all, i as int, Seq::empty()) == domains_from(
                all,
                j as int,
                domains_view(acc@),
            ),
            done ==> domain_at(all, blanks_end(all, j as int)) is None,
        decreases lines.len() - j + (if done { 0int } else { 1int }),
    {
        let start = skip_empty(lines, j);
        match read_domain_at(lines, start) {
            Some((d, k)) => {
                let ghost before = domains_view(acc@);
                acc.push(d);
                assert(domains_view(acc@) =~= before.push(d@));
                j = k;
            },
            None => {
                done = true;
            },
        }
    }
    (acc, j)
}

/// Reads the version block at line `i`, or tells how many of its lines match.
pub fn read_version_at(lines: &Vec<Vec<char>>, i: usize) -> (r: Result<Version, usize>)
    requires
        i <= lines.len(),
    ensures
        match r {
            Ok(v) => version_at(text_lines(lines@), i as int) == Some(v@),
            Err(m) => version_at(text_lines(lines@), i as int) is None && m == version_matched(
                text_lines(lines@),
                i as int,
            ),
        },
{
    if i >= lines.len() {
        return Err(0);
    }
    assert(lines@[i as int]@.subrange(0, lines@[i as int]@.len() as int) =~= lines@[i as int]@);
    if !range_is(&lines[i], 0, lines[i].len(), "version") {
        return Err(0);
    }
    if lines.len() - i < 2 {
        return Err(1);
    }
    let major = match read_number(&lines[i + 1], "major") {
        Some(n) => n,
        None => {
            return Err(1);
        },
    };
    if lines.len() - i < 3 {
        return Err(2);
    }
    let minor = match read_number(&lines[i + 2], "minor") {
        Some(n) => n,
        None => {
            return Err(2);
        },
    };
    Ok(Version { major, minor })
}

/// What is left of a text after its first `k` lines.
pub open spec fn rest_from(s: Seq<char>, k: int) -> Seq<char> {
    s.subrange(line_start(lines_of(s), k), s.len() as int)
}

/// What reading a text as a document gives: the document and what follows
/// it, or the place of the line that does not fit, counted in characters,
/// with the construct expected there.
pub open spec fn parse_spec(s: Seq<char>) -> Result<(crate::model::ProtocolView, Seq<char>), (int, Construct)> {
    match protocol_at(lines_of(s)) {
        Outcome::Read(p, k) => Ok((p, rest_from(s, k))),
        Outcome::Stuck(k, c) => Err((line_start(lines_of(s), k), c)),
    }
}

/// Reads a document from a text in the PDL format.
///
/// The text is read as far as it holds a document: a description, the
/// version block and at least one domain. What follows the last construct
/// that could be read is handed back unread, whatever it is. Where the
/// version block or the first domain does not fit, the place is reported.
pub fn parse(input: &str) -> (r: Result<(Protocol, String), ParseError>)
    ensures
        match parse_spec(input@) {
            Ok((p, rest)) => r matches Ok((d, t)) && d@ == p && t@ == rest,
            Err((at, c)) => r matches Err(ParseError::Malformed { position, expected })
                && position == at && expected == c,
        },
{
    let source = Source::new(input);
    let lines = &source.lines;
    let ghost all = text_lines(lines@);
    let (description, a) = read_comments(lines, 0);
    let b = skip_empty(lines, a);
    match read_version_at(lines, b) {
        Err(m) => {
            assert(b + m <= lines.len());
            Err(ParseError::Malformed { position: source.offset(b + m), expected: Construct::Version })
        },
        Ok(version) => {
            let (domains, k) = read_domains_from(lines, b + 3);
            if domains.len() > 0 {
                let rest = source.rest(k);
                Ok((Protocol { description, version, domains }, rest))
            } else {
                let c = skip_empty(lines, b + 3);
                let (_, d) = read_comments(lines, c);
                Err(
                    ParseError::Malformed {
                        position: source.offset(d),
                        expected: Construct::Domain,
                    },
                )
            }
        },
    }
}

/// Reads one comment line from the start of a text: its text, and what
/// follows the line.
pub fn comment(input: &str) -> (r: Option<(String, String)>)
    ensures
        match comment_at(lines_of(input@)) {
            Some(text) => r matches Some((t, rest)) && t@ == text && rest@ == rest_from(input@, 1),
            None => r is None,
        },
{
    let source = Source::new(input);
    if source.lines.len() == 0 {
        return None;
    }
    match read_comment(&source.lines[0]) {
        Some(text) => {
            let rest = source.rest(1);
            Some((text, rest))
        },
        None => None,
    }
}

/// The text of the comment on the first line, if that line is a comment.
pub open spec fn comment_at(lines: Lines) -> Option<Seq<char>> {
    if lines.len() > 0 && is_comment(lines[0]) {
        Some(comment_text(lines[0]))
    } else {
        None
    }
}

/// The name on the first line, if that line is a `depends on` line.
pub open spec fn depends_at(lines: Lines) -> Option<Seq<char>> {
    if lines.len() > 0 {
        crate::line::named_line(lines[0], "depends on"@)
    } else {
        None
    }
}

/// Reads one `depends on` line from the start of a text: the name of the
/// domain, and what follows the line.
pub fn depends_on(input: &str) -> (r: Option<(String, String)>)
    ensures
        match depends_at(lines_of(input@)) {
            Some(name) => r matches Some((t, rest)) && t@ == name && rest@ == rest_from(input@, 1),
            None => r is None,
        },
{
    let source = Source::new(input);
    if source.lines.len() == 0 {
        return None;
    }
    match read_named(&source.lines[0], "depends on") {
        Some(name) => {
            let rest = source.rest(1);
            Some((name, rest))
        },
        None => None,
    }
}

/// Reads the version block from the start of a text: the version, and
/// what follows the block.
pub fn version(input: &str) -> (r: Option<(Version, String)>)
    ensures
        match version_at(lines_of(input@), 0) {
            Some(v) => r matches Some((d, rest)) && d@ == v && rest@ == rest_from(input@, 3),
            None => r is None,
        },
{
    let source = Source::new(input);
    match read_version_at(&source.lines, 0) {
        Ok(v) => {
            let rest = source.rest(3);
            Some((v, rest))
        },
        Err(_) => None,
    }
}

/// Reads one domain from the start of a text: the domain, and what follows it.
pub fn domain(input: &str) -> (r: Option<(Domain, String)>)
    ensures
        match domain_at(lines_of(input@), 0) {
            Some((v, k)) => r matches Some((d, rest)) && d@ == v && rest@ == rest_from(input@, k),
            None => r is None,
        },
{
    let source = Source::new(input);
    match read_domain_at(&source.lines, 0) {
        Some((v, k)) => {
            let rest = source.rest(k);
            Some((v, rest))
        },
        None => None,
    }
}

/// Reads one type definition from the start of a text.
pub fn type_def(input: &str) -> (r: Option<(TypeDef, String)>)
    ensures
        match type_def_at(lines_of(input@), 0) {
            Some((v, k)) => r matches Some((d, rest)) && d@ == v && rest@ == rest_from(input@, k),
            None => r is None,
        },
{
    let source = Source::new(input);
    match read_type_def_at(&source.lines, 0) {
        Some((v, k)) => {
            let rest = source.rest(k);
            Some((v, rest))
        },
        None => None,
    }
}

/// Reads what a type definition adds from the start of a text.
pub fn item(input: &str) -> (r: Option<(Item, String)>)
    ensures
        match item_at(lines_of(input@), 0) {
            Some((v, k)) => r matches Some((d, rest)) && d@ == v && rest@ == rest_from(input@, k),
            None => r is None,
        },
{
    let source = Source::new(input);
    match read_item_at(&source.lines, 0) {
        Some((v, k)) => {
            let rest = source.rest(k);
            Some((v, rest))
        },
        None => None,
    }
}

/// Reads one parameter from the start of a text.
pub fn param(input: &str) -> (r: Option<(Param, String)>)
    ensures
        match param_at(lines_of(input@), 0) {
            Some((v, k)) => r matches Some((d, rest)) && d@ == v && rest@ == rest_from(input@, k),
            None => r is None,
        },
{
    let source = Source::new(input);
    match read_param_at(&source.lines, 0) {
        Some((v, k)) => {
            let rest = source.rest(k);
            Some((v, rest))
        },
        None => None,
    }
}

/// Reads one variant from the start of a text.
pub fn variant(input: &str) -> (r: Option<(Variant, String)>)
    ensures
        match variant_at(lines_of(input@), 0) {
            Some((v, k)) => r matches Some((d, rest)) && d@ == v && rest@ == rest_from(input@, k),
            None => r is None,
        },
{
    let source = Source::new(input);
    match read_variant_at(&source.lines, 0) {
        Some((v, k)) => {
            let rest = source.rest(k);
            Some((v, rest))
        },
        None => None,
    }
}

/// Reads one command from the start of a text.
pub fn command(input: &str) -> (r: Option<(Command, String)>)
    ensures
        match command_at(lines_of(input@), 0) {
            Some((v, k)) => r matches Some((d, rest)) && d@ == v && rest@ == rest_from(input@, k),
            None => r is None,
        },
{
    let source = Source::new(input);
    match read_command_at(&source.lines, 0) {
        Some((v, k)) => {
            let rest = source.rest(k);
            Some((v, rest))
        },
        None => None,
    }
}

/// Reads one event from the start of a text.
pub fn event(input: &str) -> (r: Option<(Event, String)>)
    ensures
        match event_at(lines_of(input@), 0) {
            Some((v, k)) => r matches Some((d, rest)) && d@ == v && rest@ == rest_from(input@, k),
            None => r is None,
        },
{
    let source = Source::new(input);
    match read_event_at(&source.lines, 0) {
        Some((v, k)) => {
            let rest = source.rest(k);
            Some((v, rest))
        },
        None => None,
    }
}

/// Reads one redirect from the start of a text.
pub fn redirect(input: &str) -> (r: Option<(Redirect, String)>)
    ensures
        match redirect_at(lines_of(input@), 0) {
            Some((v, k)) => r matches Some((d, rest)) && d@ == v && rest@ == rest_from(input@, k),
            None => r is None,
        },
{
    let source = Source::new(input);
    match read_redirect_at(&source.lines, 0) {
        Some((v, k)) => {
            let rest = source.rest(k);
            Some((v, rest))
        },
        None => None,
    }
}

} // verus!
