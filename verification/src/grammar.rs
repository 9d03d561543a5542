//! The grammar of a whole document, over its lines: which lines each
//! construct takes, in which order, and what it then stands for.
//!
//! Every construct is a function of the lines and of the index at which it
//! is tried. It answers with what it read and the index of the line after
//! it, or with nothing, and then no line counts as read.

use crate::chars::run_end;
use crate::line::{
    comment_text, domain_head, is_comment, is_keyword_line, member_head, named_line, number_line,
    param_head, type_head, variant_line,
};
use crate::model::{
    CommandView, DomainView, EventView, ItemView, Lines, ParamView, ProtocolView, RedirectView,
    TypeDefView, TypeView, VariantView, VersionView,
};
use vstd::prelude::*;

verus! {

/// Any character but the newline.
pub open spec fn line_class() -> spec_fn(char) -> bool {
    |c: char| c != '\n'
}

/// The complete lines of `s` from `i` on, after those in `acc`. What follows
/// the last newline is no line.
pub open spec fn lines_from(s: Seq<char>, i: int, acc: Lines) -> Lines
    decreases s.len() - i,
{
    let k = run_end(s, i, line_class());
    if 0 <= i <= k < s.len() {
        lines_from(s, k + 1, acc.push(s.subrange(i, k)))
    } else {
        acc
    }
}

/// The complete lines of a text, each without its newline.
pub open spec fn lines_of(s: Seq<char>) -> Lines {
    lines_from(s, 0, Seq::empty())
}

/// Where line `k` starts in the text that the lines were cut from.
pub open spec fn line_start(lines: Lines, k: int) -> int
    decreases k,
{
    if k <= 0 {
        0
    } else {
        line_start(lines, k - 1) + lines[k - 1].len() + 1
    }
}

/// Where the run of comment lines that starts at `i` ends.
pub open spec fn comments_end(lines: Lines, i: int) -> int
    decreases lines.len() - i,
{
    if 0 <= i < lines.len() && is_comment(lines[i]) {
        comments_end(lines, i + 1)
    } else {
        i
    }
}

/// The description that starts at `i`: the texts of the comment lines there.
pub open spec fn comments(lines: Lines, i: int) -> Lines {
    Seq::new((comments_end(lines, i) - i) as nat, |k: int| comment_text(lines[i + k]))
}

/// Where the run of empty lines that starts at `i` ends.
pub open spec fn blanks_end(lines: Lines, i: int) -> int
    decreases lines.len() - i,
{
    if 0 <= i < lines.len() && lines[i].len() == 0 {
        blanks_end(lines, i + 1)
    } else {
        i
    }
}

/// A run of comment lines ends at or after its start, within the lines.
pub proof fn lemma_comments_end(lines: Lines, i: int)
    requires
        0 <= i <= lines.len(),
    ensures
        i <= comments_end(lines, i) <= lines.len(),
        forall|k: int| i <= k < comments_end(lines, i) ==> is_comment(#[trigger] lines[k]),
        comments_end(lines, i) < lines.len() ==> !is_comment(lines[comments_end(lines, i)]),
    decreases lines.len() - i,
{
    if i < lines.len() && is_comment(lines[i]) {
        lemma_comments_end(lines, i + 1);
    }
}

/// A run of empty lines ends at or after its start, within the lines.
pub proof fn lemma_blanks_end(lines: Lines, i: int)
    requires
        0 <= i <= lines.len(),
    ensures
        i <= blanks_end(lines, i) <= lines.len(),
        forall|k: int| i <= k < blanks_end(lines, i) ==> (#[trigger] lines[k]).len() == 0,
        blanks_end(lines, i) < lines.len() ==> lines[blanks_end(lines, i)].len() > 0,
    decreases lines.len() - i,
{
    if i < lines.len() && lines[i].len() == 0 {
        lemma_blanks_end(lines, i + 1);
    }
}

/// A variant: a description, then a line that holds its name.
pub open spec fn variant_at(lines: Lines, i: int) -> Option<(VariantView, int)> {
    let j = comments_end(lines, i);
    if 0 <= i <= j < lines.len() && variant_line(lines[j]) is Some {
        Some((VariantView { description: comments(lines, i), name: variant_line(lines[j])->0 }, j + 1))
    } else {
        None
    }
}

/// As many variants as follow one another from `i`, after those in `acc`.
pub open spec fn variants_from(lines: Lines, i: int, acc: Seq<VariantView>) -> (Seq<
    VariantView,
>, int)
    decreases lines.len() - i,
{
    match variant_at(lines, i) {
        Some((v, j)) => variants_from(lines, j, acc.push(v)),
        None => (acc, i),
    }
}

/// One or more variants.
pub open spec fn variants_at(lines: Lines, i: int) -> Option<(Seq<VariantView>, int)> {
    let r = variants_from(lines, i, Seq::empty());
    if r.0.len() > 0 {
        Some(r)
    } else {
        None
    }
}

/// A parameter: a description and a head line, and, where its type is
/// `enum`, the variants on the lines that follow.
pub open spec fn param_at(lines: Lines, i: int) -> Option<(ParamView, int)> {
    let j = comments_end(lines, i);
    if 0 <= i <= j < lines.len() && param_head(lines[j]) is Some {
        let h = param_head(lines[j])->0;
        if h.ty is Enum {
            match variants_at(lines, j + 1) {
                Some((variants, k)) => Some(
                    (
                        ParamView {
                            description: comments(lines, i),
                            experimental: h.experimental,
                            deprecated: h.deprecated,
                            optional: h.optional,
                            ty: TypeView::Enum(variants),
                            name: h.name,
                        },
                        k,
                    ),
                ),
                None => None,
            }
        } else {
            Some(
                (
                    ParamView {
                        description: comments(lines, i),
                        experimental: h.experimental,
                        deprecated: h.deprecated,
                        optional: h.optional,
                        ty: h.ty,
                        name: h.name,
                    },
                    j + 1,
                ),
            )
        }
    } else {
        None
    }
}

/// As many parameters as follow one another from `i`, after those in `acc`.
pub open spec fn params_from(lines: Lines, i: int, acc: Seq<ParamView>) -> (Seq<ParamView>, int)
    decreases lines.len() - i,
{
    match param_at(lines, i) {
        Some((p, j)) => {
            proof {
                lemma_param_end(lines, i);
            }
            params_from(lines, j, acc.push(p))
        },
        None => (acc, i),
    }
}

/// One or more parameters.
pub open spec fn params_at(lines: Lines, i: int) -> Option<(Seq<ParamView>, int)> {
    let r = params_from(lines, i, Seq::empty());
    if r.0.len() > 0 {
        Some(r)
    } else {
        None
    }
}

/// A block of parameters: a line with the keyword `kw`, then one or more parameters.
pub open spec fn block_at(lines: Lines, i: int, kw: Seq<char>) -> Option<(Seq<ParamView>, int)> {
    if 0 <= i < lines.len() && is_keyword_line(lines[i], kw) {
        params_at(lines, i + 1)
    } else {
        None
    }
}

/// A block of parameters that may be absent: then it holds nothing and takes no line.
pub open spec fn opt_block_at(lines: Lines, i: int, kw: Seq<char>) -> (Seq<ParamView>, int) {
    match block_at(lines, i, kw) {
        Some(r) => r,
        None => (Seq::empty(), i),
    }
}

/// What a type definition adds: `enum` and its variants, or `properties`
/// and its parameters.
pub open spec fn item_at(lines: Lines, i: int) -> Option<(ItemView, int)> {
    if 0 <= i < lines.len() && is_keyword_line(lines[i], "enum"@) {
        match variants_at(lines, i + 1) {
            Some((variants, k)) => Some((ItemView::Enum(variants), k)),
            None => None,
        }
    } else {
        match block_at(lines, i, "properties"@) {
            Some((params, k)) => Some((ItemView::Properties(params), k)),
            None => None,
        }
    }
}

/// A type definition: a description, a head line, and what it adds, if anything.
pub open spec fn type_def_at(lines: Lines, i: int) -> Option<(TypeDefView, int)> {
    let j = comments_end(lines, i);
    if 0 <= i <= j < lines.len() && type_head(lines[j]) is Some {
        let h = type_head(lines[j])->0;
        let item = item_at(lines, j + 1);
        Some(
            (
                TypeDefView {
                    description: comments(lines, i),
                    experimental: h.experimental,
                    deprecated: h.deprecated,
                    id: h.id,
                    extends: h.extends,
                    item: match item {
                        Some((it, _)) => Some(it),
                        None => None,
                    },
                },
                match item {
                    Some((_, k)) => k,
                    None => j + 1,
                },
            ),
        )
    } else {
        None
    }
}

/// A redirect: a description, then a line `redirect <domain>`.
pub open spec fn redirect_at(lines: Lines, i: int) -> Option<(RedirectView, int)> {
    let j = comments_end(lines, i);
    if 0 <= i <= j < lines.len() && named_line(lines[j], "redirect"@) is Some {
        Some(
            (
                RedirectView {
                    description: comments(lines, i),
                    to: named_line(lines[j], "redirect"@)->0,
                },
                j + 1,
            ),
        )
    } else {
        None
    }
}

/// A command: a description and a head line; then, each of them optional, a
/// redirect, the parameters, any empty lines, and the returns.
pub open spec fn command_at(lines: Lines, i: int) -> Option<(CommandView, int)> {
    let j = comments_end(lines, i);
    if 0 <= i <= j < lines.len() && member_head(lines[j], "command"@) is Some {
        let h = member_head(lines[j], "command"@)->0;
        let redirect = redirect_at(lines, j + 1);
        let a = match redirect {
            Some((_, a)) => a,
            None => j + 1,
        };
        let parameters = opt_block_at(lines, a, "parameters"@);
        let b = blanks_end(lines, parameters.1);
        let results = opt_block_at(lines, b, "returns"@);
        Some(
            (
                CommandView {
                    description: comments(lines, i),
                    experimental: h.experimental,
                    deprecated: h.deprecated,
                    name: h.name,
                    redirect: match redirect {
                        Some((r, _)) => Some(r),
                        None => None,
                    },
                    parameters: parameters.0,
                    returns: results.0,
                },
                results.1,
            ),
        )
    } else {
        None
    }
}

/// An event: a description and a head line, then the parameters, if any.
pub open spec fn event_at(lines: Lines, i: int) -> Option<(EventView, int)> {
    let j = comments_end(lines, i);
    if 0 <= i <= j < lines.len() && member_head(lines[j], "event"@) is Some {
        let h = member_head(lines[j], "event"@)->0;
        let parameters = opt_block_at(lines, j + 1, "parameters"@);
        Some(
            (
                EventView {
                    description: comments(lines, i),
                    experimental: h.experimental,
                    deprecated: h.deprecated,
                    name: h.name,
                    parameters: parameters.0,
                },
                parameters.1,
            ),
        )
    } else {
        None
    }
}

/// As many `depends on` lines as follow one another from `i`, after those in `acc`.
pub open spec fn depends_from(lines: Lines, i: int, acc: Lines) -> (Lines, int)
    decreases lines.len() - i,
{
    if 0 <= i < lines.len() && named_line(lines[i], "depends on"@) is Some {
        depends_from(lines, i + 1, acc.push(named_line(lines[i], "depends on"@)->0))
    } else {
        (acc, i)
    }
}

/// As many type definitions as follow from `i`, each after any empty lines,
/// after those in `acc`.
pub open spec fn types_from(lines: Lines, i: int, acc: Seq<TypeDefView>) -> (Seq<
    TypeDefView,
>, int)
    decreases lines.len() - i,
{
    match type_def_at(lines, blanks_end(lines, i)) {
        Some((t, j)) => {
            proof {
                lemma_blanks_from(lines, i);
                lemma_type_def_end(lines, blanks_end(lines, i));
            }
            types_from(lines, j, acc.push(t))
        },
        None => (acc, i),
    }
}

/// As many commands as follow from `i`, each after any empty lines, after
/// those in `acc`.
pub open spec fn commands_from(lines: Lines, i: int, acc: Seq<CommandView>) -> (Seq<
    CommandView,
>, int)
    decreases lines.len() - i,
{
    match command_at(lines, blanks_end(lines, i)) {
        Some((c, j)) => {
            proof {
                lemma_blanks_from(lines, i);
                lemma_command_end(lines, blanks_end(lines, i));
            }
            commands_from(lines, j, acc.push(c))
        },
        None => (acc, i),
    }
}

/// As many events as follow from `i`, each after any empty lines, after
/// those in `acc`.
pub open spec fn events_from(lines: Lines, i: int, acc: Seq<EventView>) -> (Seq<EventView>, int)
    decreases lines.len() - i,
{
    match event_at(lines, blanks_end(lines, i)) {
        Some((e, j)) => {
            proof {
                lemma_blanks_from(lines, i);
                lemma_event_end(lines, blanks_end(lines, i));
            }
            events_from(lines, j, acc.push(e))
        },
        None => (acc, i),
    }
}

/// A domain: a description and a head line, the `depends on` lines, then
/// the type definitions, the commands and the events, in that order.
pub open spec fn domain_at(lines: Lines, i: int) -> Option<(DomainView, int)> {
    let j = comments_end(lines, i);
    if 0 <= i <= j < lines.len() && domain_head(lines[j]) is Some {
        let h = domain_head(lines[j])->0;
        let dependencies = depends_from(lines, j + 1, Seq::empty());
        let types = types_from(lines, dependencies.1, Seq::empty());
        let commands = commands_from(lines, types.1, Seq::empty());
        let events = events_from(lines, commands.1, Seq::empty());
        Some(
            (
                DomainView {
                    description: comments(lines, i),
                    experimental: h.experimental,
                    deprecated: h.deprecated,
                    name: h.name,
                    dependencies: dependencies.0,
                    types: types.0,
                    commands: commands.0,
                    events: events.0,
                },
                events.1,
            ),
        )
    } else {
        None
    }
}

/// As many domains as follow from `i`, each after any empty lines, after
/// those in `acc`.
pub open spec fn domains_from(lines: Lines, i: int, acc: Seq<DomainView>) -> (Seq<
    DomainView,
>, int)
    decreases lines.len() - i,
{
    match domain_at(lines, blanks_end(lines, i)) {
        Some((d, j)) => {
            proof {
                lemma_blanks_from(lines, i);
                lemma_domain_end(lines, blanks_end(lines, i));
            }
            domains_from(lines, j, acc.push(d))
        },
        None => (acc, i),
    }
}

/// How many lines of a version block match from `i`: the line `version`,
/// the line `major <digits>`, the line `minor <digits>`.
pub open spec fn version_matched(lines: Lines, i: int) -> int {
    if !(0 <= i < lines.len() && lines[i] == "version"@) {
        0
    } else if !(i + 1 < lines.len() && number_line(lines[i + 1], "major"@) is Some) {
        1
    } else if !(i + 2 < lines.len() && number_line(lines[i + 2], "minor"@) is Some) {
        2
    } else {
        3
    }
}

/// The version block at `i`, which takes three lines.
pub open spec fn version_at(lines: Lines, i: int) -> Option<VersionView> {
    if version_matched(lines, i) == 3 {
        Some(
            VersionView {
                major: number_line(lines[i + 1], "major"@)->0,
                minor: number_line(lines[i + 2], "minor"@)->0,
            },
        )
    } else {
        None
    }
}

/// A construct that a document must hold.
#[derive(Clone, Copy, Debug, PartialEq, Eq, Structural)]
pub enum Construct {
    /// The version block.
    Version,
    /// The first domain.
    Domain,
}

/// What reading a whole document from its lines gives.
pub enum Outcome {
    /// The document, and the index of the first line that is not part of it.
    Read(ProtocolView, int),
    /// The line that does not fit, and the construct that was expected there.
    Stuck(int, Construct),
}

/// A document: a description, any empty lines, the version block, then one
/// or more domains, each after any empty lines.
pub open spec fn protocol_at(lines: Lines) -> Outcome {
    let a = comments_end(lines, 0);
    let b = blanks_end(lines, a);
    match version_at(lines, b) {
        None => Outcome::Stuck(b + version_matched(lines, b), Construct::Version),
        Some(version) => {
            let domains = domains_from(lines, b + 3, Seq::empty());
            if domains.0.len() > 0 {
                Outcome::Read(
                    ProtocolView { description: comments(lines, 0), version, domains: domains.0 },
                    domains.1,
                )
            } else {
                Outcome::Stuck(
                    comments_end(lines, blanks_end(lines, b + 3)),
                    Construct::Domain,
                )
            }
        },
    }
}

/// A run of empty lines does not end before its start.
pub proof fn lemma_blanks_from(lines: Lines, i: int)
    ensures
        i <= blanks_end(lines, i),
        i <= lines.len() ==> blanks_end(lines, i) <= lines.len(),
    decreases lines.len() - i,
{
    if 0 <= i < lines.len() && lines[i].len() == 0 {
        lemma_blanks_from(lines, i + 1);
    }
}

/// Variants end at or after their start, within the lines.
pub proof fn lemma_variants_end(lines: Lines, i: int, acc: Seq<VariantView>)
    requires
        0 <= i <= lines.len(),
    ensures
        i <= variants_from(lines, i, acc).1 <= lines.len(),
    decreases lines.len() - i,
{
    match variant_at(lines, i) {
        Some((v, j)) => {
            lemma_variants_end(lines, j, acc.push(v));
        },
        None => {},
    }
}

/// A parameter ends after its start, within the lines.
pub proof fn lemma_param_end(lines: Lines, i: int)
    requires
        param_at(lines, i) is Some,
    ensures
        i < param_at(lines, i).unwrap().1 <= lines.len(),
{
    lemma_variants_end(lines, comments_end(lines, i) + 1, Seq::empty());
}

/// Parameters end at or after their start, within the lines.
pub proof fn lemma_params_end(lines: Lines, i: int, acc: Seq<ParamView>)
    requires
        0 <= i <= lines.len(),
    ensures
        i <= params_from(lines, i, acc).1 <= lines.len(),
    decreases lines.len() - i,
{
    match param_at(lines, i) {
        Some((p, j)) => {
            lemma_param_end(lines, i);
            lemma_params_end(lines, j, acc.push(p));
        },
        None => {},
    }
}

/// A block of parameters that may be absent ends at or after its start,
/// within the lines.
pub proof fn lemma_block_end_at(lines: Lines, i: int, kw: Seq<char>)
    requires
        0 <= i <= lines.len(),
    ensures
        i <= opt_block_at(lines, i, kw).1 <= lines.len(),
        block_at(lines, i, kw) is Some ==> i < block_at(lines, i, kw).unwrap().1 <= lines.len(),
{
    if i < lines.len() {
        lemma_params_end(lines, i + 1, Seq::empty());
    }
}

/// A type definition ends after its start, within the lines.
pub proof fn lemma_type_def_end(lines: Lines, i: int)
    requires
        type_def_at(lines, i) is Some,
    ensures
        i < type_def_at(lines, i).unwrap().1 <= lines.len(),
{
    let j = comments_end(lines, i);
    if j + 2 <= lines.len() {
        lemma_variants_end(lines, j + 2, Seq::empty());
    }
    lemma_block_end_at(lines, j + 1, "properties"@);
}

/// A command ends after its start, within the lines.
pub proof fn lemma_command_end(lines: Lines, i: int)
    requires
        command_at(lines, i) is Some,
    ensures
        i < command_at(lines, i).unwrap().1 <= lines.len(),
{
    let j = comments_end(lines, i);
    let a = match redirect_at(lines, j + 1) {
        Some((_, a)) => a,
        None => j + 1,
    };
    lemma_block_end_at(lines, a, "parameters"@);
    let b = opt_block_at(lines, a, "parameters"@).1;
    lemma_blanks_from(lines, b);
    lemma_block_end_at(lines, blanks_end(lines, b), "returns"@);
}

/// An event ends after its start, within the lines.
pub proof fn lemma_event_end(lines: Lines, i: int)
    requires
        event_at(lines, i) is Some,
    ensures
        i < event_at(lines, i).unwrap().1 <= lines.len(),
{
    lemma_block_end_at(lines, comments_end(lines, i) + 1, "parameters"@);
}

/// The `depends on` lines end at or after their start, within the lines.
pub proof fn lemma_depends_end(lines: Lines, i: int, acc: Lines)
    requires
        0 <= i <= lines.len(),
    ensures
        i <= depends_from(lines, i, acc).1 <= lines.len(),
    decreases lines.len() - i,
{
    if i < lines.len() && named_line(lines[i], "depends on"@) is Some {
        lemma_depends_end(lines, i + 1, acc.push(named_line(lines[i], "depends on"@)->0));
    }
}

/// Type definitions end at or after their start, within the lines.
pub proof fn lemma_types_end(lines: Lines, i: int, acc: Seq<TypeDefView>)
    requires
        0 <= i <= lines.len(),
    ensures
        i <= types_from(lines, i, acc).1 <= lines.len(),
    decreases lines.len() - i,
{
    lemma_blanks_from(lines, i);
    match type_def_at(lines, blanks_end(lines, i)) {
        Some((t, j)) => {
            lemma_type_def_end(lines, blanks_end(lines, i));
            lemma_types_end(lines, j, acc.push(t));
        },
        None => {},
    }
}

/// Commands end at or after their start, within the lines.
pub proof fn lemma_commands_end(lines: Lines, i: int, acc: Seq<CommandView>)
    requires
        0 <= i <= lines.len(),
    ensures
        i <= commands_from(lines, i, acc).1 <= lines.len(),
    decreases lines.len() - i,
{
    lemma_blanks_from(lines, i);
    match command_at(lines, blanks_end(lines, i)) {
        Some((c, j)) => {
            lemma_command_end(lines, blanks_end(lines, i));
            lemma_commands_end(lines, j, acc.push(c));
        },
        None => {},
    }
}

/// Events end at or after their start, within the lines.
pub proof fn lemma_events_end(lines: Lines, i: int, acc: Seq<EventView>)
    requires
        0 <= i <= lines.len(),
    ensures
        i <= events_from(lines, i, acc).1 <= lines.len(),
    decreases lines.len() - i,
{
    lemma_blanks_from(lines, i);
    match event_at(lines, blanks_end(lines, i)) {
        Some((e, j)) => {
            lemma_event_end(lines, blanks_end(lines, i));
            lemma_events_end(lines, j, acc.push(e));
        },
        None => {},
    }
}

/// A domain ends after its start, within the lines.
pub proof fn lemma_domain_end(lines: Lines, i: int)
    requires
        domain_at(lines, i) is Some,
    ensures
        i < domain_at(lines, i).unwrap().1 <= lines.len(),
{
    let j = comments_end(lines, i);
    lemma_depends_end(lines, j + 1, Seq::empty());
    let a = depends_from(lines, j + 1, Seq::empty()).1;
    lemma_types_end(lines, a, Seq::empty());
    let b = types_from(lines, a, Seq::empty()).1;
    lemma_commands_end(lines, b, Seq::empty());
    let c = commands_from(lines, b, Seq::empty()).1;
    lemma_events_end(lines, c, Seq::empty());
}

} // verus!
