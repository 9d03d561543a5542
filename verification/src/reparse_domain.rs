//! Reading what was written, for domains and whole documents: the members
//! of a domain are read one after another, and each list stops where the
//! next begins.

use crate::canon::{
    head_line, lemma_body, lemma_flag_range, lemma_initials, lemma_not_at, lemma_show_comment,
    lemma_show_member, lemma_show_named, lemma_starts_first, padded, spaceless, wf_domain_head,
    wf_member_head, wf_named,
};
use crate::grammar::{
    blanks_end, command_at, commands_from, comments, comments_end, depends_from, domain_at,
    domains_from, event_at, events_from, lemma_blanks_end, type_def_at, types_from,
};
use crate::line::{
    after_flag, domain_head, indent_end, is_comment, is_indented, is_keyword_line, member_head,
    type_head, HeadView,
};
use crate::model::{CommandView, DomainView, EventView, Lines, TypeDefView};
use crate::reindent::body;
use crate::reparse::{
    command_end, ends_block, enum_before_returns, holds, lemma_command, lemma_desc, lemma_event,
    lemma_first_line, lemma_flat_map_first, lemma_holds_bounds, lemma_holds_indented,
    lemma_holds_one, lemma_holds_pads, lemma_holds_push, lemma_holds_split, lemma_keywords,
    lemma_padded_deeper, lemma_shows_pads, lemma_shows_push, lemma_shows_split, lemma_type_def,
    no_returns_at, opt_redirect_lines, shows,
};
use crate::text::{
    command_lines, command_part, comment_lines, depends_part, domain_lines, domain_part,
    event_lines, event_part, flat_map, head_text, indented_lines, opt_block_lines, type_def_lines,
    type_def_part,
};
use crate::wellformed::{
    wf_command, wf_commands, wf_depends, wf_desc, wf_domain, wf_domains, wf_event, wf_events,
    wf_type_def, wf_type_defs,
};
use vstd::prelude::*;

verus! {

/// A comment line is not the line of a keyword.
pub proof fn lemma_comment_not_keyword(l: Seq<char>, kw: Seq<char>)
    requires
        is_comment(l),
        kw.len() > 0,
        kw[0] != '#',
    ensures
        !is_keyword_line(l, kw),
{
    lemma_body(l);
    assert(body(l)[0] == l[indent_end(l) + 0]);
}

/// The head line of a command or an event is not the line of a keyword
/// without a space.
pub proof fn lemma_member_not_keyword(l: Seq<char>, kw: Seq<char>, other: Seq<char>)
    requires
        member_head(l, kw) is Some,
        spaceless(other),
    ensures
        !is_keyword_line(l, other),
{
    lemma_body(l);
    let i = indent_end(l);
    let a = after_flag(l, i, "experimental"@);
    lemma_flag_range(l, i, "experimental"@);
    let b = after_flag(l, a, "deprecated"@);
    lemma_flag_range(l, a, "deprecated"@);
    let k = b + kw.len();
    assert(body(l)[k - i] == l[i + (k - i)]);
}

/// A line holds the head of a command or an event, or the head of a type
/// definition, not both; and it holds the head of one of `command` and
/// `event` only.
pub proof fn lemma_member_only(l: Seq<char>, kw: Seq<char>)
    requires
        member_head(l, kw) is Some,
        kw == "command"@ || kw == "event"@,
    ensures
        type_head(l) is None,
        kw == "command"@ ==> member_head(l, "event"@) is None,
        kw == "event"@ ==> member_head(l, "command"@) is None,
{
    lemma_initials();
    lemma_body(l);
    let i = indent_end(l);
    let a = after_flag(l, i, "experimental"@);
    lemma_flag_range(l, i, "experimental"@);
    let b = after_flag(l, a, "deprecated"@);
    lemma_flag_range(l, a, "deprecated"@);
    lemma_starts_first(l, b, kw);
    lemma_not_at(l, b, "optional"@);
    lemma_not_at(l, b, "type"@);
    if kw == "command"@ {
        lemma_not_at(l, b, "event"@);
    } else {
        lemma_not_at(l, b, "command"@);
    }
}

/// No member of a domain begins at line `j`, and no block of returns.
pub open spec fn stops_members(lines: Lines, j: int) -> bool {
    &&& type_def_at(lines, j) is None
    &&& command_at(lines, j) is None
    &&& event_at(lines, j) is None
    &&& no_returns_at(lines, j)
}

/// A line that is not indented begins no member of a domain and no block.
pub proof fn lemma_unindented(l: Seq<char>)
    requires
        !is_indented(l),
    ensures
        type_head(l) is None,
        member_head(l, "command"@) is None,
        member_head(l, "event"@) is None,
        !is_keyword_line(l, "returns"@),
{
}

/// Where the text ends, no member of a domain begins.
pub proof fn lemma_end_stops(lines: Lines, j: int)
    requires
        j >= lines.len(),
    ensures
        stops_members(lines, j),
        domain_at(lines, j) is None,
{
    if 0 <= j {
        assert(comments_end(lines, j) == j);
    }
}

/// Where a domain was written, no member of a domain begins, and the
/// line is not empty.
pub proof fn lemma_domain_start(lines: Lines, j: int, d: Lines, h: HeadView)
    requires
        wf_desc(d),
        wf_domain_head(h),
        holds(lines, j, comment_lines(d).push(head_line(h, "domain"@))),
    ensures
        stops_members(lines, j),
        0 <= j < lines.len(),
        lines[j].len() > 0,
        blanks_end(lines, j) == j,
        comments_end(lines, j) == j + d.len(),
        comments(lines, j) == d,
        domain_head(lines[j + d.len()]) == Some(h),
{
    reveal(wf_domain_head);
    lemma_keywords();
    let text = head_line(h, "domain"@);
    lemma_holds_push(lines, j, comment_lines(d), text);
    lemma_holds_pads(lines, j, comment_lines(d));
    let k = j + d.len();
    lemma_desc(lines, j, d);
    assert(indent_end(lines[k]) == 0);
    lemma_unindented(lines[k]);
    if d.len() > 0 {
        reveal(holds);
        assert(lines[j + 0] == comment_lines(d)[0]);
        let l = lines[j];
        assert(l.subrange(0, l.len() as int) =~= l);
        lemma_show_comment(l, d[0]);
        lemma_comment_not_keyword(l, "returns"@);
    }
}

/// Where a command or an event was written, the first line is not empty
/// and opens no block of returns, and no type definition is read; nor is
/// a command read where an event was written.
pub proof fn lemma_member_start(lines: Lines, j: int, d: Lines, h: HeadView, kw: Seq<char>)
    requires
        wf_desc(d),
        wf_member_head(h, kw),
        kw == "command"@ || kw == "event"@,
        shows(lines, j, comment_lines(d).push(head_line(h, kw))),
    ensures
        0 <= j < lines.len(),
        lines[j].len() > 0,
        blanks_end(lines, j) == j,
        no_returns_at(lines, j),
        type_def_at(lines, j) is None,
        kw == "event"@ ==> command_at(lines, j) is None,
{
    lemma_keywords();
    let text = head_line(h, kw);
    lemma_first_line(lines, j, d, text);
    lemma_shows_push(lines, j, comment_lines(d), text);
    lemma_shows_pads(lines, j, comment_lines(d));
    let k = j + d.len();
    lemma_show_member(lines[k], kw, h);
    lemma_desc(lines, j, d);
    lemma_member_only(lines[k], kw);
    lemma_member_not_keyword(lines[k], kw, "returns"@);
    if d.len() > 0 {
        reveal(shows);
        assert(padded(lines[j + 0], comment_lines(d)[0]));
        lemma_show_comment(lines[j], d[0]);
        lemma_comment_not_keyword(lines[j], "returns"@);
    }
}

/// Lines that hold the part of a member of a domain show the lines of
/// the member, and an empty line after them.
pub proof fn lemma_part(lines: Lines, s: int, member: Lines)
    requires
        holds(lines, s, indented_lines(member).push(Seq::empty())),
    ensures
        shows(lines, s, member),
        0 <= s,
        s + member.len() < lines.len(),
        lines[s + member.len()].len() == 0,
        ends_block(lines, s + member.len()),
        blanks_end(lines, s + member.len()) == blanks_end(lines, s + member.len() + 1),
{
    lemma_holds_push(lines, s, indented_lines(member), Seq::empty());
    lemma_holds_indented(lines, s, member);
}

/// The end of a run of empty lines is the end of the run that begins there.
pub proof fn lemma_blanks_twice(lines: Lines, i: int)
    requires
        0 <= i <= lines.len(),
    ensures
        blanks_end(lines, blanks_end(lines, i)) == blanks_end(lines, i),
{
    lemma_blanks_end(lines, i);
}

/// The `depends on` lines that were written are read as they were, where
/// an empty line follows them.
pub proof fn lemma_depends(lines: Lines, i: int, names: Lines, acc: Lines)
    requires
        wf_depends(names),
        holds(lines, i, flat_map(names, depends_part())),
        ends_block(lines, i + flat_map(names, depends_part()).len()),
    ensures
        depends_from(lines, i, acc) == (acc + names, i + flat_map(names, depends_part()).len()),
        flat_map(names, depends_part()).len() == names.len(),
    decreases names.len(),
{
    lemma_keywords();
    lemma_holds_bounds(lines, i, flat_map(names, depends_part()));
    if names.len() == 0 {
        assert(acc + names =~= acc);
        if i < lines.len() {
            assert(indent_end(lines[i]) == 0);
        }
    } else {
        let name = names[0];
        let rest = names.drop_first();
        lemma_flat_map_first(names, depends_part());
        let line = "  depends on "@ + name;
        lemma_holds_split(lines, i, seq![line], flat_map(rest, depends_part()));
        lemma_holds_one(lines, i, line);
        let l = lines[i];
        assert(l.subrange(0, l.len() as int) =~= l);
        assert(l =~= "  "@ + ("depends on"@.push(' ') + name));
        lemma_padded_deeper(l, "depends on"@.push(' ') + name);
        lemma_show_named(l, "depends on"@, name);
        assert forall|k: int| 0 <= k < rest.len() implies wf_named(
            "depends on"@,
            #[trigger] rest[k],
        ) by {
            assert(rest[k] == names[k + 1]);
        }
        lemma_depends(lines, i + 1, rest, acc.push(name));
        assert(acc.push(name) + rest =~= acc + names);
    }
}

/// The type definitions that were written are read as they were, where
/// none follows them.
#[verifier::rlimit(40)]
pub proof fn lemma_types(lines: Lines, i: int, s: int, ts: Seq<TypeDefView>, acc: Seq<TypeDefView>)
    requires
        wf_type_defs(ts),
        0 <= i <= lines.len(),
        blanks_end(lines, i) == blanks_end(lines, s),
        holds(lines, s, flat_map(ts, type_def_part())),
        type_def_at(lines, blanks_end(lines, s + flat_map(ts, type_def_part()).len())) is None,
    ensures
        types_from(lines, i, acc).0 == acc + ts,
        blanks_end(lines, types_from(lines, i, acc).1) == blanks_end(
            lines,
            s + flat_map(ts, type_def_part()).len(),
        ),
        i <= types_from(lines, i, acc).1 <= lines.len(),
    decreases ts.len(),
{
    if ts.len() == 0 {
        assert(acc + ts =~= acc);
    } else {
        let t = ts[0];
        let rest = ts.drop_first();
        lemma_flat_map_first(ts, type_def_part());
        let first = indented_lines(type_def_lines(t)).push(Seq::empty());
        lemma_holds_split(lines, s, first, flat_map(rest, type_def_part()));
        lemma_part(lines, s, type_def_lines(t));
        lemma_type_def(lines, s, t);
        lemma_blanks_end(lines, i);
        let j = s + type_def_lines(t).len();
        assert forall|k: int| 0 <= k < rest.len() implies wf_type_def(#[trigger] rest[k]) by {
            assert(rest[k] == ts[k + 1]);
        }
        lemma_types(lines, j, j + 1, rest, acc.push(t));
        assert(acc.push(t) + rest =~= acc + ts);
    }
}

/// The events that were written are read as they were, where none
/// follows them.
#[verifier::rlimit(40)]
pub proof fn lemma_events(lines: Lines, i: int, s: int, es: Seq<EventView>, acc: Seq<EventView>)
    requires
        wf_events(es),
        0 <= i <= lines.len(),
        blanks_end(lines, i) == blanks_end(lines, s),
        holds(lines, s, flat_map(es, event_part())),
        event_at(lines, blanks_end(lines, s + flat_map(es, event_part()).len())) is None,
    ensures
        events_from(lines, i, acc).0 == acc + es,
        blanks_end(lines, events_from(lines, i, acc).1) == blanks_end(
            lines,
            s + flat_map(es, event_part()).len(),
        ),
        i <= events_from(lines, i, acc).1 <= lines.len(),
    decreases es.len(),
{
    if es.len() == 0 {
        assert(acc + es =~= acc);
    } else {
        let e = es[0];
        let rest = es.drop_first();
        lemma_flat_map_first(es, event_part());
        let first = indented_lines(event_lines(e)).push(Seq::empty());
        lemma_holds_split(lines, s, first, flat_map(rest, event_part()));
        lemma_part(lines, s, event_lines(e));
        lemma_event(lines, s, e);
        lemma_blanks_end(lines, i);
        let j = s + event_lines(e).len();
        assert forall|k: int| 0 <= k < rest.len() implies wf_event(#[trigger] rest[k]) by {
            assert(rest[k] == es[k + 1]);
        }
        lemma_events(lines, j, j + 1, rest, acc.push(e));
        assert(acc.push(e) + rest =~= acc + es);
    }
}

/// No command of the sequence has returns that follow an enumeration.
pub open spec fn writable_commands(cs: Seq<CommandView>) -> bool {
    forall|k: int| 0 <= k < cs.len() ==> !enum_before_returns(#[trigger] cs[k])
}

/// Lines that show a command show its description and its head line.
pub proof fn lemma_command_top(lines: Lines, s: int, c: CommandView)
    requires
        shows(lines, s, command_lines(c)),
    ensures
        shows(
            lines,
            s,
            comment_lines(c.description).push(
                head_line(
                    HeadView {
                        experimental: c.experimental,
                        deprecated: c.deprecated,
                        name: c.name,
                    },
                    "command"@,
                ),
            ),
        ),
{
    let text = head_text(c.experimental, c.deprecated, "command"@, c.name);
    let head = comment_lines(c.description).push(text);
    let r = opt_redirect_lines(c.redirect);
    let p = opt_block_lines("parameters"@, c.parameters);
    let rs = opt_block_lines("returns"@, c.returns);
    assert(command_lines(c) == head + r + p + rs);
    lemma_shows_split(lines, s, head + r + p, rs);
    lemma_shows_split(lines, s, head + r, p);
    lemma_shows_split(lines, s, head, r);
}

/// Lines that show an event show its description and its head line.
pub proof fn lemma_event_top(lines: Lines, s: int, e: EventView)
    requires
        shows(lines, s, event_lines(e)),
    ensures
        shows(
            lines,
            s,
            comment_lines(e.description).push(
                head_line(
                    HeadView {
                        experimental: e.experimental,
                        deprecated: e.deprecated,
                        name: e.name,
                    },
                    "event"@,
                ),
            ),
        ),
{
    let text = head_text(e.experimental, e.deprecated, "event"@, e.name);
    let head = comment_lines(e.description).push(text);
    lemma_shows_split(lines, s, head, opt_block_lines("parameters"@, e.parameters));
}

/// Where the commands of a domain were written, the first line is not
/// empty and opens no block of returns, and no type definition is read.
pub proof fn lemma_commands_start(lines: Lines, s: int, cs: Seq<CommandView>)
    requires
        cs.len() > 0,
        wf_commands(cs),
        holds(lines, s, flat_map(cs, command_part())),
    ensures
        blanks_end(lines, s) == s,
        no_returns_at(lines, s),
        type_def_at(lines, s) is None,
{
    let c = cs[0];
    lemma_flat_map_first(cs, command_part());
    let first = indented_lines(command_lines(c)).push(Seq::empty());
    lemma_holds_split(lines, s, first, flat_map(cs.drop_first(), command_part()));
    lemma_part(lines, s, command_lines(c));
    lemma_command_top(lines, s, c);
    lemma_member_start(
        lines,
        s,
        c.description,
        HeadView { experimental: c.experimental, deprecated: c.deprecated, name: c.name },
        "command"@,
    );
}

/// Where the events of a domain were written, the first line is not
/// empty and opens no block of returns, and neither a type definition nor
/// a command is read.
pub proof fn lemma_events_start(lines: Lines, s: int, es: Seq<EventView>)
    requires
        es.len() > 0,
        wf_events(es),
        holds(lines, s, flat_map(es, event_part())),
    ensures
        blanks_end(lines, s) == s,
        no_returns_at(lines, s),
        type_def_at(lines, s) is None,
        command_at(lines, s) is None,
{
    let e = es[0];
    lemma_flat_map_first(es, event_part());
    let first = indented_lines(event_lines(e)).push(Seq::empty());
    lemma_holds_split(lines, s, first, flat_map(es.drop_first(), event_part()));
    lemma_part(lines, s, event_lines(e));
    lemma_event_top(lines, s, e);
    lemma_member_start(
        lines,
        s,
        e.description,
        HeadView { experimental: e.experimental, deprecated: e.deprecated, name: e.name },
        "event"@,
    );
}

/// The commands that were written are read as they were, where none
/// follows them and no block of returns, unless the returns of one of
/// them follow an enumeration.
#[verifier::rlimit(40)]
pub proof fn lemma_commands(
    lines: Lines,
    i: int,
    s: int,
    cs: Seq<CommandView>,
    acc: Seq<CommandView>,
)
    requires
        wf_commands(cs),
        writable_commands(cs),
        0 <= i <= lines.len(),
        blanks_end(lines, i) == blanks_end(lines, s),
        holds(lines, s, flat_map(cs, command_part())),
        command_at(lines, blanks_end(lines, s + flat_map(cs, command_part()).len())) is None,
        no_returns_at(lines, blanks_end(lines, s + flat_map(cs, command_part()).len())),
    ensures
        commands_from(lines, i, acc).0 == acc + cs,
        blanks_end(lines, commands_from(lines, i, acc).1) == blanks_end(
            lines,
            s + flat_map(cs, command_part()).len(),
        ),
        i <= commands_from(lines, i, acc).1 <= lines.len(),
    decreases cs.len(),
{
    if cs.len() == 0 {
        assert(acc + cs =~= acc);
    } else {
        let c = cs[0];
        let rest = cs.drop_first();
        lemma_flat_map_first(cs, command_part());
        let first = indented_lines(command_lines(c)).push(Seq::empty());
        lemma_holds_split(lines, s, first, flat_map(rest, command_part()));
        lemma_part(lines, s, command_lines(c));
        let j = s + command_lines(c).len();
        assert forall|k: int| 0 <= k < rest.len() implies wf_command(#[trigger] rest[k])
            && !enum_before_returns(rest[k]) by {
            assert(rest[k] == cs[k + 1]);
        }
        if rest.len() > 0 {
            lemma_commands_start(lines, j + 1, rest);
        }
        lemma_command(lines, s, c);
        lemma_blanks_end(lines, i);
        lemma_blanks_twice(lines, j);
        let next = command_end(lines, s, c);
        lemma_blanks_end(lines, j);
        lemma_commands(lines, next, j + 1, rest, acc.push(c));
        assert(acc.push(c) + rest =~= acc + cs);
    }
}

/// What the head line of a domain says of it.
pub open spec fn domain_head_of(d: DomainView) -> HeadView {
    HeadView { experimental: d.experimental, deprecated: d.deprecated, name: d.name }
}

/// The description and the head line of a domain.
pub open spec fn domain_top(d: DomainView) -> Lines {
    comment_lines(d.description).push(head_line(domain_head_of(d), "domain"@))
}

/// The `depends on` lines of a domain, and the empty line after them.
pub open spec fn domain_depends(d: DomainView) -> Lines {
    flat_map(d.dependencies, depends_part()).push(Seq::empty())
}

/// The lines of a domain, part by part.
pub proof fn lemma_domain_parts(lines: Lines, i: int, d: DomainView)
    requires
        holds(lines, i, domain_lines(d)),
    ensures
        ({
            let a = i + domain_top(d).len();
            let t = a + domain_depends(d).len();
            let c = t + flat_map(d.types, type_def_part()).len();
            let e = c + flat_map(d.commands, command_part()).len();
            &&& holds(lines, i, domain_top(d))
            &&& holds(lines, a, domain_depends(d))
            &&& holds(lines, t, flat_map(d.types, type_def_part()))
            &&& holds(lines, c, flat_map(d.commands, command_part()))
            &&& holds(lines, e, flat_map(d.events, event_part()))
            &&& e + flat_map(d.events, event_part()).len() == i + domain_lines(d).len()
            &&& i + domain_lines(d).len() <= lines.len()
            &&& 0 <= i
        }),
{
    let top = domain_top(d);
    let dep = domain_depends(d);
    let ts = flat_map(d.types, type_def_part());
    let cs = flat_map(d.commands, command_part());
    let es = flat_map(d.events, event_part());
    assert(domain_lines(d) == top + dep + ts + cs + es);
    lemma_holds_bounds(lines, i, domain_lines(d));
    lemma_holds_split(lines, i, top + dep + ts + cs, es);
    lemma_holds_split(lines, i, top + dep + ts, cs);
    lemma_holds_split(lines, i, top + dep, ts);
    lemma_holds_split(lines, i, top, dep);
}

/// What follows the type definitions of a domain that was written is no
/// type definition.
pub proof fn lemma_after_types(lines: Lines, i: int, d: DomainView)
    requires
        wf_domain(d),
        holds(lines, i, domain_lines(d)),
        stops_members(lines, blanks_end(lines, i + domain_lines(d).len())),
    ensures
        type_def_at(
            lines,
            blanks_end(
                lines,
                i + domain_top(d).len() + domain_depends(d).len() + flat_map(
                    d.types,
                    type_def_part(),
                ).len(),
            ),
        ) is None,
{
    lemma_domain_parts(lines, i, d);
    let c = i + domain_top(d).len() + domain_depends(d).len() + flat_map(
        d.types,
        type_def_part(),
    ).len();
    if d.commands.len() > 0 {
        lemma_commands_start(lines, c, d.commands);
    } else if d.events.len() > 0 {
        lemma_events_start(lines, c, d.events);
    } else {
    }
}

/// What follows the commands of a domain that was written is no command
/// and no block of returns.
pub proof fn lemma_after_commands(lines: Lines, i: int, d: DomainView)
    requires
        wf_domain(d),
        holds(lines, i, domain_lines(d)),
        stops_members(lines, blanks_end(lines, i + domain_lines(d).len())),
    ensures
        ({
            let e = i + domain_top(d).len() + domain_depends(d).len() + flat_map(
                d.types,
                type_def_part(),
            ).len() + flat_map(d.commands, command_part()).len();
            command_at(lines, blanks_end(lines, e)) is None && no_returns_at(
                lines,
                blanks_end(lines, e),
            )
        }),
{
    lemma_domain_parts(lines, i, d);
    let e = i + domain_top(d).len() + domain_depends(d).len() + flat_map(
        d.types,
        type_def_part(),
    ).len() + flat_map(d.commands, command_part()).len();
    if d.events.len() > 0 {
        lemma_events_start(lines, e, d.events);
    } else {
    }
}

/// A domain that was written is read as it was, where no member of a
/// domain follows it, unless the returns of one of its commands follow an
/// enumeration.
#[verifier::rlimit(40)]
pub proof fn lemma_domain(lines: Lines, i: int, d: DomainView)
    requires
        wf_domain(d),
        writable_commands(d.commands),
        holds(lines, i, domain_lines(d)),
        stops_members(lines, blanks_end(lines, i + domain_lines(d).len())),
    ensures
        domain_at(lines, i) is Some,
        domain_at(lines, i).unwrap().0 == d,
        blanks_end(lines, domain_at(lines, i).unwrap().1) == blanks_end(
            lines,
            i + domain_lines(d).len(),
        ),
        i < domain_at(lines, i).unwrap().1 <= lines.len(),
        blanks_end(lines, i) == i,
{
    lemma_domain_parts(lines, i, d);
    lemma_domain_start(lines, i, d.description, domain_head_of(d));
    let a = i + domain_top(d).len();
    let names = flat_map(d.dependencies, depends_part());
    lemma_holds_push(lines, a, names, Seq::empty());
    lemma_depends(lines, a, d.dependencies, Seq::empty());
    assert(Seq::<Seq<char>>::empty() + d.dependencies =~= d.dependencies);
    let b = a + names.len();
    let t = b + 1;
    lemma_after_types(lines, i, d);
    lemma_types(lines, b, t, d.types, Seq::empty());
    assert(Seq::<TypeDefView>::empty() + d.types =~= d.types);
    let c = t + flat_map(d.types, type_def_part()).len();
    lemma_after_commands(lines, i, d);
    let tc = types_from(lines, b, Seq::empty()).1;
    lemma_commands(lines, tc, c, d.commands, Seq::empty());
    assert(Seq::<CommandView>::empty() + d.commands =~= d.commands);
    let e = c + flat_map(d.commands, command_part()).len();
    let cc = commands_from(lines, tc, Seq::empty()).1;
    lemma_events(lines, cc, e, d.events, Seq::empty());
    assert(Seq::<EventView>::empty() + d.events =~= d.events);
}

/// No command of any of the domains has returns that follow an enumeration.
pub open spec fn writable_domains(ds: Seq<DomainView>) -> bool {
    forall|k: int| 0 <= k < ds.len() ==> writable_commands(#[trigger] ds[k].commands)
}

/// Where the domains that were written up to the end of the text begin,
/// no member of a domain begins.
pub proof fn lemma_domains_stop(lines: Lines, j: int, ds: Seq<DomainView>)
    requires
        wf_domains(ds),
        holds(lines, j, flat_map(ds, domain_part())),
        j + flat_map(ds, domain_part()).len() == lines.len(),
    ensures
        stops_members(lines, blanks_end(lines, j)),
        blanks_end(lines, j) == j,
        ds.len() == 0 ==> j == lines.len(),
{
    if ds.len() > 0 {
        lemma_flat_map_first(ds, domain_part());
        lemma_holds_split(
            lines,
            j,
            domain_lines(ds[0]),
            flat_map(ds.drop_first(), domain_part()),
        );
        lemma_domain_parts(lines, j, ds[0]);
        lemma_domain_start(lines, j, ds[0].description, domain_head_of(ds[0]));
    } else {
        assert(flat_map(ds, domain_part()).len() == 0);
        lemma_end_stops(lines, j);
    }
}

/// The rest of well-formed domains is well-formed.
pub proof fn lemma_domains_rest(ds: Seq<DomainView>)
    requires
        ds.len() > 0,
        wf_domains(ds),
        writable_domains(ds),
    ensures
        wf_domain(ds[0]),
        writable_commands(ds[0].commands),
        wf_domains(ds.drop_first()),
        writable_domains(ds.drop_first()),
{
    let rest = ds.drop_first();
    assert forall|k: int| 0 <= k < rest.len() implies wf_domain(#[trigger] rest[k])
        && writable_commands(rest[k].commands) by {
        assert(rest[k] == ds[k + 1]);
    }
}

/// The domains that were written, up to the end of the text, are read as
/// they were, unless the returns of one of their commands follow an
/// enumeration.
#[verifier::rlimit(40)]
pub proof fn lemma_domains(lines: Lines, i: int, s: int, ds: Seq<DomainView>, acc: Seq<DomainView>)
    requires
        wf_domains(ds),
        writable_domains(ds),
        0 <= i <= lines.len(),
        blanks_end(lines, i) == blanks_end(lines, s),
        holds(lines, s, flat_map(ds, domain_part())),
        s + flat_map(ds, domain_part()).len() == lines.len(),
    ensures
        domains_from(lines, i, acc).0 == acc + ds,
        i <= domains_from(lines, i, acc).1 <= lines.len(),
    decreases ds.len(),
{
    lemma_domains_stop(lines, s, ds);
    if ds.len() == 0 {
        assert(acc + ds =~= acc);
        lemma_end_stops(lines, s);
    } else {
        let d = ds[0];
        let rest = ds.drop_first();
        lemma_domains_rest(ds);
        lemma_flat_map_first(ds, domain_part());
        lemma_holds_split(lines, s, domain_lines(d), flat_map(rest, domain_part()));
        let j = s + domain_lines(d).len();
        lemma_domains_stop(lines, j, rest);
        lemma_domain(lines, s, d);
        lemma_blanks_end(lines, i);
        let next = domain_at(lines, s).unwrap().1;
        lemma_domains(lines, next, j, rest, acc.push(d));
        assert(acc.push(d) + rest =~= acc + ds);
    }
}

} // verus!
