//! What holds of every document that was read from a text: each of its
//! lines can be written again and then reads as before.

use crate::canon::{
    lemma_read_comment, lemma_read_domain, lemma_read_member, lemma_read_named, lemma_read_param,
    lemma_read_type_head, lemma_read_variant, no_newline, wf_domain_head, wf_member_head, wf_named,
    wf_param_head, wf_text, wf_type_head, wf_variant_name,
};
use crate::chars::{lemma_run_end, run_end};
use crate::grammar::{
    blanks_end, block_at, command_at, commands_from, comments, comments_end, depends_from,
    domain_at, domains_from, event_at, events_from, item_at, lemma_blanks_end, lemma_comments_end,
    line_class, lines_from, lines_of, opt_block_at, param_at, params_from, protocol_at,
    redirect_at, type_def_at, types_from, variant_at, variants_from,
};
use crate::line::{
    named_line, param_head, type_at, type_head, word_at, HeadView, ParamHeadView, TypeHeadView,
};
use crate::model::{
    CommandView, DomainView, EventView, ItemView, Lines, ParamView, ProtocolView, RedirectView,
    TypeDefView, TypeView, VariantView,
};
use vstd::prelude::*;

verus! {

/// No line holds a newline.
pub open spec fn clean(lines: Lines) -> bool {
    forall|k: int| 0 <= k < lines.len() ==> no_newline(#[trigger] lines[k])
}

/// Every line of the description is trimmed and holds no newline.
pub open spec fn wf_desc(d: Lines) -> bool {
    forall|k: int| 0 <= k < d.len() ==> wf_text(#[trigger] d[k])
}

/// A variant that can be written and read again.
pub open spec fn wf_variant(v: VariantView) -> bool {
    wf_desc(v.description) && wf_variant_name(v.name)
}

/// Variants that can be written and read again.
pub open spec fn wf_variants(vs: Seq<VariantView>) -> bool {
    forall|k: int| 0 <= k < vs.len() ==> wf_variant(#[trigger] vs[k])
}

/// A type as its name alone gives it: an enumeration without its variants.
pub open spec fn bare(t: TypeView) -> TypeView {
    if t is Enum {
        TypeView::Enum(Seq::empty())
    } else {
        t
    }
}

/// What the head line of a parameter says of it.
pub open spec fn param_head_of(p: ParamView) -> ParamHeadView {
    ParamHeadView {
        experimental: p.experimental,
        deprecated: p.deprecated,
        optional: p.optional,
        ty: bare(p.ty),
        name: p.name,
    }
}

/// A parameter that can be written and read again.
pub open spec fn wf_param(p: ParamView) -> bool {
    &&& wf_desc(p.description)
    &&& wf_param_head(param_head_of(p))
    &&& p.ty matches TypeView::Enum(vs) ==> vs.len() > 0 && wf_variants(vs)
}

/// Parameters that can be written and read again.
pub open spec fn wf_params(ps: Seq<ParamView>) -> bool {
    forall|k: int| 0 <= k < ps.len() ==> wf_param(#[trigger] ps[k])
}

/// An item that can be written and read again.
pub open spec fn wf_item(item: ItemView) -> bool {
    match item {
        ItemView::Enum(vs) => vs.len() > 0 && wf_variants(vs),
        ItemView::Properties(ps) => ps.len() > 0 && wf_params(ps),
    }
}

/// What the head line of a type definition says of it.
pub open spec fn type_head_of(t: TypeDefView) -> TypeHeadView {
    TypeHeadView {
        experimental: t.experimental,
        deprecated: t.deprecated,
        id: t.id,
        extends: t.extends,
    }
}

/// A type definition that can be written and read again.
pub open spec fn wf_type_def(t: TypeDefView) -> bool {
    &&& wf_desc(t.description)
    &&& wf_type_head(type_head_of(t))
    &&& t.item matches Some(item) ==> wf_item(item)
}

/// Type definitions that can be written and read again.
pub open spec fn wf_type_defs(ts: Seq<TypeDefView>) -> bool {
    forall|k: int| 0 <= k < ts.len() ==> wf_type_def(#[trigger] ts[k])
}

/// A redirect that can be written and read again.
pub open spec fn wf_redirect(r: RedirectView) -> bool {
    wf_desc(r.description) && wf_named("redirect"@, r.to)
}

/// A command that can be written and read again.
pub open spec fn wf_command(c: CommandView) -> bool {
    &&& wf_desc(c.description)
    &&& wf_member_head(
        HeadView { experimental: c.experimental, deprecated: c.deprecated, name: c.name },
        "command"@,
    )
    &&& c.redirect matches Some(r) ==> wf_redirect(r)
    &&& wf_params(c.parameters)
    &&& wf_params(c.returns)
}

/// Commands that can be written and read again.
pub open spec fn wf_commands(cs: Seq<CommandView>) -> bool {
    forall|k: int| 0 <= k < cs.len() ==> wf_command(#[trigger] cs[k])
}

/// An event that can be written and read again.
pub open spec fn wf_event(e: EventView) -> bool {
    &&& wf_desc(e.description)
    &&& wf_member_head(
        HeadView { experimental: e.experimental, deprecated: e.deprecated, name: e.name },
        "event"@,
    )
    &&& wf_params(e.parameters)
}

/// Events that can be written and read again.
pub open spec fn wf_events(es: Seq<EventView>) -> bool {
    forall|k: int| 0 <= k < es.len() ==> wf_event(#[trigger] es[k])
}

/// Names of domains that can be written on `depends on` lines and read again.
pub open spec fn wf_depends(names: Lines) -> bool {
    forall|k: int| 0 <= k < names.len() ==> wf_named("depends on"@, #[trigger] names[k])
}

/// A domain that can be written and read again.
pub open spec fn wf_domain(d: DomainView) -> bool {
    &&& wf_desc(d.description)
    &&& wf_domain_head(
        HeadView { experimental: d.experimental, deprecated: d.deprecated, name: d.name },
    )
    &&& wf_depends(d.dependencies)
    &&& wf_type_defs(d.types)
    &&& wf_commands(d.commands)
    &&& wf_events(d.events)
}

/// Domains that can be written and read again.
pub open spec fn wf_domains(ds: Seq<DomainView>) -> bool {
    forall|k: int| 0 <= k < ds.len() ==> wf_domain(#[trigger] ds[k])
}

/// A document as reading gives it: every line of it can be written and
/// read again, the numbers of its version fit the machine, and it holds a
/// domain.
pub open spec fn wf_protocol(p: ProtocolView) -> bool {
    &&& wf_desc(p.description)
    &&& p.version.major <= usize::MAX
    &&& p.version.minor <= usize::MAX
    &&& p.domains.len() > 0
    &&& wf_domains(p.domains)
}

/// The lines cut from a text hold no newline.
pub proof fn lemma_lines_from_clean(s: Seq<char>, i: int, acc: Lines)
    requires
        clean(acc),
        0 <= i <= s.len(),
    ensures
        clean(lines_from(s, i, acc)),
    decreases s.len() - i,
{
    let k = run_end(s, i, line_class());
    lemma_run_end(s, i, line_class());
    if k < s.len() {
        let line = s.subrange(i, k);
        assert forall|x: int| 0 <= x < line.len() implies #[trigger] line[x] != '\n' by {
            assert(line_class()(s[i + x]));
        }
        let next = acc.push(line);
        assert forall|x: int| 0 <= x < next.len() implies no_newline(#[trigger] next[x]) by {
            if x < acc.len() {
                assert(next[x] == acc[x]);
            }
        }
        lemma_lines_from_clean(s, k + 1, next);
    }
}

/// The lines of a text hold no newline.
pub proof fn lemma_lines_clean(s: Seq<char>)
    ensures
        clean(lines_of(s)),
{
    lemma_lines_from_clean(s, 0, Seq::empty());
}

/// A description that was read holds trimmed lines without a newline.
pub proof fn lemma_comments_wf(lines: Lines, i: int)
    requires
        clean(lines),
        0 <= i <= lines.len(),
    ensures
        wf_desc(comments(lines, i)),
        i <= comments_end(lines, i) <= lines.len(),
        comments_end(lines, i) < lines.len() ==> !crate::line::is_comment(
            lines[comments_end(lines, i)],
        ),
{
    lemma_comments_end(lines, i);
    let d = comments(lines, i);
    assert forall|k: int| 0 <= k < d.len() implies wf_text(#[trigger] d[k]) by {
        assert(crate::line::is_comment(lines[i + k]));
        lemma_read_comment(lines[i + k]);
    }
}

/// A variant that was read can be written and read again.
pub proof fn lemma_variant_wf(lines: Lines, i: int)
    requires
        clean(lines),
        variant_at(lines, i) is Some,
    ensures
        wf_variant(variant_at(lines, i).unwrap().0),
        i < variant_at(lines, i).unwrap().1 <= lines.len(),
{
    lemma_comments_wf(lines, i);
    lemma_read_variant(lines[comments_end(lines, i)]);
}

/// Variants that were read can be written and read again.
pub proof fn lemma_variants_wf(lines: Lines, i: int, acc: Seq<VariantView>)
    requires
        clean(lines),
        0 <= i <= lines.len(),
        wf_variants(acc),
    ensures
        wf_variants(variants_from(lines, i, acc).0),
        i <= variants_from(lines, i, acc).1 <= lines.len(),
    decreases lines.len() - i,
{
    match variant_at(lines, i) {
        Some((v, j)) => {
            lemma_variant_wf(lines, i);
            let next = acc.push(v);
            assert forall|k: int| 0 <= k < next.len() implies wf_variant(#[trigger] next[k]) by {
                if k < acc.len() {
                    assert(next[k] == acc[k]);
                }
            }
            lemma_variants_wf(lines, j, next);
        },
        None => {},
    }
}

/// A type that a line names is an enumeration only without variants.
pub proof fn lemma_type_at_bare(l: Seq<char>, i: int)
    ensures
        bare(type_at(l, i)) == type_at(l, i),
    decreases l.len() - i,
{
    if word_at(l, i, "array of"@) {
    } else {
    }
}

/// A parameter that was read can be written and read again.
pub proof fn lemma_param_wf(lines: Lines, i: int)
    requires
        clean(lines),
        param_at(lines, i) is Some,
    ensures
        wf_param(param_at(lines, i).unwrap().0),
        i < param_at(lines, i).unwrap().1 <= lines.len(),
{
    lemma_comments_wf(lines, i);
    let j = comments_end(lines, i);
    lemma_read_param(lines[j]);
    let h = param_head(lines[j])->0;
    let p = param_at(lines, i).unwrap().0;
    let c = crate::line::after_flag(
        lines[j],
        crate::line::after_flag(
            lines[j],
            crate::line::after_flag(lines[j], crate::line::indent_end(lines[j]), "experimental"@),
            "deprecated"@,
        ),
        "optional"@,
    );
    lemma_type_at_bare(lines[j], c);
    if h.ty is Enum {
        lemma_variants_wf(lines, j + 1, Seq::empty());
    }
    assert(param_head_of(p) == h);
}

/// Parameters that were read can be written and read again.
pub proof fn lemma_params_wf(lines: Lines, i: int, acc: Seq<ParamView>)
    requires
        clean(lines),
        0 <= i <= lines.len(),
        wf_params(acc),
    ensures
        wf_params(params_from(lines, i, acc).0),
        i <= params_from(lines, i, acc).1 <= lines.len(),
    decreases lines.len() - i,
{
    match param_at(lines, i) {
        Some((p, j)) => {
            lemma_param_wf(lines, i);
            let next = acc.push(p);
            assert forall|k: int| 0 <= k < next.len() implies wf_param(#[trigger] next[k]) by {
                if k < acc.len() {
                    assert(next[k] == acc[k]);
                }
            }
            lemma_params_wf(lines, j, next);
        },
        None => {},
    }
}

/// A block of parameters that was read can be written and read again.
pub proof fn lemma_block_wf(lines: Lines, i: int, kw: Seq<char>)
    requires
        clean(lines),
        0 <= i <= lines.len(),
    ensures
        wf_params(opt_block_at(lines, i, kw).0),
        i <= opt_block_at(lines, i, kw).1 <= lines.len(),
        block_at(lines, i, kw) is Some ==> block_at(lines, i, kw).unwrap().0.len() > 0 && i < block_at(
            lines,
            i,
            kw,
        ).unwrap().1,
{
    if i < lines.len() {
        lemma_params_wf(lines, i + 1, Seq::empty());
    }
}

/// An item that was read can be written and read again.
pub proof fn lemma_item_wf(lines: Lines, i: int)
    requires
        clean(lines),
        0 <= i <= lines.len(),
        item_at(lines, i) is Some,
    ensures
        wf_item(item_at(lines, i).unwrap().0),
        i < item_at(lines, i).unwrap().1 <= lines.len(),
{
    lemma_variants_wf(lines, i + 1, Seq::empty());
    lemma_block_wf(lines, i, "properties"@);
}

/// A type definition that was read can be written and read again.
pub proof fn lemma_type_def_wf(lines: Lines, i: int)
    requires
        clean(lines),
        type_def_at(lines, i) is Some,
    ensures
        wf_type_def(type_def_at(lines, i).unwrap().0),
        i < type_def_at(lines, i).unwrap().1 <= lines.len(),
{
    lemma_comments_wf(lines, i);
    let j = comments_end(lines, i);
    lemma_read_type_head(lines[j]);
    if item_at(lines, j + 1) is Some {
        lemma_item_wf(lines, j + 1);
    }
    assert(type_head_of(type_def_at(lines, i).unwrap().0) == type_head(lines[j])->0);
}

/// A redirect that was read can be written and read again.
pub proof fn lemma_redirect_wf(lines: Lines, i: int)
    requires
        clean(lines),
        redirect_at(lines, i) is Some,
    ensures
        wf_redirect(redirect_at(lines, i).unwrap().0),
        i < redirect_at(lines, i).unwrap().1 <= lines.len(),
{
    lemma_comments_wf(lines, i);
    lemma_read_named(lines[comments_end(lines, i)], "redirect"@);
}

/// A command that was read can be written and read again.
pub proof fn lemma_command_wf(lines: Lines, i: int)
    requires
        clean(lines),
        command_at(lines, i) is Some,
    ensures
        wf_command(command_at(lines, i).unwrap().0),
        i < command_at(lines, i).unwrap().1 <= lines.len(),
{
    lemma_comments_wf(lines, i);
    let j = comments_end(lines, i);
    lemma_read_member(lines[j], "command"@);
    let a = match redirect_at(lines, j + 1) {
        Some((_, a)) => a,
        None => j + 1,
    };
    if redirect_at(lines, j + 1) is Some {
        lemma_redirect_wf(lines, j + 1);
    }
    lemma_block_wf(lines, a, "parameters"@);
    let b = opt_block_at(lines, a, "parameters"@).1;
    lemma_blanks_end(lines, b);
    lemma_block_wf(lines, blanks_end(lines, b), "returns"@);
}

/// An event that was read can be written and read again.
pub proof fn lemma_event_wf(lines: Lines, i: int)
    requires
        clean(lines),
        event_at(lines, i) is Some,
    ensures
        wf_event(event_at(lines, i).unwrap().0),
        i < event_at(lines, i).unwrap().1 <= lines.len(),
{
    lemma_comments_wf(lines, i);
    let j = comments_end(lines, i);
    lemma_read_member(lines[j], "event"@);
    lemma_block_wf(lines, j + 1, "parameters"@);
}

/// The names on `depends on` lines that were read can be written and read again.
pub proof fn lemma_depends_wf(lines: Lines, i: int, acc: Lines)
    requires
        clean(lines),
        0 <= i <= lines.len(),
        wf_depends(acc),
    ensures
        wf_depends(depends_from(lines, i, acc).0),
        i <= depends_from(lines, i, acc).1 <= lines.len(),
    decreases lines.len() - i,
{
    if i < lines.len() && named_line(lines[i], "depends on"@) is Some {
        lemma_depends_line(lines[i]);
        let next = acc.push(named_line(lines[i], "depends on"@)->0);
        assert forall|k: int| 0 <= k < next.len() implies wf_named(
            "depends on"@,
            #[trigger] next[k],
        ) by {
            if k < acc.len() {
                assert(next[k] == acc[k]);
            }
        }
        lemma_depends_wf(lines, i + 1, next);
    }
}

/// A `depends on` line is no comment, and its name can be written and
/// read again.
pub proof fn lemma_depends_line(l: Seq<char>)
    requires
        no_newline(l),
        named_line(l, "depends on"@) is Some,
    ensures
        !crate::line::is_comment(l),
        wf_named("depends on"@, named_line(l, "depends on"@)->0),
{
    crate::canon::lemma_initials();
    crate::canon::lemma_starts_first(l, crate::line::indent_end(l), "depends on"@);
    lemma_read_named(l, "depends on"@);
}

/// Type definitions that were read can be written and read again.
pub proof fn lemma_types_wf(lines: Lines, i: int, acc: Seq<TypeDefView>)
    requires
        clean(lines),
        0 <= i <= lines.len(),
        wf_type_defs(acc),
    ensures
        wf_type_defs(types_from(lines, i, acc).0),
        i <= types_from(lines, i, acc).1 <= lines.len(),
    decreases lines.len() - i,
{
    lemma_blanks_end(lines, i);
    match type_def_at(lines, blanks_end(lines, i)) {
        Some((t, j)) => {
            lemma_type_def_wf(lines, blanks_end(lines, i));
            let next = acc.push(t);
            assert forall|k: int| 0 <= k < next.len() implies wf_type_def(#[trigger] next[k]) by {
                if k < acc.len() {
                    assert(next[k] == acc[k]);
                }
            }
            lemma_types_wf(lines, j, next);
        },
        None => {},
    }
}

/// Commands that were read can be written and read again.
pub proof fn lemma_commands_wf(lines: Lines, i: int, acc: Seq<CommandView>)
    requires
        clean(lines),
        0 <= i <= lines.len(),
        wf_commands(acc),
    ensures
        wf_commands(commands_from(lines, i, acc).0),
        i <= commands_from(lines, i, acc).1 <= lines.len(),
    decreases lines.len() - i,
{
    lemma_blanks_end(lines, i);
    match command_at(lines, blanks_end(lines, i)) {
        Some((c, j)) => {
            lemma_command_wf(lines, blanks_end(lines, i));
            let next = acc.push(c);
            assert forall|k: int| 0 <= k < next.len() implies wf_command(#[trigger] next[k]) by {
                if k < acc.len() {
                    assert(next[k] == acc[k]);
                }
            }
            lemma_commands_wf(lines, j, next);
        },
        None => {},
    }
}

/// Events that were read can be written and read again.
pub proof fn lemma_events_wf(lines: Lines, i: int, acc: Seq<EventView>)
    requires
        clean(lines),
        0 <= i <= lines.len(),
        wf_events(acc),
    ensures
        wf_events(events_from(lines, i, acc).0),
        i <= events_from(lines, i, acc).1 <= lines.len(),
    decreases lines.len() - i,
{
    lemma_blanks_end(lines, i);
    match event_at(lines, blanks_end(lines, i)) {
        Some((e, j)) => {
            lemma_event_wf(lines, blanks_end(lines, i));
            let next = acc.push(e);
            assert forall|k: int| 0 <= k < next.len() implies wf_event(#[trigger] next[k]) by {
                if k < acc.len() {
                    assert(next[k] == acc[k]);
                }
            }
            lemma_events_wf(lines, j, next);
        },
        None => {},
    }
}

/// A domain that was read can be written and read again.
pub proof fn lemma_domain_wf(lines: Lines, i: int)
    requires
        clean(lines),
        domain_at(lines, i) is Some,
    ensures
        wf_domain(domain_at(lines, i).unwrap().0),
        i < domain_at(lines, i).unwrap().1 <= lines.len(),
{
    lemma_comments_wf(lines, i);
    let j = comments_end(lines, i);
    lemma_read_domain(lines[j]);
    lemma_depends_wf(lines, j + 1, Seq::empty());
    let a = depends_from(lines, j + 1, Seq::empty()).1;
    lemma_types_wf(lines, a, Seq::empty());
    let b = types_from(lines, a, Seq::empty()).1;
    lemma_commands_wf(lines, b, Seq::empty());
    let c = commands_from(lines, b, Seq::empty()).1;
    lemma_events_wf(lines, c, Seq::empty());
}

/// Domains that were read can be written and read again.
pub proof fn lemma_domains_wf(lines: Lines, i: int, acc: Seq<DomainView>)
    requires
        clean(lines),
        0 <= i <= lines.len(),
        wf_domains(acc),
    ensures
        wf_domains(domains_from(lines, i, acc).0),
        i <= domains_from(lines, i, acc).1 <= lines.len(),
    decreases lines.len() - i,
{
    lemma_blanks_end(lines, i);
    match domain_at(lines, blanks_end(lines, i)) {
        Some((d, j)) => {
            lemma_domain_wf(lines, blanks_end(lines, i));
            let next = acc.push(d);
            assert forall|k: int| 0 <= k < next.len() implies wf_domain(#[trigger] next[k]) by {
                if k < acc.len() {
                    assert(next[k] == acc[k]);
                }
            }
            lemma_domains_wf(lines, j, next);
        },
        None => {},
    }
}

/// A document that was read can be written and read again, line by line.
pub proof fn lemma_protocol_wf(lines: Lines)
    requires
        clean(lines),
        protocol_at(lines) is Read,
    ensures
        wf_protocol(protocol_at(lines)->Read_0),
        0 <= protocol_at(lines)->Read_1 <= lines.len(),
{
    lemma_comments_wf(lines, 0);
    let a = comments_end(lines, 0);
    lemma_blanks_end(lines, a);
    let b = blanks_end(lines, a);
    lemma_domains_wf(lines, b + 3, Seq::empty());
}

} // verus!
