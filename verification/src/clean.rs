//! The canonical lines of a document that was read hold no newline, so
//! that the text made of them is cut into the same lines again.

use crate::canon::{head_line, lemma_wf_no_newline, no_newline, type_head_line, wf_named, wf_text};
use crate::chars::{decimal, is_digit, lemma_decimal};
use crate::line::HeadView;
use crate::model::{
    CommandView, DomainView, EventView, ItemView, Lines, ParamView, ProtocolView, RedirectView,
    TypeDefView, TypeView, VariantView, VersionView,
};
use crate::reparse::{lemma_keywords, lemma_param_head_text, opt_redirect_lines};
use crate::text::{
    block_lines, command_lines, command_part, comment_lines, depends_part, domain_lines,
    domain_part, event_lines, event_part, flat_map, head_text, indented_lines, item_lines,
    opt_block_lines, param_head_text, param_lines, param_part, protocol_lines, redirect_lines,
    type_def_lines, type_def_part, type_head_text, variant_lines, variant_part, variants_lines,
    version_lines,
};
use crate::wellformed::{
    clean, type_head_of, wf_command, wf_depends, wf_desc, wf_domain, wf_event, wf_item, wf_param,
    wf_params, wf_protocol, wf_redirect, wf_type_def, wf_variant, wf_variants,
};
use vstd::prelude::*;

verus! {

/// Clean lines after clean lines are clean.
pub proof fn lemma_clean_concat(a: Lines, b: Lines)
    requires
        clean(a),
        clean(b),
    ensures
        clean(a + b),
{
    assert forall|k: int| 0 <= k < (a + b).len() implies no_newline(#[trigger] (a + b)[k]) by {
        if k < a.len() {
            assert((a + b)[k] == a[k]);
        } else {
            assert((a + b)[k] == b[k - a.len()]);
        }
    }
}

/// Clean lines and one more line without a newline are clean.
pub proof fn lemma_clean_push(a: Lines, x: Seq<char>)
    requires
        clean(a),
        no_newline(x),
    ensures
        clean(a.push(x)),
{
    assert forall|k: int| 0 <= k < a.push(x).len() implies no_newline(#[trigger] a.push(x)[k]) by {
        if k < a.len() {
            assert(a.push(x)[k] == a[k]);
        }
    }
}

/// One line without a newline is clean.
pub proof fn lemma_clean_one(x: Seq<char>)
    requires
        no_newline(x),
    ensures
        clean(seq![x]),
{
}

/// A text without a newline behind a text without a newline holds none.
pub proof fn lemma_no_newline_concat(a: Seq<char>, b: Seq<char>)
    requires
        no_newline(a),
        no_newline(b),
    ensures
        no_newline(a + b),
{
    assert forall|k: int| 0 <= k < (a + b).len() implies #[trigger] (a + b)[k] != '\n' by {
        if k < a.len() {
            assert((a + b)[k] == a[k]);
        } else {
            assert((a + b)[k] == b[k - a.len()]);
        }
    }
}

/// The fixed words of the canonical text hold no newline.
pub proof fn lemma_words_clean()
    ensures
        no_newline("  "@),
        no_newline("# "@),
        no_newline("enum"@),
        no_newline("properties"@),
        no_newline("parameters"@),
        no_newline("returns"@),
        no_newline("version"@),
        no_newline("  major "@),
        no_newline("  minor "@),
        no_newline("  depends on "@),
        no_newline(Seq::<char>::empty()),
{
    reveal_strlit("  ");
    reveal_strlit("# ");
    reveal_strlit("enum");
    reveal_strlit("properties");
    reveal_strlit("parameters");
    reveal_strlit("returns");
    reveal_strlit("version");
    reveal_strlit("  major ");
    reveal_strlit("  minor ");
    reveal_strlit("  depends on ");
}

/// Clean lines stay clean when they are indented.
pub proof fn lemma_clean_indented(a: Lines)
    requires
        clean(a),
    ensures
        clean(indented_lines(a)),
{
    lemma_words_clean();
    assert forall|k: int| 0 <= k < a.len() implies no_newline(#[trigger] indented_lines(a)[k]) by {
        assert(no_newline(a[k]));
        lemma_no_newline_concat("  "@, a[k]);
    }
}

/// The parts of the members of a sequence are clean where each of them is.
pub proof fn lemma_clean_flat_map<A>(xs: Seq<A>, f: spec_fn(A) -> Lines)
    requires
        forall|k: int| 0 <= k < xs.len() ==> clean(f(#[trigger] xs[k])),
    ensures
        clean(flat_map(xs, f)),
    decreases xs.len(),
{
    if xs.len() > 0 {
        let rest = xs.drop_first();
        assert forall|k: int| 0 <= k < rest.len() implies clean(f(#[trigger] rest[k])) by {
            assert(rest[k] == xs[k + 1]);
        }
        lemma_clean_flat_map(rest, f);
        assert(clean(f(xs[0])));
        lemma_clean_concat(f(xs[0]), flat_map(rest, f));
    }
}

/// The comment lines of a description that was read are clean.
pub proof fn lemma_clean_comments(d: Lines)
    requires
        wf_desc(d),
    ensures
        clean(comment_lines(d)),
{
    lemma_words_clean();
    assert forall|k: int| 0 <= k < d.len() implies no_newline(#[trigger] comment_lines(d)[k]) by {
        assert(wf_text(d[k]));
        lemma_no_newline_concat("# "@, d[k]);
    }
}

/// The lines of a variant that was read are clean.
pub proof fn lemma_clean_variant(v: VariantView)
    requires
        wf_variant(v),
    ensures
        clean(variant_lines(v)),
{
    lemma_wf_no_newline();
    lemma_clean_comments(v.description);
    lemma_clean_push(comment_lines(v.description), v.name);
}

/// The lines of variants that were read are clean.
pub proof fn lemma_clean_variants(vs: Seq<VariantView>)
    requires
        wf_variants(vs),
    ensures
        clean(variants_lines(vs)),
{
    assert forall|k: int| 0 <= k < vs.len() implies clean(variant_part()(#[trigger] vs[k])) by {
        lemma_clean_variant(vs[k]);
        lemma_clean_indented(variant_lines(vs[k]));
    }
    lemma_clean_flat_map(vs, variant_part());
}

/// The lines of a parameter that was read are clean.
pub proof fn lemma_clean_param(p: ParamView)
    requires
        wf_param(p),
    ensures
        clean(param_lines(p)),
{
    lemma_wf_no_newline();
    lemma_param_head_text(p);
    lemma_clean_comments(p.description);
    lemma_clean_push(comment_lines(p.description), param_head_text(p));
    match p.ty {
        TypeView::Enum(variants) => {
            lemma_clean_variants(variants);
            lemma_clean_concat(
                comment_lines(p.description).push(param_head_text(p)),
                variants_lines(variants),
            );
        },
        _ => {
            lemma_clean_concat(
                comment_lines(p.description).push(param_head_text(p)),
                Seq::empty(),
            );
        },
    }
}

/// The lines of a block of parameters that were read are clean.
pub proof fn lemma_clean_block(kw: Seq<char>, ps: Seq<ParamView>)
    requires
        no_newline(kw),
        wf_params(ps),
    ensures
        clean(block_lines(kw, ps)),
        clean(opt_block_lines(kw, ps)),
{
    assert forall|k: int| 0 <= k < ps.len() implies clean(param_part()(#[trigger] ps[k])) by {
        lemma_clean_param(ps[k]);
        lemma_clean_indented(param_lines(ps[k]));
    }
    lemma_clean_flat_map(ps, param_part());
    lemma_clean_one(kw);
    lemma_clean_concat(seq![kw], flat_map(ps, param_part()));
    lemma_clean_indented(block_lines(kw, ps));
}

/// The lines of an item that was read are clean.
pub proof fn lemma_clean_item(item: ItemView)
    requires
        wf_item(item),
    ensures
        clean(item_lines(item)),
{
    lemma_words_clean();
    match item {
        ItemView::Enum(vs) => {
            lemma_clean_variants(vs);
            lemma_clean_one("enum"@);
            lemma_clean_concat(seq!["enum"@], variants_lines(vs));
        },
        ItemView::Properties(ps) => {
            lemma_clean_block("properties"@, ps);
        },
    }
}

/// The lines of a type definition that was read are clean.
pub proof fn lemma_clean_type_def(t: TypeDefView)
    requires
        wf_type_def(t),
    ensures
        clean(type_def_lines(t)),
{
    lemma_wf_no_newline();
    assert(type_head_text(t) == type_head_line(type_head_of(t)));
    lemma_clean_comments(t.description);
    let head = comment_lines(t.description).push(type_head_text(t));
    lemma_clean_push(comment_lines(t.description), type_head_text(t));
    match t.item {
        Some(item) => {
            lemma_clean_item(item);
            lemma_clean_indented(item_lines(item));
            lemma_clean_concat(head, indented_lines(item_lines(item)));
        },
        None => {
            lemma_clean_concat(head, Seq::empty());
        },
    }
}

/// The lines of a redirect that was read, or of none, are clean.
pub proof fn lemma_clean_redirect(redirect: Option<RedirectView>)
    requires
        redirect matches Some(r) ==> wf_redirect(r),
    ensures
        clean(opt_redirect_lines(redirect)),
{
    lemma_wf_no_newline();
    lemma_keywords();
    match redirect {
        Some(r) => {
            lemma_clean_comments(r.description);
            assert(wf_named("redirect"@, r.to));
            lemma_clean_push(comment_lines(r.description), "redirect "@ + r.to);
            lemma_clean_indented(redirect_lines(r));
        },
        None => {},
    }
}

/// The lines of a command that was read are clean.
pub proof fn lemma_clean_command(c: CommandView)
    requires
        wf_command(c),
    ensures
        clean(command_lines(c)),
{
    lemma_wf_no_newline();
    lemma_words_clean();
    let h = HeadView { experimental: c.experimental, deprecated: c.deprecated, name: c.name };
    let text = head_text(c.experimental, c.deprecated, "command"@, c.name);
    assert(text == head_line(h, "command"@));
    let head = comment_lines(c.description).push(text);
    let r = opt_redirect_lines(c.redirect);
    let p = opt_block_lines("parameters"@, c.parameters);
    let rs = opt_block_lines("returns"@, c.returns);
    assert(command_lines(c) == head + r + p + rs);
    lemma_clean_comments(c.description);
    lemma_clean_push(comment_lines(c.description), text);
    lemma_clean_redirect(c.redirect);
    lemma_clean_block("parameters"@, c.parameters);
    lemma_clean_block("returns"@, c.returns);
    lemma_clean_concat(head, r);
    lemma_clean_concat(head + r, p);
    lemma_clean_concat(head + r + p, rs);
}

/// The lines of an event that was read are clean.
pub proof fn lemma_clean_event(e: EventView)
    requires
        wf_event(e),
    ensures
        clean(event_lines(e)),
{
    lemma_wf_no_newline();
    lemma_words_clean();
    let h = HeadView { experimental: e.experimental, deprecated: e.deprecated, name: e.name };
    let text = head_text(e.experimental, e.deprecated, "event"@, e.name);
    assert(text == head_line(h, "event"@));
    lemma_clean_comments(e.description);
    lemma_clean_push(comment_lines(e.description), text);
    lemma_clean_block("parameters"@, e.parameters);
    lemma_clean_concat(
        comment_lines(e.description).push(text),
        opt_block_lines("parameters"@, e.parameters),
    );
}

/// The `depends on` lines of a domain that was read are clean.
pub proof fn lemma_clean_depends(names: Lines)
    requires
        wf_depends(names),
    ensures
        clean(flat_map(names, depends_part())),
{
    lemma_wf_no_newline();
    lemma_words_clean();
    lemma_keywords();
    assert forall|k: int| 0 <= k < names.len() implies clean(
        depends_part()(#[trigger] names[k]),
    ) by {
        let name = names[k];
        assert(wf_named("depends on"@, name));
        let line = "  depends on "@ + name;
        assert(line =~= "  "@ + ("depends on"@.push(' ') + name));
        lemma_no_newline_concat("  "@, "depends on"@.push(' ') + name);
        lemma_clean_one(line);
    }
    lemma_clean_flat_map(names, depends_part());
}

/// The lines of a domain that was read are clean.
pub proof fn lemma_clean_domain(d: DomainView)
    requires
        wf_domain(d),
    ensures
        clean(domain_lines(d)),
{
    lemma_wf_no_newline();
    lemma_words_clean();
    let h = HeadView { experimental: d.experimental, deprecated: d.deprecated, name: d.name };
    let text = head_text(d.experimental, d.deprecated, "domain"@, d.name);
    assert(text == head_line(h, "domain"@));
    let top = comment_lines(d.description).push(text);
    let dep = flat_map(d.dependencies, depends_part()).push(Seq::empty());
    let ts = flat_map(d.types, type_def_part());
    let cs = flat_map(d.commands, command_part());
    let es = flat_map(d.events, event_part());
    assert(domain_lines(d) == top + dep + ts + cs + es);
    lemma_clean_comments(d.description);
    lemma_clean_push(comment_lines(d.description), text);
    lemma_clean_depends(d.dependencies);
    lemma_clean_push(flat_map(d.dependencies, depends_part()), Seq::empty());
    assert forall|k: int| 0 <= k < d.types.len() implies clean(
        type_def_part()(#[trigger] d.types[k]),
    ) by {
        lemma_clean_type_def(d.types[k]);
        lemma_clean_indented(type_def_lines(d.types[k]));
        lemma_clean_push(indented_lines(type_def_lines(d.types[k])), Seq::empty());
    }
    lemma_clean_flat_map(d.types, type_def_part());
    assert forall|k: int| 0 <= k < d.commands.len() implies clean(
        command_part()(#[trigger] d.commands[k]),
    ) by {
        lemma_clean_command(d.commands[k]);
        lemma_clean_indented(command_lines(d.commands[k]));
        lemma_clean_push(indented_lines(command_lines(d.commands[k])), Seq::empty());
    }
    lemma_clean_flat_map(d.commands, command_part());
    assert forall|k: int| 0 <= k < d.events.len() implies clean(
        event_part()(#[trigger] d.events[k]),
    ) by {
        lemma_clean_event(d.events[k]);
        lemma_clean_indented(event_lines(d.events[k]));
        lemma_clean_push(indented_lines(event_lines(d.events[k])), Seq::empty());
    }
    lemma_clean_flat_map(d.events, event_part());
    lemma_clean_concat(top, dep);
    lemma_clean_concat(top + dep, ts);
    lemma_clean_concat(top + dep + ts, cs);
    lemma_clean_concat(top + dep + ts + cs, es);
}

/// The decimal form of a number holds no newline.
pub proof fn lemma_decimal_clean(n: nat)
    ensures
        no_newline(decimal(n)),
{
    lemma_decimal(n);
    assert forall|k: int| 0 <= k < decimal(n).len() implies #[trigger] decimal(n)[k] != '\n' by {
        assert(is_digit(decimal(n)[k]));
    }
}

/// The lines of the version block are clean.
pub proof fn lemma_clean_version(v: VersionView)
    ensures
        clean(version_lines(v).push(Seq::empty())),
{
    lemma_words_clean();
    lemma_decimal_clean(v.major);
    lemma_decimal_clean(v.minor);
    lemma_no_newline_concat("  major "@, decimal(v.major));
    lemma_no_newline_concat("  minor "@, decimal(v.minor));
    let lines = version_lines(v).push(Seq::empty());
    assert forall|k: int| 0 <= k < lines.len() implies no_newline(#[trigger] lines[k]) by {
        if k == 0 {
        } else if k == 1 {
        } else if k == 2 {
        } else {
        }
    }
}

/// The canonical lines of a document that was read are clean.
pub proof fn lemma_clean_protocol(p: ProtocolView)
    requires
        wf_protocol(p),
    ensures
        clean(protocol_lines(p)),
{
    lemma_clean_comments(p.description);
    lemma_clean_version(p.version);
    assert forall|k: int| 0 <= k < p.domains.len() implies clean(
        domain_part()(#[trigger] p.domains[k]),
    ) by {
        lemma_clean_domain(p.domains[k]);
    }
    lemma_clean_flat_map(p.domains, domain_part());
    let d = comment_lines(p.description);
    let v = version_lines(p.version).push(Seq::empty());
    lemma_clean_concat(d, v);
    lemma_clean_concat(d + v, flat_map(p.domains, domain_part()));
}

} // verus!
