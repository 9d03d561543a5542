//! Reading what was written: lines that show the canonical text of a
//! construct are read as that construct.

use crate::canon::{
    head_line, lemma_body, lemma_flag_range, lemma_show_comment, lemma_show_keyword,
    lemma_show_member, lemma_show_named, lemma_show_param, lemma_show_type_head,
    lemma_show_variant, padded, pads, param_text, spaceless, starts_plain, type_head_line,
};
use crate::chars::{is_blank, lemma_run_end, run_end, word_class};
use crate::grammar::{
    blanks_end, block_at, command_at, comments, comments_end, event_at, item_at, lemma_blanks_end,
    opt_block_at, param_at, params_from, redirect_at, type_def_at, variant_at, variants_from,
};
use crate::line::{
    after_flag, comment_text, indent_end, is_comment, is_keyword_line, lemma_type_end, named_line,
    param_head, type_end, variant_line,
};
use crate::line::HeadView;
use crate::model::{
    CommandView, EventView, ItemView, Lines, ParamView, RedirectView, TypeDefView, TypeView,
    VariantView,
};
use crate::text::{
    command_lines, event_lines, head_text, opt_block_lines, type_def_lines, type_head_text,
};
use crate::wellformed::{type_head_of, wf_command, wf_event, wf_type_def};
use crate::reindent::body;
use crate::text::{
    block_lines, comment_lines, flat_map, indented_lines, item_lines, param_head_text, param_lines,
    param_part, redirect_lines, type_text, variant_lines, variant_part, variants_lines,
};
use crate::wellformed::{
    bare, param_head_of, wf_desc, wf_item, wf_param, wf_params, wf_redirect, wf_variant,
    wf_variants,
};
use vstd::prelude::*;

verus! {

/// From line `i` on stand the lines of `part`, each behind some indentation.
#[verifier::opaque]
pub open spec fn shows(lines: Lines, i: int, part: Lines) -> bool {
    0 <= i && i + part.len() <= lines.len() && forall|k: int|
        0 <= k < part.len() ==> padded(lines[i + k], #[trigger] part[k])
}

/// From line `i` on stand the lines of `part`, letter for letter.
#[verifier::opaque]
pub open spec fn holds(lines: Lines, i: int, part: Lines) -> bool {
    0 <= i && i + part.len() <= lines.len() && forall|k: int|
        0 <= k < part.len() ==> lines[i + k] == #[trigger] part[k]
}

/// From line `i` on stand the lines of `part`, each behind indentation or none.
#[verifier::opaque]
pub open spec fn pads_all(lines: Lines, i: int, part: Lines) -> bool {
    0 <= i && i + part.len() <= lines.len() && forall|k: int|
        0 <= k < part.len() ==> pads(lines[i + k], #[trigger] part[k])
}

/// At line `j` the text ends, or an empty line stands.
pub open spec fn ends_block(lines: Lines, j: int) -> bool {
    0 <= j && (j >= lines.len() || lines[j].len() == 0)
}

/// Lines that show two parts one after the other show each of them.
pub proof fn lemma_shows_split(lines: Lines, i: int, a: Lines, b: Lines)
    requires
        shows(lines, i, a + b),
    ensures
        shows(lines, i, a),
        shows(lines, i + a.len(), b),
        0 <= i,
        i + a.len() + b.len() <= lines.len(),
{
    reveal(shows);
    assert forall|k: int| 0 <= k < a.len() implies padded(lines[i + k], #[trigger] a[k]) by {
        assert((a + b)[k] == a[k]);
    }
    assert forall|k: int| 0 <= k < b.len() implies padded(
        lines[i + a.len() + k],
        #[trigger] b[k],
    ) by {
        assert((a + b)[a.len() + k] == b[k]);
    }
}

/// Lines that hold two parts one after the other hold each of them.
pub proof fn lemma_holds_split(lines: Lines, i: int, a: Lines, b: Lines)
    requires
        holds(lines, i, a + b),
    ensures
        holds(lines, i, a),
        holds(lines, i + a.len(), b),
        0 <= i,
        i + a.len() + b.len() <= lines.len(),
{
    reveal(holds);
    assert forall|k: int| 0 <= k < a.len() implies lines[i + k] == #[trigger] a[k] by {
        assert((a + b)[k] == a[k]);
    }
    assert forall|k: int| 0 <= k < b.len() implies lines[i + a.len() + k] == #[trigger] b[k] by {
        assert((a + b)[a.len() + k] == b[k]);
    }
}

/// Lines that show a part and one more line show the part, and the line
/// after it.
pub proof fn lemma_shows_push(lines: Lines, i: int, a: Lines, x: Seq<char>)
    requires
        shows(lines, i, a.push(x)),
    ensures
        shows(lines, i, a),
        0 <= i,
        i + a.len() < lines.len(),
        padded(lines[i + a.len()], x),
{
    assert(a.push(x) =~= a + seq![x]);
    lemma_shows_split(lines, i, a, seq![x]);
    lemma_shows_one(lines, i + a.len(), x);
}

/// Lines that show a part hold as many lines from there on.
pub proof fn lemma_shows_bounds(lines: Lines, i: int, part: Lines)
    requires
        shows(lines, i, part),
    ensures
        0 <= i,
        i + part.len() <= lines.len(),
{
    reveal(shows);
}

/// Lines that hold a part hold as many lines from there on.
pub proof fn lemma_holds_bounds(lines: Lines, i: int, part: Lines)
    requires
        holds(lines, i, part),
    ensures
        0 <= i,
        i + part.len() <= lines.len(),
{
    reveal(holds);
}

/// Lines that show one line hold it behind some indentation.
pub proof fn lemma_shows_one(lines: Lines, i: int, x: Seq<char>)
    requires
        shows(lines, i, seq![x]),
    ensures
        0 <= i < lines.len(),
        padded(lines[i], x),
{
    reveal(shows);
    assert(seq![x][0] == x);
}

/// Lines that hold one line hold it.
pub proof fn lemma_holds_one(lines: Lines, i: int, x: Seq<char>)
    requires
        holds(lines, i, seq![x]),
    ensures
        0 <= i < lines.len(),
        lines[i] == x,
{
    reveal(holds);
    assert(seq![x][0] == x);
}

/// Lines that hold a part and one more line hold the part, and the line
/// after it.
pub proof fn lemma_holds_push(lines: Lines, i: int, a: Lines, x: Seq<char>)
    requires
        holds(lines, i, a.push(x)),
    ensures
        holds(lines, i, a),
        0 <= i,
        i + a.len() < lines.len(),
        lines[i + a.len()] == x,
{
    assert(a.push(x) =~= a + seq![x]);
    lemma_holds_split(lines, i, a, seq![x]);
    lemma_holds_one(lines, i + a.len(), x);
}

/// A line that pads a text moved two spaces to the right pads the text.
pub proof fn lemma_padded_deeper(l: Seq<char>, c: Seq<char>)
    requires
        pads(l, "  "@ + c),
    ensures
        padded(l, c),
{
    reveal_strlit("  ");
    let d = "  "@ + c;
    let m = l.len() - d.len();
    assert(l.subrange(m + 2, l.len() as int) =~= c) by {
        assert forall|k: int| 0 <= k < c.len() implies l[m + 2 + k] == c[k] by {
            assert(l.subrange(m, l.len() as int)[k + 2] == l[m + 2 + k]);
            assert(d[k + 2] == c[k]);
        }
    }
    assert forall|k: int| 0 <= k < m + 2 implies is_blank(#[trigger] l[k]) by {
        if k >= m {
            assert(l.subrange(m, l.len() as int)[k - m] == l[k]);
            assert(d[k - m] == ' ');
        }
    }
}

/// Lines that show an indented part show the part.
pub proof fn lemma_shows_indented(lines: Lines, i: int, a: Lines)
    requires
        shows(lines, i, indented_lines(a)),
    ensures
        shows(lines, i, a),
{
    reveal(shows);
    assert forall|k: int| 0 <= k < a.len() implies padded(lines[i + k], #[trigger] a[k]) by {
        assert(indented_lines(a)[k] == "  "@ + a[k]);
        lemma_padded_deeper(lines[i + k], a[k]);
    }
}

/// Lines that hold an indented part show the part.
pub proof fn lemma_holds_indented(lines: Lines, i: int, a: Lines)
    requires
        holds(lines, i, indented_lines(a)),
    ensures
        shows(lines, i, a),
{
    reveal(shows);
    reveal(holds);
    assert forall|k: int| 0 <= k < a.len() implies padded(lines[i + k], #[trigger] a[k]) by {
        assert(indented_lines(a)[k] == "  "@ + a[k]);
        let l = lines[i + k];
        assert(l.subrange(0, l.len() as int) =~= l);
        lemma_padded_deeper(l, a[k]);
    }
}

/// A sequence with a first member is made of the part of that member and
/// the parts of the others.
pub proof fn lemma_flat_map_first<A, B>(xs: Seq<A>, f: spec_fn(A) -> Seq<B>)
    requires
        xs.len() > 0,
    ensures
        flat_map(xs, f) == f(xs[0]) + flat_map(xs.drop_first(), f),
{
}

/// A run of comment lines that is known to reach `j` and to stop there
/// ends at `j`.
pub proof fn lemma_comments_end_is(lines: Lines, i: int, j: int)
    requires
        0 <= i <= j <= lines.len(),
        forall|k: int| i <= k < j ==> is_comment(#[trigger] lines[k]),
        j < lines.len() ==> !is_comment(lines[j]),
    ensures
        comments_end(lines, i) == j,
    decreases j - i,
{
    if i < j {
        lemma_comments_end_is(lines, i + 1, j);
    }
}

/// A description that was written is read as it was.
pub proof fn lemma_desc(lines: Lines, i: int, d: Lines)
    requires
        wf_desc(d),
        pads_all(lines, i, comment_lines(d)),
        i + d.len() < lines.len() ==> !is_comment(lines[i + d.len()]),
    ensures
        comments_end(lines, i) == i + d.len(),
        comments(lines, i) == d,
{
    reveal(pads_all);
    let c = comment_lines(d);
    assert forall|k: int| i <= k < i + d.len() implies is_comment(#[trigger] lines[k]) by {
        assert(c[k - i] == "# "@ + d[k - i]);
        assert(pads(lines[i + (k - i)], c[k - i]));
        lemma_show_comment(lines[k], d[k - i]);
    }
    lemma_comments_end_is(lines, i, i + d.len());
    assert forall|k: int| 0 <= k < d.len() implies comment_text(lines[i + k]) == d[k] by {
        assert(c[k] == "# "@ + d[k]);
        lemma_show_comment(lines[i + k], d[k]);
    }
    assert(comments(lines, i) =~= d);
}

/// Lines that show a part pad it.
pub proof fn lemma_shows_pads(lines: Lines, i: int, part: Lines)
    requires
        shows(lines, i, part),
    ensures
        pads_all(lines, i, part),
{
    reveal(shows);
    reveal(pads_all);
}

/// Lines that hold a part pad it.
pub proof fn lemma_holds_pads(lines: Lines, i: int, part: Lines)
    requires
        holds(lines, i, part),
    ensures
        pads_all(lines, i, part),
{
    reveal(holds);
    reveal(pads_all);
    assert forall|k: int| 0 <= k < part.len() implies pads(lines[i + k], #[trigger] part[k]) by {
        let l = lines[i + k];
        assert(l.subrange(0, l.len() as int) =~= l);
    }
}

/// Where the text ends or an empty line stands, no description and no
/// construct of an indented line begins.
pub proof fn lemma_block_end(lines: Lines, j: int)
    requires
        ends_block(lines, j),
    ensures
        comments_end(lines, j) == j,
        variant_at(lines, j) is None,
        param_at(lines, j) is None,
        redirect_at(lines, j) is None,
        item_at(lines, j) is None,
        forall|kw: Seq<char>| #[trigger] block_at(lines, j, kw) is None,
{
    if j < lines.len() {
        let l = lines[j];
        assert(indent_end(l) == 0);
    }
}

/// A variant that was written is read as it was.
pub proof fn lemma_variant(lines: Lines, i: int, v: VariantView)
    requires
        wf_variant(v),
        shows(lines, i, variant_lines(v)),
    ensures
        variant_at(lines, i) == Some((v, i + v.description.len() + 1)),
{
    lemma_shows_push(lines, i, comment_lines(v.description), v.name);
    let j = i + v.description.len();
    lemma_show_variant(lines[j], v.name);
    lemma_shows_pads(lines, i, comment_lines(v.description));
    lemma_desc(lines, i, v.description);
}

/// Variants that were written are read as they were, where no variant follows them.
#[verifier::rlimit(40)]
pub proof fn lemma_variants(lines: Lines, i: int, vs: Seq<VariantView>, acc: Seq<VariantView>)
    requires
        wf_variants(vs),
        shows(lines, i, variants_lines(vs)),
        variant_at(lines, i + variants_lines(vs).len()) is None,
    ensures
        variants_from(lines, i, acc) == (acc + vs, i + variants_lines(vs).len()),
    decreases vs.len(),
{
    if vs.len() == 0 {
        assert(acc + vs =~= acc);
    } else {
        let v = vs[0];
        let rest = vs.drop_first();
        lemma_flat_map_first(vs, variant_part());
        let first = indented_lines(variant_lines(v));
        lemma_shows_split(lines, i, first, variants_lines(rest));
        lemma_shows_indented(lines, i, variant_lines(v));
        lemma_variant(lines, i, v);
        assert forall|k: int| 0 <= k < rest.len() implies wf_variant(#[trigger] rest[k]) by {
            assert(rest[k] == vs[k + 1]);
        }
        lemma_variants(lines, i + first.len(), rest, acc.push(v));
        assert(acc.push(v) + rest =~= acc + vs);
    }
}

/// The head line of a parameter is written from what the line says of it.
pub proof fn lemma_param_head_text(p: ParamView)
    ensures
        param_head_text(p) == param_text(param_head_of(p)),
{
    assert(type_text(bare(p.ty)) == type_text(p.ty));
}

/// The head line of a parameter is no variant.
pub proof fn lemma_head_not_variant(l: Seq<char>)
    requires
        param_head(l) is Some,
    ensures
        variant_line(l) is None,
{
    lemma_body(l);
    let i = indent_end(l);
    let a = after_flag(l, i, "experimental"@);
    lemma_flag_range(l, i, "experimental"@);
    let b = after_flag(l, a, "deprecated"@);
    lemma_flag_range(l, a, "deprecated"@);
    let c = after_flag(l, b, "optional"@);
    lemma_flag_range(l, b, "optional"@);
    let e = type_end(l, c);
    lemma_type_end(l, c);
    lemma_run_end(l, i, word_class());
    if run_end(l, i, word_class()) == l.len() {
        assert(word_class()(l[e]));
    }
}

/// A parameter that was written is read as it was, where no variant
/// follows the variants of an enumeration.
#[verifier::rlimit(40)]
pub proof fn lemma_param(lines: Lines, i: int, p: ParamView)
    requires
        wf_param(p),
        shows(lines, i, param_lines(p)),
        p.ty is Enum ==> variant_at(lines, i + param_lines(p).len()) is None,
    ensures
        param_at(lines, i) == Some((p, i + param_lines(p).len())),
        param_lines(p).len() > 0,
{
    let head = comment_lines(p.description).push(param_head_text(p));
    let tail = match p.ty {
        TypeView::Enum(variants) => variants_lines(variants),
        _ => Seq::empty(),
    };
    lemma_shows_split(lines, i, head, tail);
    lemma_shows_push(lines, i, comment_lines(p.description), param_head_text(p));
    let j = i + p.description.len();
    lemma_param_head_text(p);
    lemma_show_param(lines[j], param_head_of(p));
    lemma_shows_pads(lines, i, comment_lines(p.description));
    lemma_desc(lines, i, p.description);
    match p.ty {
        TypeView::Enum(variants) => {
            lemma_variants(lines, j + 1, variants, Seq::empty());
            assert(Seq::<VariantView>::empty() + variants =~= variants);
        },
        _ => {},
    }
}

/// Where a parameter was written, no variant is read.
pub proof fn lemma_param_no_variant(lines: Lines, i: int, p: ParamView)
    requires
        wf_param(p),
        shows(lines, i, param_lines(p)),
    ensures
        variant_at(lines, i) is None,
{
    let head = comment_lines(p.description).push(param_head_text(p));
    let tail = match p.ty {
        TypeView::Enum(variants) => variants_lines(variants),
        _ => Seq::empty(),
    };
    lemma_shows_split(lines, i, head, tail);
    lemma_shows_push(lines, i, comment_lines(p.description), param_head_text(p));
    let j = i + p.description.len();
    lemma_param_head_text(p);
    lemma_show_param(lines[j], param_head_of(p));
    lemma_shows_pads(lines, i, comment_lines(p.description));
    lemma_desc(lines, i, p.description);
    lemma_head_not_variant(lines[j]);
}

/// Parameters that were written are read as they were, where no parameter
/// follows them, and no variant if the last is an enumeration.
#[verifier::rlimit(40)]
pub proof fn lemma_params(lines: Lines, i: int, ps: Seq<ParamView>, acc: Seq<ParamView>)
    requires
        wf_params(ps),
        shows(lines, i, flat_map(ps, param_part())),
        param_at(lines, i + flat_map(ps, param_part()).len()) is None,
        ps.len() > 0 && ps.last().ty is Enum ==> variant_at(
            lines,
            i + flat_map(ps, param_part()).len(),
        ) is None,
    ensures
        params_from(lines, i, acc) == (acc + ps, i + flat_map(ps, param_part()).len()),
    decreases ps.len(),
{
    if ps.len() == 0 {
        assert(acc + ps =~= acc);
    } else {
        let p = ps[0];
        let rest = ps.drop_first();
        lemma_flat_map_first(ps, param_part());
        let first = indented_lines(param_lines(p));
        lemma_shows_split(lines, i, first, flat_map(rest, param_part()));
        lemma_shows_indented(lines, i, param_lines(p));
        let j = i + first.len();
        assert forall|k: int| 0 <= k < rest.len() implies wf_param(#[trigger] rest[k]) by {
            assert(rest[k] == ps[k + 1]);
        }
        if rest.len() > 0 {
            lemma_flat_map_first(rest, param_part());
            let second = indented_lines(param_lines(rest[0]));
            lemma_shows_split(lines, j, second, flat_map(rest.drop_first(), param_part()));
            lemma_shows_indented(lines, j, param_lines(rest[0]));
            lemma_param_no_variant(lines, j, rest[0]);
            assert(rest.last() == ps.last());
        } else {
            assert(flat_map(rest, param_part()).len() == 0);
        }
        lemma_param(lines, i, p);
        lemma_params(lines, j, rest, acc.push(p));
        assert(acc.push(p) + rest =~= acc + ps);
    }
}

/// A block of parameters that was written is read as it was, where no
/// parameter follows it, and no variant if its last parameter is an
/// enumeration.
pub proof fn lemma_block(lines: Lines, i: int, kw: Seq<char>, ps: Seq<ParamView>)
    requires
        starts_plain(kw),
        ps.len() > 0,
        wf_params(ps),
        shows(lines, i, block_lines(kw, ps)),
        param_at(lines, i + block_lines(kw, ps).len()) is None,
        ps.last().ty is Enum ==> variant_at(lines, i + block_lines(kw, ps).len()) is None,
    ensures
        block_at(lines, i, kw) == Some((ps, i + block_lines(kw, ps).len())),
        opt_block_at(lines, i, kw) == (ps, i + block_lines(kw, ps).len()),
{
    lemma_shows_split(lines, i, seq![kw], flat_map(ps, param_part()));
    lemma_shows_one(lines, i, kw);
    lemma_show_keyword(lines[i], kw);
    lemma_params(lines, i + 1, ps, Seq::empty());
    assert(Seq::<ParamView>::empty() + ps =~= ps);
}

/// What holds of the keywords that stand alone on a line.
pub proof fn lemma_keywords()
    ensures
        starts_plain("enum"@) && spaceless("enum"@) && "enum"@[0] != '#',
        starts_plain("properties"@) && spaceless("properties"@) && "properties"@[0] != '#',
        starts_plain("parameters"@) && spaceless("parameters"@) && "parameters"@[0] != '#',
        starts_plain("returns"@) && spaceless("returns"@) && "returns"@[0] != '#',
        "enum"@ != "properties"@,
        "parameters"@ != "returns"@,
        "redirect "@ == "redirect"@.push(' '),
        "  depends on "@ == "  "@ + "depends on"@.push(' '),
{
    reveal_strlit("enum");
    reveal_strlit("properties");
    reveal_strlit("parameters");
    reveal_strlit("returns");
    reveal_strlit("redirect");
    reveal_strlit("redirect ");
    reveal_strlit("  ");
    reveal_strlit("depends on");
    reveal_strlit("  depends on ");
    assert("enum"@.len() == 4);
    assert("properties"@.len() == 10);
    assert("parameters"@.len() == 10);
    assert("returns"@.len() == 7);
    assert("redirect "@ =~= "redirect"@.push(' '));
    assert("  depends on "@ =~= "  "@ + "depends on"@.push(' '));
}

/// The line of a keyword without a space is no comment, no redirect and
/// no head of a parameter, and it is not empty.
pub proof fn lemma_keyword_stops(l: Seq<char>, kw: Seq<char>)
    requires
        is_keyword_line(l, kw),
        spaceless(kw),
        kw.len() > 0,
        kw[0] != '#',
    ensures
        !is_comment(l),
        named_line(l, "redirect"@) is None,
        param_head(l) is None,
        l.len() > 0,
{
    lemma_body(l);
    let i = indent_end(l);
    assert(body(l)[0] == l[i + 0]);
    assert forall|k: int| i <= k < l.len() implies l[k] != ' ' by {
        assert(body(l)[k - i] == l[i + (k - i)]);
    }
    let a = after_flag(l, i, "experimental"@);
    lemma_flag_range(l, i, "experimental"@);
    let b = after_flag(l, a, "deprecated"@);
    lemma_flag_range(l, a, "deprecated"@);
    let c = after_flag(l, b, "optional"@);
    lemma_flag_range(l, b, "optional"@);
    lemma_type_end(l, c);
}

/// An item that was written is read as it was, where a block ends after it.
pub proof fn lemma_item(lines: Lines, i: int, item: ItemView)
    requires
        wf_item(item),
        shows(lines, i, item_lines(item)),
        ends_block(lines, i + item_lines(item).len()),
    ensures
        item_at(lines, i) == Some((item, i + item_lines(item).len())),
        item_lines(item).len() > 0,
{
    lemma_keywords();
    let n = item_lines(item).len() as int;
    lemma_block_end(lines, i + n);
    match item {
        ItemView::Enum(vs) => {
            lemma_shows_split(lines, i, seq!["enum"@], variants_lines(vs));
            lemma_shows_one(lines, i, "enum"@);
            lemma_show_keyword(lines[i], "enum"@);
            lemma_variants(lines, i + 1, vs, Seq::empty());
            assert(Seq::<VariantView>::empty() + vs =~= vs);
        },
        ItemView::Properties(ps) => {
            lemma_shows_split(lines, i, seq!["properties"@], flat_map(ps, param_part()));
            lemma_shows_one(lines, i, "properties"@);
            lemma_show_keyword(lines[i], "properties"@);
            lemma_block(lines, i, "properties"@, ps);
        },
    }
}

/// A type definition that was written is read as it was, where a block
/// ends after it.
#[verifier::rlimit(40)]
pub proof fn lemma_type_def(lines: Lines, i: int, t: TypeDefView)
    requires
        wf_type_def(t),
        shows(lines, i, type_def_lines(t)),
        ends_block(lines, i + type_def_lines(t).len()),
    ensures
        type_def_at(lines, i) == Some((t, i + type_def_lines(t).len())),
        i + type_def_lines(t).len() <= lines.len(),
        type_def_lines(t).len() > 0,
        i < lines.len() && lines[i].len() > 0,
{
    let head = comment_lines(t.description).push(type_head_text(t));
    let tail = match t.item {
        Some(item) => indented_lines(item_lines(item)),
        None => Seq::empty(),
    };
    lemma_shows_split(lines, i, head, tail);
    lemma_shows_push(lines, i, comment_lines(t.description), type_head_text(t));
    let j = i + t.description.len();
    assert(type_head_text(t) == type_head_line(type_head_of(t)));
    lemma_show_type_head(lines[j], type_head_of(t));
    lemma_shows_pads(lines, i, comment_lines(t.description));
    lemma_desc(lines, i, t.description);
    lemma_first_line(lines, i, t.description, type_head_text(t));
    match t.item {
        Some(item) => {
            lemma_shows_indented(lines, j + 1, item_lines(item));
            lemma_item(lines, j + 1, item);
        },
        None => {
            lemma_block_end(lines, j + 1);
        },
    }
}

/// The first line of a description and a head is not empty.
pub proof fn lemma_first_line(lines: Lines, i: int, d: Lines, head: Seq<char>)
    requires
        shows(lines, i, comment_lines(d).push(head)),
    ensures
        0 <= i < lines.len(),
        lines[i].len() > 0,
{
    reveal(shows);
    let part = comment_lines(d).push(head);
    assert(padded(lines[i + 0], part[0]));
}

/// A redirect that was written is read as it was.
pub proof fn lemma_redirect(lines: Lines, i: int, r: RedirectView)
    requires
        wf_redirect(r),
        shows(lines, i, redirect_lines(r)),
    ensures
        redirect_at(lines, i) == Some((r, i + redirect_lines(r).len())),
        redirect_lines(r).len() == r.description.len() + 1,
{
    lemma_keywords();
    lemma_shows_push(lines, i, comment_lines(r.description), "redirect "@ + r.to);
    let j = i + r.description.len();
    lemma_show_named(lines[j], "redirect"@, r.to);
    lemma_shows_pads(lines, i, comment_lines(r.description));
    lemma_desc(lines, i, r.description);
}

/// A block of parameters that was written, or left out because it is
/// empty, is read as it was, where a block ends after it.
pub proof fn lemma_opt_block(lines: Lines, i: int, kw: Seq<char>, ps: Seq<ParamView>)
    requires
        starts_plain(kw),
        wf_params(ps),
        shows(lines, i, opt_block_lines(kw, ps)),
        ends_block(lines, i + opt_block_lines(kw, ps).len()),
    ensures
        opt_block_at(lines, i, kw) == (ps, i + opt_block_lines(kw, ps).len()),
{
    let n = opt_block_lines(kw, ps).len() as int;
    lemma_block_end(lines, i + n);
    if ps.len() > 0 {
        lemma_shows_indented(lines, i, block_lines(kw, ps));
        lemma_block(lines, i, kw, ps);
    } else {
        assert(block_at(lines, i, kw) is None);
        assert(ps =~= Seq::empty());
    }
}

/// An event that was written is read as it was, where a block ends after it.
#[verifier::rlimit(40)]
pub proof fn lemma_event(lines: Lines, i: int, e: EventView)
    requires
        wf_event(e),
        shows(lines, i, event_lines(e)),
        ends_block(lines, i + event_lines(e).len()),
    ensures
        event_at(lines, i) == Some((e, i + event_lines(e).len())),
        i + event_lines(e).len() <= lines.len(),
        event_lines(e).len() > 0,
        i < lines.len() && lines[i].len() > 0,
{
    lemma_keywords();
    let h = HeadView { experimental: e.experimental, deprecated: e.deprecated, name: e.name };
    let text = head_text(e.experimental, e.deprecated, "event"@, e.name);
    let head = comment_lines(e.description).push(text);
    lemma_shows_split(lines, i, head, opt_block_lines("parameters"@, e.parameters));
    lemma_shows_push(lines, i, comment_lines(e.description), text);
    let j = i + e.description.len();
    assert(text == head_line(h, "event"@));
    lemma_show_member(lines[j], "event"@, h);
    lemma_shows_pads(lines, i, comment_lines(e.description));
    lemma_desc(lines, i, e.description);
    lemma_first_line(lines, i, e.description, text);
    lemma_opt_block(lines, j + 1, "parameters"@, e.parameters);
}

/// The last parameter of the command is an enumeration, and the command
/// has returns: written one after the other, with no empty line between
/// them, the line `returns` reads as one more variant.
pub open spec fn enum_before_returns(c: CommandView) -> bool {
    c.parameters.len() > 0 && c.parameters.last().ty is Enum && c.returns.len() > 0
}

/// The line `j` does not open a block of returns.
pub open spec fn no_returns_at(lines: Lines, j: int) -> bool {
    j >= lines.len() || !is_keyword_line(lines[j], "returns"@)
}

/// At line `j` a block ends, or the block of the parameters or of the
/// returns of a command begins.
pub open spec fn ends_redirect(lines: Lines, j: int) -> bool {
    ends_block(lines, j) || is_keyword_line(lines[j], "parameters"@) || is_keyword_line(
        lines[j],
        "returns"@,
    )
}

/// The lines of a redirect that may be absent.
pub open spec fn opt_redirect_lines(redirect: Option<RedirectView>) -> Lines {
    match redirect {
        Some(r) => indented_lines(redirect_lines(r)),
        None => Seq::empty(),
    }
}

/// Where a block ends or a block of a command begins, no redirect and no
/// parameter is read.
pub proof fn lemma_redirect_end(lines: Lines, j: int)
    requires
        ends_redirect(lines, j),
    ensures
        redirect_at(lines, j) is None,
        param_at(lines, j) is None,
{
    lemma_keywords();
    if ends_block(lines, j) {
        lemma_block_end(lines, j);
    } else {
        if is_keyword_line(lines[j], "parameters"@) {
            lemma_keyword_stops(lines[j], "parameters"@);
        } else {
            lemma_keyword_stops(lines[j], "returns"@);
        }
    }
}

/// A redirect that was written, or left out, is read as it was, where a
/// block ends or a block of the command begins after it.
pub proof fn lemma_opt_redirect(lines: Lines, i: int, redirect: Option<RedirectView>)
    requires
        redirect matches Some(r) ==> wf_redirect(r),
        shows(lines, i, opt_redirect_lines(redirect)),
        ends_redirect(lines, i + opt_redirect_lines(redirect).len()),
    ensures
        match redirect {
            Some(r) => redirect_at(lines, i) == Some((r, i + opt_redirect_lines(redirect).len())),
            None => redirect_at(lines, i) is None,
        },
{
    match redirect {
        Some(r) => {
            lemma_shows_indented(lines, i, redirect_lines(r));
            lemma_redirect(lines, i, r);
        },
        None => {
            lemma_redirect_end(lines, i);
        },
    }
}

/// The parameters of a command that were written, or left out, are read
/// as they were, where a block ends after them, or the block of the
/// returns begins and the last parameter is no enumeration.
pub proof fn lemma_command_params(lines: Lines, i: int, ps: Seq<ParamView>)
    requires
        wf_params(ps),
        shows(lines, i, opt_block_lines("parameters"@, ps)),
        ends_block(lines, i + opt_block_lines("parameters"@, ps).len()) || (is_keyword_line(
            lines[i + opt_block_lines("parameters"@, ps).len()],
            "returns"@,
        ) && !(ps.len() > 0 && ps.last().ty is Enum)),
    ensures
        opt_block_at(lines, i, "parameters"@) == (
            ps,
            i + opt_block_lines("parameters"@, ps).len(),
        ),
{
    lemma_keywords();
    let n = opt_block_lines("parameters"@, ps).len() as int;
    if ends_block(lines, i + n) {
        lemma_opt_block(lines, i, "parameters"@, ps);
    } else {
        lemma_redirect_end(lines, i + n);
        if ps.len() > 0 {
            lemma_shows_indented(lines, i, block_lines("parameters"@, ps));
            lemma_block(lines, i, "parameters"@, ps);
        } else {
            assert(body(lines[i]) == "returns"@);
            assert(block_at(lines, i, "parameters"@) is None);
            assert(ps =~= Seq::empty());
        }
    }
}

/// The returns of a command that were written, or left out, are read as
/// they were, where a block ends after them and no block of returns
/// begins after the empty lines that follow.
pub proof fn lemma_command_returns(lines: Lines, i: int, rs: Seq<ParamView>)
    requires
        wf_params(rs),
        shows(lines, i, opt_block_lines("returns"@, rs)),
        ends_block(lines, i + opt_block_lines("returns"@, rs).len()),
        no_returns_at(lines, blanks_end(lines, i + opt_block_lines("returns"@, rs).len())),
    ensures
        opt_block_at(lines, blanks_end(lines, i), "returns"@) == (
            rs,
            if rs.len() > 0 {
                i + opt_block_lines("returns"@, rs).len()
            } else {
                blanks_end(lines, i)
            },
        ),
        rs.len() > 0 ==> is_keyword_line(lines[i], "returns"@),
{
    lemma_keywords();
    if rs.len() > 0 {
        lemma_shows_indented(lines, i, block_lines("returns"@, rs));
        lemma_shows_split(lines, i, seq!["returns"@], flat_map(rs, param_part()));
        lemma_shows_one(lines, i, "returns"@);
        lemma_show_keyword(lines[i], "returns"@);
        lemma_keyword_stops(lines[i], "returns"@);
        assert(blanks_end(lines, i) == i);
        lemma_opt_block(lines, i, "returns"@, rs);
    } else {
        lemma_shows_bounds(lines, i, opt_block_lines("returns"@, rs));
        lemma_blanks_end(lines, i);
        assert(block_at(lines, blanks_end(lines, i), "returns"@) is None);
        assert(rs =~= Seq::empty());
    }
}

/// Where the last index of a command lies: after its lines if it has
/// returns, else after the empty lines that follow them.
pub open spec fn command_end(lines: Lines, i: int, c: CommandView) -> int {
    if c.returns.len() > 0 {
        i + command_lines(c).len()
    } else {
        blanks_end(lines, i + command_lines(c).len())
    }
}

/// A command that was written is read as it was, where a block ends after
/// it and no block of returns begins after the empty lines that follow,
/// unless its returns follow an enumeration.
#[verifier::rlimit(40)]
pub proof fn lemma_command(lines: Lines, i: int, c: CommandView)
    requires
        wf_command(c),
        !enum_before_returns(c),
        shows(lines, i, command_lines(c)),
        ends_block(lines, i + command_lines(c).len()),
        no_returns_at(lines, blanks_end(lines, i + command_lines(c).len())),
    ensures
        command_at(lines, i) == Some((c, command_end(lines, i, c))),
        i + command_lines(c).len() <= lines.len(),
        i < lines.len() && lines[i].len() > 0,
{
    lemma_keywords();
    let h = HeadView { experimental: c.experimental, deprecated: c.deprecated, name: c.name };
    let text = head_text(c.experimental, c.deprecated, "command"@, c.name);
    let head = comment_lines(c.description).push(text);
    let r = opt_redirect_lines(c.redirect);
    let p = opt_block_lines("parameters"@, c.parameters);
    let rs = opt_block_lines("returns"@, c.returns);
    assert(command_lines(c) == head + r + p + rs);
    lemma_shows_split(lines, i, head + r + p, rs);
    lemma_shows_split(lines, i, head + r, p);
    lemma_shows_split(lines, i, head, r);
    lemma_shows_push(lines, i, comment_lines(c.description), text);
    let j = i + c.description.len();
    let a = j + 1 + r.len();
    let b = a + p.len();
    assert(text == head_line(h, "command"@));
    lemma_show_member(lines[j], "command"@, h);
    lemma_shows_pads(lines, i, comment_lines(c.description));
    lemma_desc(lines, i, c.description);
    lemma_first_line(lines, i, c.description, text);
    lemma_command_returns(lines, b, c.returns);
    if c.returns.len() > 0 {
        if c.parameters.len() > 0 {
            lemma_shows_indented(lines, a, block_lines("parameters"@, c.parameters));
            lemma_shows_split(
                lines,
                a,
                seq!["parameters"@],
                flat_map(c.parameters, param_part()),
            );
            lemma_shows_one(lines, a, "parameters"@);
            lemma_show_keyword(lines[a], "parameters"@);
        }
    } else {
        if c.parameters.len() > 0 {
            lemma_shows_indented(lines, a, block_lines("parameters"@, c.parameters));
            lemma_shows_split(
                lines,
                a,
                seq!["parameters"@],
                flat_map(c.parameters, param_part()),
            );
            lemma_shows_one(lines, a, "parameters"@);
            lemma_show_keyword(lines[a], "parameters"@);
        }
    }
    assert(ends_redirect(lines, a));
    lemma_opt_redirect(lines, j + 1, c.redirect);
    lemma_command_params(lines, a, c.parameters);
    if c.returns.len() > 0 {
        lemma_keyword_stops(lines[b], "returns"@);
        assert(blanks_end(lines, b) == b);
    }
}

} // verus!
