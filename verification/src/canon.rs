//! What a line that was read looks like when it is written again, and why
//! it then reads as before.

use crate::chars::{
    back_start, blank_class, is_blank, is_trimmed, lemma_back_start, lemma_run_end,
    lemma_run_end_is, run_end, space_class, word_class,
};
use crate::line::{
    after_flag, comment_text, head_at, indent_end, is_comment, is_indented, is_keyword_line,
    lemma_type_end, member_head, named_line, param_head, starts_at, type_at, type_end, type_head,
    variant_line, word_at, HeadView, ParamHeadView, TypeHeadView,
};
use crate::model::TypeView;
use crate::line::domain_head;
use crate::reindent::{
    aligned, body, lemma_aligned, lemma_aligned_on, lemma_aligned_range, lemma_aligned_run,
    lemma_aligned_starts, lemma_aligned_type, lemma_same_comment, lemma_same_member,
    lemma_same_named, lemma_same_param, lemma_same_type_head, lemma_same_variant, same_body,
};
use crate::text::{flag_text, head_text, type_text};
use vstd::prelude::*;

verus! {

/// The line `l` is the text `c` behind spaces or tabs, if any.
pub open spec fn pads(l: Seq<char>, c: Seq<char>) -> bool {
    let m = l.len() - c.len();
    m >= 0 && l.subrange(m, l.len() as int) == c && forall|k: int|
        0 <= k < m ==> is_blank(#[trigger] l[k])
}

/// The line `l` is the text `c` behind at least one space or tab.
pub open spec fn padded(l: Seq<char>, c: Seq<char>) -> bool {
    pads(l, c) && l.len() > c.len()
}

/// The text is not empty and does not begin with a space or a tab.
pub open spec fn starts_plain(c: Seq<char>) -> bool {
    c.len() > 0 && !is_blank(c[0])
}

/// The text holds no newline.
pub open spec fn no_newline(c: Seq<char>) -> bool {
    forall|k: int| 0 <= k < c.len() ==> #[trigger] c[k] != '\n'
}

/// The text holds no space.
pub open spec fn spaceless(c: Seq<char>) -> bool {
    forall|k: int| 0 <= k < c.len() ==> #[trigger] c[k] != ' '
}

/// The text behind one space.
pub open spec fn canon(c: Seq<char>) -> Seq<char> {
    seq![' '] + c
}

/// A line that pads a text holds that text after its indentation, unless
/// the text itself begins with a space or a tab.
pub proof fn lemma_pads_body(l: Seq<char>, c: Seq<char>)
    requires
        pads(l, c),
        c.len() == 0 || !is_blank(c[0]),
    ensures
        indent_end(l) == l.len() - c.len(),
        body(l) == c,
        is_indented(l) == (l.len() > c.len()),
{
    let m = l.len() - c.len();
    assert forall|k: int| 0 <= k < m implies blank_class()(#[trigger] l[k]) by {}
    if m < l.len() {
        assert(l.subrange(m, l.len() as int)[0] == l[m]);
    }
    lemma_run_end_is(l, 0, m, blank_class());
}

/// A text behind one space is padded by it.
pub proof fn lemma_canon(c: Seq<char>)
    ensures
        padded(canon(c), c),
        canon(c).len() == c.len() + 1,
{
    assert(canon(c).subrange(1, canon(c).len() as int) =~= c);
}

/// A line pads what it holds after its indentation, and that does not
/// begin with a space or a tab.
pub proof fn lemma_body(l: Seq<char>)
    ensures
        pads(l, body(l)),
        body(l).len() == l.len() - indent_end(l),
        0 <= indent_end(l) <= l.len(),
        body(l).len() == 0 || !is_blank(body(l)[0]),
        forall|k: int| 0 <= k < body(l).len() ==> #[trigger] body(l)[k] == l[indent_end(l) + k],
{
    lemma_run_end(l, 0, blank_class());
    let i = indent_end(l);
    assert forall|k: int| 0 <= k < i implies is_blank(#[trigger] l[k]) by {
        assert(blank_class()(l[k]));
    }
}

/// Two lines that pad the same text, both by something or both by nothing,
/// hold the same.
pub proof fn lemma_pads_same(a: Seq<char>, b: Seq<char>, c: Seq<char>)
    requires
        pads(a, c),
        pads(b, c),
        c.len() == 0 || !is_blank(c[0]),
        (a.len() > c.len()) == (b.len() > c.len()),
    ensures
        same_body(a, b),
{
    lemma_pads_body(a, c);
    lemma_pads_body(b, c);
}

/// A text that stands in a line begins as the line does there.
pub proof fn lemma_starts_first(l: Seq<char>, i: int, kw: Seq<char>)
    requires
        starts_at(l, i, kw),
        kw.len() > 0,
    ensures
        l[i] == kw[0],
{
    assert(l.subrange(i, i + kw.len())[0] == l[i]);
}

/// Where the line goes on with another letter than the one a text begins
/// with, the text does not stand there.
pub proof fn lemma_not_at(l: Seq<char>, i: int, kw: Seq<char>)
    requires
        kw.len() > 0,
        0 <= i < l.len() ==> l[i] != kw[0],
    ensures
        !starts_at(l, i, kw),
        !word_at(l, i, kw),
        after_flag(l, i, kw) == i,
{
    if starts_at(l, i, kw) {
        lemma_starts_first(l, i, kw);
    }
}

/// The letters that the keywords of head lines begin with.
pub proof fn lemma_initials()
    ensures
        "experimental"@.len() > 0 && "experimental"@[0] == 'e',
        "deprecated"@.len() > 0 && "deprecated"@[0] == 'd',
        "optional"@.len() > 0 && "optional"@[0] == 'o',
        "type"@.len() > 0 && "type"@[0] == 't',
        "command"@.len() > 0 && "command"@[0] == 'c',
        "event"@.len() > 0 && "event"@[0] == 'e',
        "domain"@.len() > 0 && "domain"@[0] == 'd',
        "redirect"@.len() > 0 && "redirect"@[0] == 'r',
        "depends on"@.len() > 0 && "depends on"@[0] == 'd',
{
    reveal_strlit("experimental");
    reveal_strlit("deprecated");
    reveal_strlit("optional");
    reveal_strlit("type");
    reveal_strlit("command");
    reveal_strlit("event");
    reveal_strlit("domain");
    reveal_strlit("redirect");
    reveal_strlit("depends on");
}

/// The text that a modifier takes on a line is the modifier and a space,
/// or nothing.
pub proof fn lemma_flag_range(l: Seq<char>, i: int, kw: Seq<char>)
    requires
        0 <= i <= l.len(),
    ensures
        i <= after_flag(l, i, kw) <= l.len(),
        l.subrange(i, after_flag(l, i, kw)) == flag_text(word_at(l, i, kw), kw),
{
    if word_at(l, i, kw) {
        assert(l.subrange(i, i + kw.len() + 1) =~= l.subrange(i, i + kw.len()).push(' '));
    } else {
        assert(l.subrange(i, i) =~= Seq::<char>::empty());
    }
}

/// A type is written on a line as it is written out again.
pub proof fn lemma_type_range(l: Seq<char>, i: int)
    requires
        0 <= i <= l.len(),
    ensures
        i <= type_end(l, i) <= l.len(),
        l.subrange(i, type_end(l, i)) == type_text(type_at(l, i)),
    decreases l.len() - i,
{
    lemma_type_end(l, i);
    if word_at(l, i, "array of"@) {
        let j = i + "array of"@.len() + 1;
        lemma_type_range(l, j);
        lemma_type_end(l, j);
        reveal_strlit("array of");
        reveal_strlit("array of ");
        assert(l.subrange(i, j) =~= "array of "@) by {
            assert(l.subrange(i, i + "array of"@.len()) == "array of"@);
            assert forall|k: int| 0 <= k < 9 implies l.subrange(i, j)[k] == "array of "@[k] by {
                if k < 8 {
                    assert(l.subrange(i, i + "array of"@.len())[k] == l[i + k]);
                }
            }
        }
        assert(l.subrange(i, type_end(l, i)) =~= l.subrange(i, j) + l.subrange(j, type_end(l, j)));
    } else {
        lemma_run_end(l, i, word_class());
    }
}

/// The head of a domain, a command or an event is written on a line as it
/// is written out again.
pub proof fn lemma_head_range(l: Seq<char>, i: int, kw: Seq<char>)
    requires
        0 <= i <= l.len(),
        head_at(l, i, kw) is Some,
    ensures
        l.subrange(i, l.len() as int) == head_text(
            head_at(l, i, kw)->0.experimental,
            head_at(l, i, kw)->0.deprecated,
            kw,
            head_at(l, i, kw)->0.name,
        ),
{
    let a = after_flag(l, i, "experimental"@);
    lemma_flag_range(l, i, "experimental"@);
    let b = after_flag(l, a, "deprecated"@);
    lemma_flag_range(l, a, "deprecated"@);
    let c = b + kw.len() + 1;
    assert(l.subrange(b, c) =~= kw.push(' ')) by {
        assert(l.subrange(b, b + kw.len()) == kw);
        assert forall|k: int| 0 <= k < kw.len() + 1 implies l.subrange(b, c)[k] == kw.push(' ')[k] by {
            if k < kw.len() {
                assert(l.subrange(b, b + kw.len())[k] == l[b + k]);
            }
        }
    }
    assert(l.subrange(i, l.len() as int) =~= l.subrange(i, a) + l.subrange(a, b) + l.subrange(b, c)
        + l.subrange(c, l.len() as int));
}

/// A text that can stand on an indented line of its own: it is not empty,
/// begins with no space or tab, holds no newline, and is no comment.
pub open spec fn line_ok(c: Seq<char>) -> bool {
    starts_plain(c) && no_newline(c) && !is_comment(canon(c))
}

/// A line of a description as it is kept: trimmed, and without a newline.
pub open spec fn wf_text(t: Seq<char>) -> bool {
    is_trimmed(t) && no_newline(t)
}

/// A name that reads as a variant when it stands on a line of its own.
#[verifier::opaque]
pub open spec fn wf_variant_name(n: Seq<char>) -> bool {
    line_ok(n) && variant_line(canon(n)) == Some(n)
}

/// The head line of a parameter.
pub open spec fn param_text(h: ParamHeadView) -> Seq<char> {
    flag_text(h.experimental, "experimental"@) + flag_text(h.deprecated, "deprecated"@)
        + flag_text(h.optional, "optional"@) + type_text(h.ty).push(' ') + h.name
}

/// A parameter head that reads as itself when it is written on a line.
#[verifier::opaque]
pub open spec fn wf_param_head(h: ParamHeadView) -> bool {
    line_ok(param_text(h)) && param_head(canon(param_text(h))) == Some(h)
}

/// The head line of a type definition.
pub open spec fn type_head_line(h: TypeHeadView) -> Seq<char> {
    flag_text(h.experimental, "experimental"@) + flag_text(h.deprecated, "deprecated"@) + "type "@
        + h.id + " extends "@ + type_text(h.extends)
}

/// A type definition head that reads as itself when it is written on a line.
#[verifier::opaque]
pub open spec fn wf_type_head(h: TypeHeadView) -> bool {
    line_ok(type_head_line(h)) && type_head(canon(type_head_line(h))) == Some(h)
}

/// The head line of a domain, a command or an event.
pub open spec fn head_line(h: HeadView, kw: Seq<char>) -> Seq<char> {
    head_text(h.experimental, h.deprecated, kw, h.name)
}

/// The head of a command or an event that reads as itself when it is
/// written on a line.
#[verifier::opaque]
pub open spec fn wf_member_head(h: HeadView, kw: Seq<char>) -> bool {
    line_ok(head_line(h, kw)) && member_head(canon(head_line(h, kw)), kw) == Some(h)
}

/// The head of a domain that reads as itself when it is written on a line.
#[verifier::opaque]
pub open spec fn wf_domain_head(h: HeadView) -> bool {
    let c = head_line(h, "domain"@);
    starts_plain(c) && no_newline(c) && !is_comment(c) && domain_head(c) == Some(h)
}

/// A name that reads as itself on a line behind the keyword `kw`.
#[verifier::opaque]
pub open spec fn wf_named(kw: Seq<char>, n: Seq<char>) -> bool {
    line_ok(kw.push(' ') + n) && named_line(canon(kw.push(' ') + n), kw) == Some(n)
}

/// A part of a line without a newline has none either.
pub proof fn lemma_no_newline_range(l: Seq<char>, i: int, j: int)
    requires
        no_newline(l),
        0 <= i <= j <= l.len(),
    ensures
        no_newline(l.subrange(i, j)),
{
    assert forall|k: int| 0 <= k < j - i implies #[trigger] l.subrange(i, j)[k] != '\n' by {
        assert(l.subrange(i, j)[k] == l[i + k]);
    }
}

/// What an indented line that is no comment holds can stand on a line of
/// its own, and that line holds the same.
pub proof fn lemma_body_ok(l: Seq<char>)
    requires
        no_newline(l),
        !is_comment(l),
        is_indented(l),
        body(l).len() > 0,
    ensures
        line_ok(body(l)),
        same_body(l, canon(body(l))),
{
    lemma_body(l);
    lemma_no_newline_range(l, indent_end(l), l.len() as int);
    lemma_canon(body(l));
    lemma_pads_same(l, canon(body(l)), body(l));
    lemma_same_comment(l, canon(body(l)));
}

/// A line that pads a text which can stand on a line of its own holds
/// what the text behind one space holds, and is no comment.
pub proof fn lemma_padded_ok(l: Seq<char>, c: Seq<char>)
    requires
        line_ok(c),
        padded(l, c),
    ensures
        same_body(l, canon(c)),
        !is_comment(l),
        is_indented(l),
        body(l) == c,
{
    lemma_canon(c);
    lemma_pads_same(l, canon(c), c);
    lemma_same_comment(l, canon(c));
    lemma_pads_body(l, c);
}

/// The text of a comment that was read is kept trimmed and without a newline.
pub proof fn lemma_read_comment(l: Seq<char>)
    requires
        no_newline(l),
        is_comment(l),
    ensures
        wf_text(comment_text(l)),
{
    let i = indent_end(l) + 1;
    lemma_body(l);
    crate::chars::lemma_trimmed_from(l, i);
    let a = run_end(l, i, space_class());
    lemma_run_end(l, i, space_class());
    lemma_back_start(l, a, l.len() as int);
    lemma_no_newline_range(l, a, back_start(l, a, l.len() as int));
}

/// A comment line that is written from a kept text gives that text back.
pub proof fn lemma_show_comment(l: Seq<char>, t: Seq<char>)
    requires
        is_trimmed(t),
        pads(l, "# "@ + t),
    ensures
        is_comment(l),
        comment_text(l) == t,
{
    reveal_strlit("# ");
    let c = "# "@ + t;
    assert(c[0] == '#');
    assert(c[1] == ' ');
    lemma_pads_body(l, c);
    let m = indent_end(l);
    assert(l.subrange(m, l.len() as int)[0] == l[m]);
    assert(l.subrange(m, l.len() as int)[1] == l[m + 1]);
    assert(space_class()(l[m + 1]));
    assert forall|k: int| 0 <= k < t.len() implies l[m + 2 + k] == t[k] by {
        assert(l.subrange(m, l.len() as int)[k + 2] == l[m + 2 + k]);
        assert(c[k + 2] == t[k]);
    }
    if t.len() == 0 {
        lemma_run_end_is(l, m + 1, m + 2, space_class());
        assert(l.subrange(m + 2, m + 2) =~= t);
    } else {
        assert(l[m + 2 + 0] == t[0]);
        assert(!space_class()(l[m + 2]));
        lemma_run_end_is(l, m + 1, m + 2, space_class());
        assert(l[m + 2 + (t.len() - 1)] == t[t.len() - 1]);
        assert(l.subrange(m + 2, l.len() as int) =~= t);
    }
}

/// A variant name that was read reads as a variant when written again.
pub proof fn lemma_read_variant(l: Seq<char>)
    requires
        no_newline(l),
        !is_comment(l),
        variant_line(l) is Some,
    ensures
        wf_variant_name(variant_line(l)->0),
        body(l) == variant_line(l)->0,
{
    reveal(wf_variant_name);
    lemma_body(l);
    lemma_run_end(l, indent_end(l), word_class());
    lemma_body_ok(l);
    lemma_same_variant(l, canon(body(l)));
}

/// A variant name that is written on an indented line reads as itself.
pub proof fn lemma_show_variant(l: Seq<char>, n: Seq<char>)
    requires
        wf_variant_name(n),
        padded(l, n),
    ensures
        variant_line(l) == Some(n),
        !is_comment(l),
{
    reveal(wf_variant_name);
    lemma_padded_ok(l, n);
    lemma_same_variant(l, canon(n));
}

/// A name behind a keyword that was read reads as itself when written again.
pub proof fn lemma_read_named(l: Seq<char>, kw: Seq<char>)
    requires
        no_newline(l),
        !is_comment(l),
        named_line(l, kw) is Some,
    ensures
        wf_named(kw, named_line(l, kw)->0),
        body(l) == kw.push(' ') + named_line(l, kw)->0,
{
    reveal(wf_named);
    lemma_body(l);
    let i = indent_end(l);
    let a = i + kw.len() + 1;
    lemma_run_end(l, a, word_class());
    assert(l.subrange(i, a) =~= kw.push(' ')) by {
        assert(l.subrange(i, i + kw.len()) == kw);
        assert forall|k: int| 0 <= k < kw.len() + 1 implies l.subrange(i, a)[k] == kw.push(' ')[k] by {
            if k < kw.len() {
                assert(l.subrange(i, i + kw.len())[k] == l[i + k]);
            }
        }
    }
    assert(body(l) =~= l.subrange(i, a) + l.subrange(a, l.len() as int));
    lemma_body_ok(l);
    lemma_same_named(l, canon(body(l)), kw);
}

/// A name that is written behind a keyword on an indented line reads as itself.
pub proof fn lemma_show_named(l: Seq<char>, kw: Seq<char>, n: Seq<char>)
    requires
        wf_named(kw, n),
        padded(l, kw.push(' ') + n),
    ensures
        named_line(l, kw) == Some(n),
        !is_comment(l),
{
    reveal(wf_named);
    lemma_padded_ok(l, kw.push(' ') + n);
    lemma_same_named(l, canon(kw.push(' ') + n), kw);
}

/// The head of a command or an event that was read reads as itself when
/// written again.
pub proof fn lemma_read_member(l: Seq<char>, kw: Seq<char>)
    requires
        no_newline(l),
        !is_comment(l),
        member_head(l, kw) is Some,
    ensures
        wf_member_head(member_head(l, kw)->0, kw),
        body(l) == head_line(member_head(l, kw)->0, kw),
{
    reveal(wf_member_head);
    lemma_body(l);
    lemma_head_range(l, indent_end(l), kw);
    lemma_body_ok(l);
    lemma_same_member(l, canon(body(l)), kw);
}

/// The head of a command or an event that is written on an indented line
/// reads as itself.
pub proof fn lemma_show_member(l: Seq<char>, kw: Seq<char>, h: HeadView)
    requires
        wf_member_head(h, kw),
        padded(l, head_line(h, kw)),
    ensures
        member_head(l, kw) == Some(h),
        !is_comment(l),
{
    reveal(wf_member_head);
    lemma_padded_ok(l, head_line(h, kw));
    lemma_same_member(l, canon(head_line(h, kw)), kw);
}

/// The head of a domain that was read reads as itself when written again.
pub proof fn lemma_read_domain(l: Seq<char>)
    requires
        no_newline(l),
        !is_comment(l),
        domain_head(l) is Some,
    ensures
        wf_domain_head(domain_head(l)->0),
        l == head_line(domain_head(l)->0, "domain"@),
{
    reveal(wf_domain_head);
    lemma_head_range(l, 0, "domain"@);
    assert(l.subrange(0, l.len() as int) =~= l);
    lemma_initials();
    let a = after_flag(l, 0, "experimental"@);
    let b = after_flag(l, a, "deprecated"@);
    if word_at(l, 0, "experimental"@) {
        lemma_starts_first(l, 0, "experimental"@);
    } else if word_at(l, 0, "deprecated"@) {
        lemma_starts_first(l, 0, "deprecated"@);
    } else {
        lemma_starts_first(l, 0, "domain"@);
    }
}

/// The head of a parameter that was read reads as itself when written again.
pub proof fn lemma_read_param(l: Seq<char>)
    requires
        no_newline(l),
        !is_comment(l),
        param_head(l) is Some,
    ensures
        wf_param_head(param_head(l)->0),
        body(l) == param_text(param_head(l)->0),
{
    reveal(wf_param_head);
    lemma_body(l);
    let i = indent_end(l);
    let a = after_flag(l, i, "experimental"@);
    lemma_flag_range(l, i, "experimental"@);
    let b = after_flag(l, a, "deprecated"@);
    lemma_flag_range(l, a, "deprecated"@);
    let c = after_flag(l, b, "optional"@);
    lemma_flag_range(l, b, "optional"@);
    let e = type_end(l, c);
    lemma_type_range(l, c);
    let f = run_end(l, e + 1, word_class());
    assert(l.subrange(c, e + 1) =~= l.subrange(c, e).push(' '));
    assert(body(l) =~= l.subrange(i, a) + l.subrange(a, b) + l.subrange(b, c) + l.subrange(
        c,
        e + 1,
    ) + l.subrange(e + 1, f));
    lemma_body_ok(l);
    lemma_same_param(l, canon(body(l)));
}

/// The head of a parameter that is written on an indented line reads as itself.
pub proof fn lemma_show_param(l: Seq<char>, h: ParamHeadView)
    requires
        wf_param_head(h),
        padded(l, param_text(h)),
    ensures
        param_head(l) == Some(h),
        !is_comment(l),
{
    reveal(wf_param_head);
    lemma_padded_ok(l, param_text(h));
    lemma_same_param(l, canon(param_text(h)));
}

/// The head of a type definition that is written on an indented line
/// reads as itself.
pub proof fn lemma_show_type_head(l: Seq<char>, h: TypeHeadView)
    requires
        wf_type_head(h),
        padded(l, type_head_line(h)),
    ensures
        type_head(l) == Some(h),
        !is_comment(l),
{
    reveal(wf_type_head);
    lemma_padded_ok(l, type_head_line(h));
    lemma_same_type_head(l, canon(type_head_line(h)));
}

/// A keyword that is written on an indented line makes it the line of
/// that keyword.
pub proof fn lemma_show_keyword(l: Seq<char>, kw: Seq<char>)
    requires
        starts_plain(kw),
        padded(l, kw),
    ensures
        is_keyword_line(l, kw),
        body(l) == kw,
{
    lemma_pads_body(l, kw);
}

/// From `c` on the line holds `type <id> extends <type>` and nothing more.
pub open spec fn type_tail_ok(l: Seq<char>, c: int) -> bool {
    let d = c + "type"@.len() + 1;
    let e = run_end(l, d, word_class());
    let f = e + 1 + "extends"@.len() + 1;
    word_at(l, c, "type"@) && e < l.len() && l[e] == ' ' && word_at(l, e + 1, "extends"@)
        && type_end(l, f) == l.len()
}

/// The identifier in `type <id> extends <type>` at `c`.
pub open spec fn type_tail_id(l: Seq<char>, c: int) -> Seq<char> {
    let d = c + "type"@.len() + 1;
    l.subrange(d, run_end(l, d, word_class()))
}

/// The type in `type <id> extends <type>` at `c`.
pub open spec fn type_tail_extends(l: Seq<char>, c: int) -> TypeView {
    let d = c + "type"@.len() + 1;
    let e = run_end(l, d, word_class());
    type_at(l, e + 1 + "extends"@.len() + 1)
}

/// Aligned lines hold the same `type <id> extends <type>`.
pub proof fn lemma_aligned_tail(a: Seq<char>, i: int, b: Seq<char>, j: int)
    requires
        aligned(a, i, b, j),
    ensures
        type_tail_ok(a, i) == type_tail_ok(b, j),
        type_tail_ok(a, i) ==> type_tail_id(a, i) == type_tail_id(b, j) && type_tail_extends(a, i)
            == type_tail_extends(b, j),
{
    lemma_aligned_starts(a, i, b, j, "type"@);
    if word_at(a, i, "type"@) {
        let a4 = i + "type"@.len() + 1;
        let b4 = j + "type"@.len() + 1;
        lemma_aligned_on(a, i, b, j, ("type"@.len() + 1) as int);
        lemma_aligned_run(a, a4, b, b4, word_class());
        lemma_run_end(a, a4, word_class());
        let a5 = run_end(a, a4, word_class());
        let b5 = run_end(b, b4, word_class());
        lemma_aligned_range(a, a4, b, b4, 0, a5 - a4);
        lemma_aligned(a, a5, b, b5);
        if a5 < a.len() {
            assert(a[a5] == b[a5 - a5 + b5]);
            lemma_aligned_on(a, a5, b, b5, 1);
            lemma_aligned_starts(a, a5 + 1, b, b5 + 1, "extends"@);
            if word_at(a, a5 + 1, "extends"@) {
                let a6 = a5 + 1 + "extends"@.len() + 1;
                let b6 = b5 + 1 + "extends"@.len() + 1;
                lemma_aligned_on(a, a5 + 1, b, b5 + 1, ("extends"@.len() + 1) as int);
                lemma_aligned_type(a, a6, b, b6);
            }
        }
    }
}

/// `type <id> extends <type>` is written on a line as it is written out again.
pub proof fn lemma_tail_range(l: Seq<char>, c: int)
    requires
        0 <= c <= l.len(),
        type_tail_ok(l, c),
    ensures
        l.subrange(c, l.len() as int) == "type "@ + type_tail_id(l, c) + " extends "@ + type_text(
            type_tail_extends(l, c),
        ),
{
    reveal_strlit("type");
    reveal_strlit("type ");
    reveal_strlit("extends");
    reveal_strlit(" extends ");
    let d = c + 5;
    let e = run_end(l, d, word_class());
    lemma_run_end(l, d, word_class());
    let f = e + 9;
    lemma_type_range(l, f);
    assert(l.subrange(c, d) =~= "type "@) by {
        assert(l.subrange(c, c + 4) == "type"@);
        assert forall|k: int| 0 <= k < 5 implies l.subrange(c, d)[k] == "type "@[k] by {
            if k < 4 {
                assert(l.subrange(c, c + 4)[k] == l[c + k]);
            }
        }
    }
    assert(l.subrange(e, f) =~= " extends "@) by {
        assert(l.subrange(e + 1, e + 8) == "extends"@);
        assert forall|k: int| 0 <= k < 9 implies l.subrange(e, f)[k] == " extends "@[k] by {
            if 1 <= k < 8 {
                assert(l.subrange(e + 1, e + 8)[k - 1] == l[e + k]);
            }
        }
    }
    assert(l.subrange(c, l.len() as int) =~= l.subrange(c, d) + l.subrange(d, e) + l.subrange(e, f)
        + l.subrange(f, l.len() as int));
}

/// The head of a type definition, seen as its modifiers and what follows them.
pub proof fn lemma_type_head_parts(l: Seq<char>)
    ensures
        ({
            let i = indent_end(l);
            let a = after_flag(l, i, "experimental"@);
            let b = after_flag(l, a, "deprecated"@);
            let c = after_flag(l, b, "optional"@);
            &&& type_head(l) is Some <==> is_indented(l) && type_tail_ok(l, c)
            &&& type_head(l) is Some ==> type_head(l)->0 == (TypeHeadView {
                experimental: word_at(l, i, "experimental"@),
                deprecated: word_at(l, a, "deprecated"@),
                id: type_tail_id(l, c),
                extends: type_tail_extends(l, c),
            })
        }),
{
}

/// Where the modifiers `experimental` and `deprecated` of a type
/// definition end.
pub open spec fn flags_end(l: Seq<char>) -> int {
    after_flag(l, after_flag(l, indent_end(l), "experimental"@), "deprecated"@)
}

/// The head line of a type definition without its modifier `optional`.
pub open spec fn without_optional(l: Seq<char>) -> Seq<char> {
    l.subrange(0, flags_end(l)) + l.subrange(
        after_flag(l, flags_end(l), "optional"@),
        l.len() as int,
    )
}

/// Where the modifiers of a line stand, in order.
proof fn lemma_flags_order(l: Seq<char>)
    ensures
        ({
            let i = indent_end(l);
            let a = after_flag(l, i, "experimental"@);
            let b = after_flag(l, a, "deprecated"@);
            let c = after_flag(l, b, "optional"@);
            0 <= i <= a <= b <= c <= l.len()
        }),
{
    lemma_body(l);
    let i = indent_end(l);
    let a = after_flag(l, i, "experimental"@);
    lemma_flag_range(l, i, "experimental"@);
    let b = after_flag(l, a, "deprecated"@);
    lemma_flag_range(l, a, "deprecated"@);
    lemma_flag_range(l, b, "optional"@);
}

/// The characters of a head line without its modifier `optional`.
proof fn lemma_wo_chars(l: Seq<char>)
    requires
        type_head(l) is Some,
    ensures
        ({
            let b = flags_end(l);
            let c = after_flag(l, b, "optional"@);
            let m = without_optional(l);
            &&& m.len() == b + (l.len() - c)
            &&& b < m.len()
            &&& forall|k: int| 0 <= k < b ==> #[trigger] m[k] == l[k]
            &&& forall|k: int| b <= k < m.len() ==> #[trigger] m[k] == l[k - b + c]
            &&& aligned(m, b, l, c)
            &&& m[b] == 't'
            &&& no_newline(l) ==> no_newline(m)
        }),
{
    lemma_initials();
    lemma_type_head_parts(l);
    lemma_flags_order(l);
    let b = flags_end(l);
    let c = after_flag(l, b, "optional"@);
    let m = without_optional(l);
    lemma_starts_first(l, c, "type"@);
    assert(m.subrange(b, m.len() as int) =~= l.subrange(c, l.len() as int));
    assert(m[b] == l[b - b + c]);
}

/// A head line without its modifier `optional` is indented as before, and
/// is no comment if it was none.
proof fn lemma_wo_indent(l: Seq<char>)
    requires
        type_head(l) is Some,
    ensures
        indent_end(without_optional(l)) == indent_end(l),
        !is_comment(l) ==> !is_comment(without_optional(l)),
{
    lemma_initials();
    lemma_flags_order(l);
    lemma_wo_chars(l);
    lemma_body(l);
    let i = indent_end(l);
    let a = after_flag(l, i, "experimental"@);
    let b = flags_end(l);
    let m = without_optional(l);
    assert forall|k: int| 0 <= k < i implies blank_class()(#[trigger] m[k]) by {
        assert(m[k] == l[k]);
        assert(blank_class()(l[k]));
    }
    if i < b {
        assert(m[i] == l[i]);
        assert(body(l)[0] == l[i + 0]);
    } else {
        assert(m[i] == 't');
    }
    assert(!blank_class()(m[i]));
    lemma_run_end_is(m, 0, i, blank_class());
}

/// A head line without its modifier `optional` holds the other modifiers
/// as before.
#[verifier::rlimit(40)]
proof fn lemma_wo_flags(l: Seq<char>)
    requires
        type_head(l) is Some,
    ensures
        ({
            let i = indent_end(l);
            let a = after_flag(l, i, "experimental"@);
            let b = after_flag(l, a, "deprecated"@);
            let m = without_optional(l);
            &&& word_at(m, i, "experimental"@) == word_at(l, i, "experimental"@)
            &&& after_flag(m, i, "experimental"@) == a
            &&& word_at(m, a, "deprecated"@) == word_at(l, a, "deprecated"@)
            &&& after_flag(m, a, "deprecated"@) == b
            &&& after_flag(m, b, "optional"@) == b
            &&& m.subrange(i, b) == l.subrange(i, b)
        }),
{
    lemma_initials();
    lemma_flags_order(l);
    lemma_wo_chars(l);
    let i = indent_end(l);
    let a = after_flag(l, i, "experimental"@);
    let b = after_flag(l, a, "deprecated"@);
    let m = without_optional(l);
    if word_at(l, i, "experimental"@) {
        assert(m.subrange(i, i + "experimental"@.len()) =~= l.subrange(
            i,
            i + "experimental"@.len(),
        ));
        assert(m[i + "experimental"@.len()] == l[i + "experimental"@.len()]);
    } else {
        if word_at(l, a, "deprecated"@) {
            lemma_starts_first(l, a, "deprecated"@);
            assert(m[i] == l[i]);
        }
        lemma_not_at(m, i, "experimental"@);
    }
    if word_at(l, a, "deprecated"@) {
        assert(m.subrange(a, a + "deprecated"@.len()) =~= l.subrange(a, a + "deprecated"@.len()));
        assert(m[a + "deprecated"@.len()] == l[a + "deprecated"@.len()]);
    } else {
        lemma_not_at(m, a, "deprecated"@);
    }
    lemma_not_at(m, b, "optional"@);
    assert(m.subrange(i, b) =~= l.subrange(i, b));
}

/// A head line without its modifier `optional` is aligned with the line
/// where the modifiers end.
proof fn lemma_wo_aligned(l: Seq<char>)
    requires
        type_head(l) is Some,
    ensures
        aligned(
            without_optional(l),
            flags_end(l),
            l,
            after_flag(l, flags_end(l), "optional"@),
        ),
        no_newline(l) ==> no_newline(without_optional(l)),
        flags_end(l) < without_optional(l).len(),
{
    lemma_wo_chars(l);
}

/// A head line without its modifier `optional` reads as before.
#[verifier::rlimit(40)]
proof fn lemma_wo_head(l: Seq<char>)
    requires
        type_head(l) is Some,
    ensures
        type_head(without_optional(l)) == type_head(l),
{
    lemma_wo_aligned(l);
    lemma_wo_indent(l);
    lemma_wo_flags(l);
    lemma_type_head_parts(l);
    let b = flags_end(l);
    let c = after_flag(l, b, "optional"@);
    let m = without_optional(l);
    lemma_aligned_tail(m, b, l, c);
    lemma_type_head_parts(m);
}

/// A head line without its modifier `optional` holds what is written for
/// its head.
#[verifier::rlimit(40)]
proof fn lemma_wo_body(l: Seq<char>)
    requires
        type_head(l) is Some,
    ensures
        body(without_optional(l)) == type_head_line(type_head(l)->0),
{
    lemma_flags_order(l);
    lemma_wo_aligned(l);
    lemma_wo_indent(l);
    lemma_wo_flags(l);
    lemma_type_head_parts(l);
    let i = indent_end(l);
    let a = after_flag(l, i, "experimental"@);
    let b = after_flag(l, a, "deprecated"@);
    let c = after_flag(l, b, "optional"@);
    let m = without_optional(l);
    lemma_tail_range(l, c);
    lemma_flag_range(l, i, "experimental"@);
    lemma_flag_range(l, a, "deprecated"@);
    let f1 = l.subrange(i, a);
    let f2 = l.subrange(a, b);
    let tail = l.subrange(c, l.len() as int);
    assert(l.subrange(i, b) =~= f1 + f2);
    assert(body(m) =~= m.subrange(i, b) + m.subrange(b, m.len() as int));
    assert(body(m) == f1 + f2 + tail);
    let h = type_head(l)->0;
    assert(type_head_line(h) =~= f1 + f2 + ("type "@ + h.id + " extends "@ + type_text(h.extends)));
}

/// The head of a type definition that was read reads as itself when it is
/// written again, without the modifier `optional` if it had one.
#[verifier::rlimit(40)]
pub proof fn lemma_read_type_head(l: Seq<char>)
    requires
        no_newline(l),
        !is_comment(l),
        type_head(l) is Some,
    ensures
        wf_type_head(type_head(l)->0),
{
    reveal(wf_type_head);
    let m = without_optional(l);
    lemma_wo_aligned(l);
    lemma_wo_indent(l);
    lemma_wo_head(l);
    lemma_wo_body(l);
    lemma_body(m);
    lemma_body_ok(m);
    lemma_same_type_head(m, canon(body(m)));
}

/// The lines written for heads and names that read as themselves hold no newline.
pub proof fn lemma_wf_no_newline()
    ensures
        forall|n: Seq<char>| #[trigger] wf_variant_name(n) ==> no_newline(n),
        forall|h: ParamHeadView| #[trigger] wf_param_head(h) ==> no_newline(param_text(h)),
        forall|h: TypeHeadView| #[trigger] wf_type_head(h) ==> no_newline(type_head_line(h)),
        forall|h: HeadView, kw: Seq<char>| #[trigger]
            wf_member_head(h, kw) ==> no_newline(head_line(h, kw)),
        forall|h: HeadView| #[trigger] wf_domain_head(h) ==> no_newline(head_line(h, "domain"@)),
        forall|kw: Seq<char>, n: Seq<char>| #[trigger]
            wf_named(kw, n) ==> no_newline(kw.push(' ') + n),
{
    reveal(wf_variant_name);
    reveal(wf_param_head);
    reveal(wf_type_head);
    reveal(wf_member_head);
    reveal(wf_domain_head);
    reveal(wf_named);
}

} // verus!
