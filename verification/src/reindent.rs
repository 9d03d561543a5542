//! What a line says does not depend on how far it is indented: the facts
//! that let a line be read again after it was written at another depth.

use crate::chars::{
    back_start, blank_class, lemma_back_start, lemma_run_end, run_end, space_class, word_class,
};
use crate::line::{
    after_flag, comment_text, head_at, indent_end, is_comment, is_indented, lemma_type_end,
    member_head, named_line, param_head, starts_at, type_at, type_end, type_head, variant_line,
    word_at,
};
use vstd::prelude::*;

verus! {

/// From `i` on, `a` reads as `b` does from `j` on.
pub open spec fn aligned(a: Seq<char>, i: int, b: Seq<char>, j: int) -> bool {
    0 <= i <= a.len() && 0 <= j <= b.len() && a.subrange(i, a.len() as int) == b.subrange(
        j,
        b.len() as int,
    )
}

/// Aligned lines have as much left, and the same characters there.
pub proof fn lemma_aligned(a: Seq<char>, i: int, b: Seq<char>, j: int)
    requires
        aligned(a, i, b, j),
    ensures
        a.len() - i == b.len() - j,
        forall|k: int| i <= k < a.len() ==> #[trigger] a[k] == b[k - i + j],
{
    let sa = a.subrange(i, a.len() as int);
    let sb = b.subrange(j, b.len() as int);
    assert(sa.len() == sb.len());
    assert forall|k: int| i <= k < a.len() implies #[trigger] a[k] == b[k - i + j] by {
        assert(sa[k - i] == a[k]);
        assert(sb[k - i] == b[k - i + j]);
    }
}

/// Lines that are aligned stay aligned further on.
pub proof fn lemma_aligned_on(a: Seq<char>, i: int, b: Seq<char>, j: int, x: int)
    requires
        aligned(a, i, b, j),
        0 <= x <= a.len() - i,
    ensures
        aligned(a, i + x, b, j + x),
{
    lemma_aligned(a, i, b, j);
    assert(a.subrange(i + x, a.len() as int) =~= b.subrange(j + x, b.len() as int)) by {
        assert forall|k: int| i + x <= k < a.len() implies #[trigger] a[k] == b[k - i + j] by {}
    }
}

/// Aligned lines hold the same text between the same distances.
pub proof fn lemma_aligned_range(a: Seq<char>, i: int, b: Seq<char>, j: int, x: int, y: int)
    requires
        aligned(a, i, b, j),
        0 <= x <= y <= a.len() - i,
    ensures
        a.subrange(i + x, i + y) == b.subrange(j + x, j + y),
{
    lemma_aligned(a, i, b, j);
    assert(a.subrange(i + x, i + y) =~= b.subrange(j + x, j + y)) by {
        assert forall|k: int| i + x <= k < i + y implies #[trigger] a[k] == b[k - i + j] by {}
    }
}

/// A text stands at aligned places of both lines or of neither.
pub proof fn lemma_aligned_starts(a: Seq<char>, i: int, b: Seq<char>, j: int, kw: Seq<char>)
    requires
        aligned(a, i, b, j),
    ensures
        starts_at(a, i, kw) == starts_at(b, j, kw),
        word_at(a, i, kw) == word_at(b, j, kw),
        after_flag(a, i, kw) - i == after_flag(b, j, kw) - j,
        aligned(a, after_flag(a, i, kw), b, after_flag(b, j, kw)),
{
    lemma_aligned(a, i, b, j);
    if i + kw.len() <= a.len() {
        lemma_aligned_range(a, i, b, j, 0, kw.len() as int);
        if i + kw.len() < a.len() {
            assert(a[i + kw.len()] == b[j + kw.len()]);
        }
    }
    if word_at(a, i, kw) {
        lemma_aligned_on(a, i, b, j, (kw.len() + 1) as int);
    }
}

/// A run goes as far from aligned places of both lines.
pub proof fn lemma_aligned_run(a: Seq<char>, i: int, b: Seq<char>, j: int, p: spec_fn(char) -> bool)
    requires
        aligned(a, i, b, j),
    ensures
        run_end(a, i, p) - i == run_end(b, j, p) - j,
        aligned(a, run_end(a, i, p), b, run_end(b, j, p)),
    decreases a.len() - i,
{
    lemma_aligned(a, i, b, j);
    if i < a.len() {
        assert(a[i + 0] == b[j + 0]);
        if p(a[i]) {
            lemma_aligned_on(a, i, b, j, 1);
            lemma_aligned_run(a, i + 1, b, j + 1, p);
        }
    }
}

/// The same type is written at aligned places of both lines, and it ends
/// as far from them.
pub proof fn lemma_aligned_type(a: Seq<char>, i: int, b: Seq<char>, j: int)
    requires
        aligned(a, i, b, j),
    ensures
        type_at(a, i) == type_at(b, j),
        type_end(a, i) - i == type_end(b, j) - j,
        aligned(a, type_end(a, i), b, type_end(b, j)),
    decreases a.len() - i,
{
    lemma_aligned_starts(a, i, b, j, "array of"@);
    if word_at(a, i, "array of"@) {
        lemma_aligned_type(a, i + "array of"@.len() + 1, b, j + "array of"@.len() + 1);
    } else {
        lemma_aligned_run(a, i, b, j, word_class());
        lemma_run_end(a, i, word_class());
        lemma_aligned_range(a, i, b, j, 0, run_end(a, i, word_class()) - i);
    }
}

/// White space at the end of aligned lines begins as far from the aligned places.
pub proof fn lemma_aligned_back(a: Seq<char>, i: int, b: Seq<char>, j: int, x: int, y: int)
    requires
        aligned(a, i, b, j),
        0 <= x <= y <= a.len() - i,
    ensures
        back_start(a, i + x, i + y) - i == back_start(b, j + x, j + y) - j,
    decreases y,
{
    lemma_aligned(a, i, b, j);
    if x < y {
        assert(a[i + (y - 1)] == b[j + (y - 1)]);
        if crate::chars::is_space(a[i + y - 1]) {
            lemma_aligned_back(a, i, b, j, x, y - 1);
        }
    }
}

/// What a line holds after its indentation.
pub open spec fn body(l: Seq<char>) -> Seq<char> {
    l.subrange(indent_end(l), l.len() as int)
}

/// Two lines hold the same after their indentation, and both are indented
/// or neither is.
pub open spec fn same_body(a: Seq<char>, b: Seq<char>) -> bool {
    body(a) == body(b) && is_indented(a) == is_indented(b)
}

/// Lines with the same body are aligned where their indentation ends.
pub proof fn lemma_same_body(a: Seq<char>, b: Seq<char>)
    requires
        body(a) == body(b),
    ensures
        aligned(a, indent_end(a), b, indent_end(b)),
{
    lemma_run_end(a, 0, blank_class());
    lemma_run_end(b, 0, blank_class());
}

/// Lines with the same body are both comments, with the same text, or neither is.
pub proof fn lemma_same_comment(a: Seq<char>, b: Seq<char>)
    requires
        body(a) == body(b),
    ensures
        is_comment(a) == is_comment(b),
        is_comment(a) ==> comment_text(a) == comment_text(b),
{
    lemma_same_body(a, b);
    let i = indent_end(a);
    let j = indent_end(b);
    lemma_aligned(a, i, b, j);
    if i < a.len() {
        assert(a[i + 0] == b[j + 0]);
    }
    if is_comment(a) {
        lemma_aligned_on(a, i, b, j, 1);
        lemma_aligned_run(a, i + 1, b, j + 1, space_class());
        let x = run_end(a, i + 1, space_class());
        let y = run_end(b, j + 1, space_class());
        lemma_run_end(a, i + 1, space_class());
        lemma_aligned_back(a, i, b, j, x - i, a.len() - i);
        lemma_back_start(a, x, a.len() as int);
        lemma_aligned_range(a, i, b, j, x - i, back_start(a, x, a.len() as int) - i);
    }
}

/// Lines with the same body name the same after the keyword `kw`.
pub proof fn lemma_same_named(a: Seq<char>, b: Seq<char>, kw: Seq<char>)
    requires
        same_body(a, b),
    ensures
        named_line(a, kw) == named_line(b, kw),
{
    lemma_same_body(a, b);
    let i = indent_end(a);
    let j = indent_end(b);
    lemma_aligned(a, i, b, j);
    lemma_aligned_starts(a, i, b, j, kw);
    if word_at(a, i, kw) {
        let x = i + kw.len() + 1;
        let y = j + kw.len() + 1;
        lemma_aligned_run(a, x, b, y, word_class());
        lemma_run_end(a, x, word_class());
        lemma_aligned_range(a, x, b, y, 0, run_end(a, x, word_class()) - x);
    }
}

/// Lines with the same body hold the same variant name.
pub proof fn lemma_same_variant(a: Seq<char>, b: Seq<char>)
    requires
        same_body(a, b),
    ensures
        variant_line(a) == variant_line(b),
{
    lemma_same_body(a, b);
    let i = indent_end(a);
    let j = indent_end(b);
    lemma_aligned(a, i, b, j);
    lemma_aligned_run(a, i, b, j, word_class());
    lemma_run_end(a, i, word_class());
    lemma_aligned_range(a, i, b, j, 0, run_end(a, i, word_class()) - i);
}

/// The same head stands at aligned places of both lines.
pub proof fn lemma_aligned_head(a: Seq<char>, i: int, b: Seq<char>, j: int, kw: Seq<char>)
    requires
        aligned(a, i, b, j),
    ensures
        head_at(a, i, kw) == head_at(b, j, kw),
{
    lemma_aligned_starts(a, i, b, j, "experimental"@);
    let a1 = after_flag(a, i, "experimental"@);
    let b1 = after_flag(b, j, "experimental"@);
    lemma_aligned_starts(a, a1, b, b1, "deprecated"@);
    let a2 = after_flag(a, a1, "deprecated"@);
    let b2 = after_flag(b, b1, "deprecated"@);
    lemma_aligned_starts(a, a2, b, b2, kw);
    if word_at(a, a2, kw) {
        lemma_aligned(a, a2, b, b2);
        lemma_aligned_range(a, a2, b, b2, (kw.len() + 1) as int, a.len() - a2);
        lemma_aligned_on(a, a2, b, b2, (kw.len() + 1) as int);
        lemma_aligned_run(a, a2 + kw.len() + 1, b, b2 + kw.len() + 1, word_class());
    }
}

/// Lines with the same body hold the same head of a command or an event.
pub proof fn lemma_same_member(a: Seq<char>, b: Seq<char>, kw: Seq<char>)
    requires
        same_body(a, b),
    ensures
        member_head(a, kw) == member_head(b, kw),
{
    lemma_same_body(a, b);
    lemma_aligned_head(a, indent_end(a), b, indent_end(b), kw);
}

/// Lines with the same body hold the same head of a parameter.
pub proof fn lemma_same_param(a: Seq<char>, b: Seq<char>)
    requires
        same_body(a, b),
    ensures
        param_head(a) == param_head(b),
{
    lemma_same_body(a, b);
    let i = indent_end(a);
    let j = indent_end(b);
    lemma_aligned_starts(a, i, b, j, "experimental"@);
    let a1 = after_flag(a, i, "experimental"@);
    let b1 = after_flag(b, j, "experimental"@);
    lemma_aligned_starts(a, a1, b, b1, "deprecated"@);
    let a2 = after_flag(a, a1, "deprecated"@);
    let b2 = after_flag(b, b1, "deprecated"@);
    lemma_aligned_starts(a, a2, b, b2, "optional"@);
    let a3 = after_flag(a, a2, "optional"@);
    let b3 = after_flag(b, b2, "optional"@);
    lemma_aligned_type(a, a3, b, b3);
    let a4 = type_end(a, a3);
    let b4 = type_end(b, b3);
    lemma_type_end(a, a3);
    lemma_aligned(a, a4, b, b4);
    if a4 < a.len() {
        assert(a[a4 + 0] == b[b4 + 0]);
        lemma_aligned_on(a, a4, b, b4, 1);
        lemma_aligned_run(a, a4 + 1, b, b4 + 1, word_class());
        lemma_run_end(a, a4 + 1, word_class());
        lemma_aligned_range(a, a4 + 1, b, b4 + 1, 0, run_end(a, a4 + 1, word_class()) - a4 - 1);
    }
}

/// Lines with the same body hold the same head of a type definition.
pub proof fn lemma_same_type_head(a: Seq<char>, b: Seq<char>)
    requires
        same_body(a, b),
    ensures
        type_head(a) == type_head(b),
{
    lemma_same_body(a, b);
    let i = indent_end(a);
    let j = indent_end(b);
    lemma_aligned_starts(a, i, b, j, "experimental"@);
    let a1 = after_flag(a, i, "experimental"@);
    let b1 = after_flag(b, j, "experimental"@);
    lemma_aligned_starts(a, a1, b, b1, "deprecated"@);
    let a2 = after_flag(a, a1, "deprecated"@);
    let b2 = after_flag(b, b1, "deprecated"@);
    lemma_aligned_starts(a, a2, b, b2, "optional"@);
    let a3 = after_flag(a, a2, "optional"@);
    let b3 = after_flag(b, b2, "optional"@);
    lemma_aligned_starts(a, a3, b, b3, "type"@);
    if word_at(a, a3, "type"@) {
        let a4 = a3 + "type"@.len() + 1;
        let b4 = b3 + "type"@.len() + 1;
        lemma_aligned_on(a, a3, b, b3, ("type"@.len() + 1) as int);
        lemma_aligned_run(a, a4, b, b4, word_class());
        lemma_run_end(a, a4, word_class());
        let a5 = run_end(a, a4, word_class());
        let b5 = run_end(b, b4, word_class());
        lemma_aligned_range(a, a4, b, b4, 0, a5 - a4);
        lemma_aligned(a, a5, b, b5);
        if a5 < a.len() {
            assert(a[a5 + 0] == b[b5 + 0]);
            lemma_aligned_on(a, a5, b, b5, 1);
            lemma_aligned_starts(a, a5 + 1, b, b5 + 1, "extends"@);
            if word_at(a, a5 + 1, "extends"@) {
                let a6 = a5 + 1 + "extends"@.len() + 1;
                let b6 = b5 + 1 + "extends"@.len() + 1;
                lemma_aligned_on(a, a5 + 1, b, b5 + 1, ("extends"@.len() + 1) as int);
                lemma_aligned_type(a, a6, b, b6);
            }
        }
    }
}

} // verus!
