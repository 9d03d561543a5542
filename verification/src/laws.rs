//! What reading and writing have to do with each other: a document that
//! was read and is written as canonical text is read from it again as it was.

use crate::canon::{no_newline, starts_plain};
use crate::clean::lemma_clean_protocol;
use crate::chars::{blank_class, decimal, digit_class, is_digit, lemma_decimal, lemma_run_end_is};
use crate::grammar::{
    blanks_end, line_class, lines_from, lines_of, protocol_at, version_at, Construct,
};
use crate::line::{is_comment, number_line};
use crate::model::{DomainView, Lines, ProtocolView, VersionView};
use crate::parse::parse_spec;
use crate::reparse::{holds, lemma_desc, lemma_holds_pads, lemma_holds_split};
use crate::reparse_domain::{lemma_domains, writable_domains};
use crate::text::{
    comment_lines, domain_part, flat_map, protocol_lines, render_text_spec, text_of, version_lines,
};
use crate::wellformed::{clean, lemma_lines_clean, lemma_protocol_wf, wf_protocol};
use vstd::prelude::*;

verus! {

/// A line with a number that was written reads as that number.
pub proof fn lemma_number_line(l: Seq<char>, kw: Seq<char>, n: nat)
    requires
        starts_plain(kw),
        l == "  "@ + kw.push(' ') + decimal(n),
        n <= usize::MAX,
    ensures
        number_line(l, kw) == Some(n),
{
    reveal_strlit("  ");
    lemma_decimal(n);
    let digits = decimal(n);
    let w = kw.len() as int;
    let a = 3 + w;
    assert(l.len() == a + digits.len());
    assert(l[0] == ' ' && l[1] == ' ');
    assert(l[2] == kw[0]);
    assert forall|k: int| 0 <= k < 2 implies blank_class()(#[trigger] l[k]) by {}
    assert(!blank_class()(l[2]));
    lemma_run_end_is(l, 0, 2, blank_class());
    assert(l.subrange(2, 2 + w) =~= kw);
    assert(l[2 + w] == ' ');
    assert forall|k: int| a <= k < l.len() implies digit_class()(#[trigger] l[k]) by {
        assert(l[k] == digits[k - a]);
        assert(is_digit(digits[k - a]));
    }
    lemma_run_end_is(l, a, l.len() as int, digit_class());
    assert(l.subrange(a, l.len() as int) =~= digits);
}

/// The line `version` is no comment and not empty, and the lines of the
/// numbers are written with their keywords.
proof fn lemma_version_words()
    ensures
        !is_comment("version"@),
        "version"@.len() > 0,
        starts_plain("major"@),
        starts_plain("minor"@),
        "  major "@ == "  "@ + "major"@.push(' '),
        "  minor "@ == "  "@ + "minor"@.push(' '),
{
    reveal_strlit("version");
    reveal_strlit("major");
    reveal_strlit("minor");
    reveal_strlit("  ");
    reveal_strlit("  major ");
    reveal_strlit("  minor ");
    assert(!blank_class()("version"@[0]));
    lemma_run_end_is("version"@, 0, 0, blank_class());
    assert("  major "@ =~= "  "@ + "major"@.push(' '));
    assert("  minor "@ =~= "  "@ + "minor"@.push(' '));
}

/// The version block that was written is read as it was.
pub proof fn lemma_version(lines: Lines, i: int, v: VersionView)
    requires
        holds(lines, i, version_lines(v).push(Seq::empty())),
        v.major <= usize::MAX,
        v.minor <= usize::MAX,
    ensures
        version_at(lines, i) == Some(v),
        0 <= i,
        i + 3 < lines.len(),
        lines[i].len() > 0,
        !is_comment(lines[i]),
        lines[i + 3].len() == 0,
{
    reveal(holds);
    lemma_version_words();
    let part = version_lines(v).push(Seq::empty());
    assert(lines[i + 0] == part[0]);
    assert(lines[i + 1] == part[1]);
    assert(lines[i + 2] == part[2]);
    assert(lines[i + 3] == part[3]);
    lemma_number_line(lines[i + 1], "major"@, v.major);
    lemma_number_line(lines[i + 2], "minor"@, v.minor);
}

/// Every set of lines holds itself.
pub proof fn lemma_holds_self(lines: Lines)
    ensures
        holds(lines, 0, lines),
{
    reveal(holds);
}

/// A document as reading gives it is read from its canonical lines as it
/// was, unless the returns of one of its commands follow an enumeration.
pub proof fn lemma_protocol(p: ProtocolView)
    requires
        wf_protocol(p),
        writable_domains(p.domains),
    ensures
        protocol_at(protocol_lines(p)) is Read,
        protocol_at(protocol_lines(p))->Read_0 == p,
{
    let lines = protocol_lines(p);
    let d = comment_lines(p.description);
    let v = version_lines(p.version).push(Seq::empty());
    let ds = flat_map(p.domains, domain_part());
    lemma_holds_self(lines);
    lemma_holds_split(lines, 0, d + v, ds);
    lemma_holds_split(lines, 0, d, v);
    let a = d.len() as int;
    lemma_version(lines, a, p.version);
    lemma_holds_pads(lines, 0, d);
    lemma_desc(lines, 0, p.description);
    assert(blanks_end(lines, a) == a);
    assert(blanks_end(lines, a + 3) == blanks_end(lines, a + 4));
    lemma_domains(lines, a + 3, a + 4, p.domains, Seq::empty());
    assert(Seq::<DomainView>::empty() + p.domains =~= p.domains);
}

/// The lines of the text that is made of lines without a newline are
/// those lines.
pub proof fn lemma_lines_from_text(s: Seq<char>, i: int, rest: Lines, acc: Lines)
    requires
        0 <= i <= s.len(),
        s.subrange(i, s.len() as int) == text_of(rest),
        clean(rest),
    ensures
        lines_from(s, i, acc) == acc + rest,
    decreases rest.len(),
{
    let tail = s.subrange(i, s.len() as int);
    if rest.len() == 0 {
        assert(tail.len() == 0);
        assert(acc + rest =~= acc);
    } else {
        let first = rest[0];
        let others = rest.drop_first();
        assert(text_of(rest) == first.push('\n') + text_of(others));
        let k = i + first.len();
        assert forall|x: int| i <= x < k implies line_class()(#[trigger] s[x]) by {
            assert(tail[x - i] == s[x]);
            assert((first.push('\n') + text_of(others))[x - i] == first[x - i]);
            assert(no_newline(first));
        }
        assert(s[k] == '\n') by {
            assert(tail[k - i] == s[k]);
            assert((first.push('\n') + text_of(others))[k - i] == '\n');
        }
        lemma_run_end_is(s, i, k, line_class());
        assert(s.subrange(i, k) =~= first) by {
            assert forall|x: int| 0 <= x < first.len() implies s[i + x] == first[x] by {
                assert(tail[x] == s[i + x]);
                assert((first.push('\n') + text_of(others))[x] == first[x]);
            }
        }
        assert(s.subrange(k + 1, s.len() as int) =~= text_of(others)) by {
            assert forall|x: int| 0 <= x < text_of(others).len() implies s[k + 1 + x] == text_of(
                others,
            )[x] by {
                assert(tail[first.len() + 1 + x] == s[k + 1 + x]);
                assert((first.push('\n') + text_of(others))[first.len() + 1 + x] == text_of(
                    others,
                )[x]);
            }
        }
        assert forall|x: int| 0 <= x < others.len() implies no_newline(#[trigger] others[x]) by {
            assert(others[x] == rest[x + 1]);
        }
        lemma_lines_from_text(s, k + 1, others, acc.push(first));
        assert(acc.push(first) + others =~= acc + rest);
    }
}

/// The text made of lines without a newline is cut into those lines again.
pub proof fn lemma_text_lines(lines: Lines)
    requires
        clean(lines),
    ensures
        lines_of(text_of(lines)) == lines,
{
    let s = text_of(lines);
    assert(s.subrange(0, s.len() as int) =~= s);
    lemma_lines_from_text(s, 0, lines, Seq::empty());
    assert(Seq::<Seq<char>>::empty() + lines =~= lines);
}

/// No command of the document has both a last parameter that is an
/// enumeration and returns.
pub open spec fn writable(p: ProtocolView) -> bool {
    writable_domains(p.domains)
}

/// Reading, writing and reading again gives the same document: where a
/// text reads as a document, the canonical text of that document reads as
/// the same document again, whatever is left over.
///
/// The one exception is a document with a command whose last parameter is
/// an enumeration and which has returns. The canonical text puts no
/// empty line between the two, so that the line `returns` reads as one
/// more variant.
pub proof fn lemma_round_trip(text: Seq<char>, document: ProtocolView, rest: Seq<char>)
    requires
        parse_spec(text) == Ok::<(ProtocolView, Seq<char>), (int, Construct)>((document, rest)),
        writable(document),
    ensures
        parse_spec(render_text_spec(document)) matches Ok((again, _)) && again == document,
{
    lemma_lines_clean(text);
    lemma_protocol_wf(lines_of(text));
    lemma_clean_protocol(document);
    lemma_text_lines(protocol_lines(document));
    lemma_protocol(document);
}

} // verus!
