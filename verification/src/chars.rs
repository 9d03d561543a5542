//! Characters and runs of characters: the classes the grammar tells apart,
//! trimming, decimal numbers, and the passage between strings and vectors
//! of characters.

use vstd::prelude::*;
use vstd::std_specs::iter::IteratorSpec;

verus! {

/// A space or a tab: what indentation is made of.
pub open spec fn is_blank(c: char) -> bool {
    c == ' ' || c == '\t'
}

/// A character with Unicode's White_Space property.
pub open spec fn is_space(c: char) -> bool {
    let n = c as u32;
    (0x09 <= n <= 0x0d) || n == 0x20 || n == 0x85 || n == 0xa0 || n == 0x1680 || (0x2000 <= n
        <= 0x200a) || n == 0x2028 || n == 0x2029 || n == 0x202f || n == 0x205f || n == 0x3000
}

/// A decimal digit.
pub open spec fn is_digit(c: char) -> bool {
    '0' <= c <= '9'
}

/// Tells whether `c` is a space or a tab.
pub fn blank(c: char) -> (r: bool)
    ensures
        r == is_blank(c),
{
    c == ' ' || c == '\t'
}

/// Tells whether `c` is white space.
pub fn whitespace(c: char) -> (r: bool)
    ensures
        r == is_space(c),
{
    let n: u32 = c as u32;
    (0x09 <= n && n <= 0x0d) || n == 0x20 || n == 0x85 || n == 0xa0 || n == 0x1680 || (0x2000 <= n
        && n <= 0x200a) || n == 0x2028 || n == 0x2029 || n == 0x202f || n == 0x205f || n == 0x3000
}

/// Tells whether `c` is a decimal digit.
pub fn digit(c: char) -> (r: bool)
    ensures
        r == is_digit(c),
{
    '0' <= c && c <= '9'
}

/// `String::push` appends one character.
pub assume_specification[ std::string::String::push ](s: &mut std::string::String, c: char)
    ensures
        final(s)@ == old(s)@.push(c),
;

/// The characters of a string, in order.
pub fn to_chars(s: &str) -> (v: Vec<char>)
    ensures
        v@ == s@,
{
    let mut v: Vec<char> = Vec::new();
    for c in it: s.chars()
        invariant
            it.seq() == s@,
            v@ == it.seq().subrange(0, it.index() as int),
    {
        v.push(c);
        assert(it.seq().subrange(0, it.index() + 1) =~= it.seq().subrange(0, it.index() as int).push(
            c,
        ));
    }
    assert(v@ =~= s@);
    v
}

/// The string made of the characters of `v` from `from` up to `to`.
pub fn string_of(v: &Vec<char>, from: usize, to: usize) -> (s: String)
    requires
        from <= to <= v.len(),
    ensures
        s@ == v@.subrange(from as int, to as int),
{
    let mut s = String::new();
    let mut i: usize = from;
    while i < to
        invariant
            from <= i <= to <= v.len(),
            s@ == v@.subrange(from as int, i as int),
        decreases to - i,
    {
        s.push(v[i]);
        i += 1;
        assert(v@.subrange(from as int, i as int) =~= v@.subrange(from as int, i - 1).push(
            v@[i - 1],
        ));
    }
    s
}

/// The class of spaces and tabs.
pub open spec fn blank_class() -> spec_fn(char) -> bool {
    |c: char| is_blank(c)
}

/// The class of characters that are not white space: what a bare word is made of.
pub open spec fn word_class() -> spec_fn(char) -> bool {
    |c: char| !is_space(c)
}

/// The class of white space.
pub open spec fn space_class() -> spec_fn(char) -> bool {
    |c: char| is_space(c)
}

/// The class of decimal digits.
pub open spec fn digit_class() -> spec_fn(char) -> bool {
    |c: char| is_digit(c)
}

/// Where the longest run of characters of class `p` that starts at `i` ends.
pub open spec fn run_end(s: Seq<char>, i: int, p: spec_fn(char) -> bool) -> int
    decreases s.len() - i,
{
    if 0 <= i < s.len() && p(s[i]) {
        run_end(s, i + 1, p)
    } else {
        i
    }
}

/// A run ends within the sequence, holds only characters of its class, and
/// stops at the first character outside it.
pub proof fn lemma_run_end(s: Seq<char>, i: int, p: spec_fn(char) -> bool)
    requires
        0 <= i <= s.len(),
    ensures
        i <= run_end(s, i, p) <= s.len(),
        forall|k: int| i <= k < run_end(s, i, p) ==> p(#[trigger] s[k]),
        run_end(s, i, p) < s.len() ==> !p(s[run_end(s, i, p)]),
    decreases s.len() - i,
{
    if i < s.len() && p(s[i]) {
        lemma_run_end(s, i + 1, p);
    }
}

/// A run that is known to reach `j` and to stop there ends at `j`.
pub proof fn lemma_run_end_is(s: Seq<char>, i: int, j: int, p: spec_fn(char) -> bool)
    requires
        0 <= i <= j <= s.len(),
        forall|k: int| i <= k < j ==> p(#[trigger] s[k]),
        j < s.len() ==> !p(s[j]),
    ensures
        run_end(s, i, p) == j,
    decreases j - i,
{
    if i < j {
        lemma_run_end_is(s, i + 1, j, p);
    }
}

/// Where the white space that ends at `j` begins, looking no further back than `lo`.
pub open spec fn back_start(s: Seq<char>, lo: int, j: int) -> int
    decreases j,
{
    if lo < j <= s.len() && 0 < j && is_space(s[j - 1]) {
        back_start(s, lo, j - 1)
    } else {
        j
    }
}

/// The white space found by `back_start` lies between `lo` and `j`, and the
/// character before it, if any is left, is not white space.
pub proof fn lemma_back_start(s: Seq<char>, lo: int, j: int)
    requires
        0 <= lo <= j <= s.len(),
    ensures
        lo <= back_start(s, lo, j) <= j,
        lo < back_start(s, lo, j) ==> !is_space(s[back_start(s, lo, j) - 1]),
    decreases j,
{
    if lo < j && is_space(s[j - 1]) {
        lemma_back_start(s, lo, j - 1);
    }
}

/// The characters of `s` from `i` on, without the white space at both ends.
pub open spec fn trimmed_from(s: Seq<char>, i: int) -> Seq<char> {
    let a = run_end(s, i, space_class());
    let b = back_start(s, a, s.len() as int);
    s.subrange(a, b)
}

/// A text with no white space at either end.
pub open spec fn is_trimmed(t: Seq<char>) -> bool {
    t.len() > 0 ==> !is_space(t[0]) && !is_space(t.last())
}

/// What `trimmed_from` gives has no white space at either end.
pub proof fn lemma_trimmed_from(s: Seq<char>, i: int)
    requires
        0 <= i <= s.len(),
    ensures
        is_trimmed(trimmed_from(s, i)),
{
    let a = run_end(s, i, space_class());
    lemma_run_end(s, i, space_class());
    lemma_back_start(s, a, s.len() as int);
}

/// The end of the run of spaces and tabs that starts at `i`.
pub fn skip_blanks(v: &Vec<char>, i: usize) -> (j: usize)
    requires
        i <= v.len(),
    ensures
        j == run_end(v@, i as int, blank_class()),
        i <= j <= v.len(),
{
    let mut j: usize = i;
    while j < v.len() && blank(v[j])
        invariant
            i <= j <= v.len(),
            run_end(v@, i as int, blank_class()) == run_end(v@, j as int, blank_class()),
        decreases v.len() - j,
    {
        j += 1;
    }
    j
}

/// The end of the bare word that starts at `i`.
pub fn skip_word(v: &Vec<char>, i: usize) -> (j: usize)
    requires
        i <= v.len(),
    ensures
        j == run_end(v@, i as int, word_class()),
        i <= j <= v.len(),
{
    let mut j: usize = i;
    while j < v.len() && !whitespace(v[j])
        invariant
            i <= j <= v.len(),
            run_end(v@, i as int, word_class()) == run_end(v@, j as int, word_class()),
        decreases v.len() - j,
    {
        j += 1;
    }
    j
}

/// The end of the white space that starts at `i`.
pub fn skip_spaces(v: &Vec<char>, i: usize) -> (j: usize)
    requires
        i <= v.len(),
    ensures
        j == run_end(v@, i as int, space_class()),
        i <= j <= v.len(),
{
    let mut j: usize = i;
    while j < v.len() && whitespace(v[j])
        invariant
            i <= j <= v.len(),
            run_end(v@, i as int, space_class()) == run_end(v@, j as int, space_class()),
        decreases v.len() - j,
    {
        j += 1;
    }
    j
}

/// The end of the run of digits that starts at `i`.
pub fn skip_digits(v: &Vec<char>, i: usize) -> (j: usize)
    requires
        i <= v.len(),
    ensures
        j == run_end(v@, i as int, digit_class()),
        i <= j <= v.len(),
{
    let mut j: usize = i;
    while j < v.len() && digit(v[j])
        invariant
            i <= j <= v.len(),
            run_end(v@, i as int, digit_class()) == run_end(v@, j as int, digit_class()),
        decreases v.len() - j,
    {
        j += 1;
    }
    j
}

/// The text of `v` from `i` on, without the white space at both ends.
pub fn trimmed(v: &Vec<char>, i: usize) -> (s: String)
    requires
        i <= v.len(),
    ensures
        s@ == trimmed_from(v@, i as int),
{
    let a = skip_spaces(v, i);
    let mut b: usize = v.len();
    while a < b && whitespace(v[b - 1])
        invariant
            a <= b <= v.len(),
            back_start(v@, a as int, v@.len() as int) == back_start(v@, a as int, b as int),
        decreases b,
    {
        b -= 1;
    }
    string_of(v, a, b)
}

/// The number that a digit stands for.
pub open spec fn digit_value(c: char) -> nat {
    (c as u32 - '0' as u32) as nat
}

/// The number that a run of digits writes in base ten.
pub open spec fn number_value(s: Seq<char>) -> nat
    decreases s.len(),
{
    if s.len() == 0 {
        0
    } else {
        number_value(s.drop_last()) * 10 + digit_value(s.last())
    }
}

/// The digit that stands for a number below ten.
pub open spec fn digit_char(d: nat) -> char {
    if d == 0 {
        '0'
    } else if d == 1 {
        '1'
    } else if d == 2 {
        '2'
    } else if d == 3 {
        '3'
    } else if d == 4 {
        '4'
    } else if d == 5 {
        '5'
    } else if d == 6 {
        '6'
    } else if d == 7 {
        '7'
    } else if d == 8 {
        '8'
    } else {
        '9'
    }
}

/// A number in base ten, without leading zeros.
pub open spec fn decimal(n: nat) -> Seq<char>
    decreases n,
{
    if n < 10 {
        seq![digit_char(n)]
    } else {
        decimal(n / 10).push(digit_char(n % 10))
    }
}

/// All characters of `s` are digits.
pub open spec fn all_digits(s: Seq<char>) -> bool {
    forall|k: int| 0 <= k < s.len() ==> is_digit(#[trigger] s[k])
}

/// The decimal form of a number is a non-empty run of digits that writes that number.
pub proof fn lemma_decimal(n: nat)
    ensures
        decimal(n).len() > 0,
        all_digits(decimal(n)),
        number_value(decimal(n)) == n,
    decreases n,
{
    if n < 10 {
        let s = seq![digit_char(n)];
        assert(s.drop_last() =~= Seq::<char>::empty());
        assert(number_value(s.drop_last()) == 0);
        assert(s.last() == digit_char(n));
    } else {
        lemma_decimal(n / 10);
        let s = decimal(n / 10).push(digit_char(n % 10));
        assert(s.drop_last() =~= decimal(n / 10));
        assert(s.last() == digit_char(n % 10));
        assert(digit_value(digit_char(n % 10)) == n % 10);
        assert forall|k: int| 0 <= k < s.len() implies is_digit(#[trigger] s[k]) by {
            if k < s.len() - 1 {
                assert(s[k] == decimal(n / 10)[k]);
            }
        }
    }
}

/// A run of digits writes a number no smaller than any of its prefixes does.
pub proof fn lemma_number_prefix(s: Seq<char>, k: int)
    requires
        0 <= k <= s.len(),
    ensures
        number_value(s.subrange(0, k)) <= number_value(s),
    decreases s.len(),
{
    if k == s.len() {
        assert(s.subrange(0, k) =~= s);
    } else {
        lemma_number_prefix(s.drop_last(), k);
        assert(s.drop_last().subrange(0, k) =~= s.subrange(0, k));
    }
}

/// The number that the digits of `v` from `from` up to `to` write, unless it
/// is too large for the machine.
pub fn number(v: &Vec<char>, from: usize, to: usize) -> (r: Option<usize>)
    requires
        from <= to <= v.len(),
        all_digits(v@.subrange(from as int, to as int)),
    ensures
        match r {
            Some(n) => n == number_value(v@.subrange(from as int, to as int)),
            None => number_value(v@.subrange(from as int, to as int)) > usize::MAX,
        },
{
    let ghost whole = v@.subrange(from as int, to as int);
    let mut acc: usize = 0;
    let mut i: usize = from;
    while i < to
        invariant
            from <= i <= to <= v.len(),
            whole == v@.subrange(from as int, to as int),
            all_digits(whole),
            acc == number_value(whole.subrange(0, i - from)),
        decreases to - i,
    {
        let c = v[i];
        assert(c == whole[i - from]);
        assert(is_digit(c));
        let d: usize = (c as u32 - '0' as u32) as usize;
        proof {
            let next = whole.subrange(0, i + 1 - from);
            assert(next.drop_last() =~= whole.subrange(0, i - from));
            assert(next.last() == c);
            assert(number_value(next) == acc * 10 + d);
            lemma_number_prefix(whole, i + 1 - from);
        }
        let tens = match acc.checked_mul(10) {
            Some(t) => t,
            None => {
                return None;
            },
        };
        acc = match tens.checked_add(d) {
            Some(t) => t,
            None => {
                return None;
            },
        };
        i += 1;
    }
    assert(whole.subrange(0, to - from) =~= whole);
    Some(acc)
}

/// The digit that stands for `d`.
fn digit_of(d: usize) -> (c: char)
    requires
        d < 10,
    ensures
        c == digit_char(d as nat),
{
    if d == 0 {
        '0'
    } else if d == 1 {
        '1'
    } else if d == 2 {
        '2'
    } else if d == 3 {
        '3'
    } else if d == 4 {
        '4'
    } else if d == 5 {
        '5'
    } else if d == 6 {
        '6'
    } else if d == 7 {
        '7'
    } else if d == 8 {
        '8'
    } else {
        '9'
    }
}

/// Appends `n` in base ten to `out`.
pub fn push_decimal(out: &mut String, n: usize)
    ensures
        final(out)@ == old(out)@ + decimal(n as nat),
    decreases n,
{
    if n < 10 {
        out.push(digit_of(n));
        assert(old(out)@.push(digit_char(n as nat)) =~= old(out)@ + decimal(n as nat));
    } else {
        push_decimal(out, n / 10);
        out.push(digit_of(n % 10));
        assert(out@ =~= old(out)@ + decimal(n as nat));
    }
}

} // verus!
