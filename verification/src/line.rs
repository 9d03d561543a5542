//! The grammar of single lines: what each kind of line looks like and what
//! it says. A line is given without the newline that ends it.

use crate::chars::{
    blank_class, digit_class, lemma_run_end, number, number_value, run_end, skip_blanks,
    skip_digits, skip_word, string_of, to_chars, trimmed, trimmed_from, word_class,
};
use crate::model::{Type, TypeView};
use vstd::prelude::*;
use vstd::string::*;

verus! {

/// The text `kw` stands in `l` at `i`.
pub open spec fn starts_at(l: Seq<char>, i: int, kw: Seq<char>) -> bool {
    0 <= i && i + kw.len() <= l.len() && l.subrange(i, i + kw.len()) == kw
}

/// The text `kw` stands in `l` at `i`, and one space follows it.
pub open spec fn word_at(l: Seq<char>, i: int, kw: Seq<char>) -> bool {
    starts_at(l, i, kw) && i + kw.len() < l.len() && l[i + kw.len()] == ' '
}

/// Where reading goes on after the optional modifier `kw` at `i`.
pub open spec fn after_flag(l: Seq<char>, i: int, kw: Seq<char>) -> int {
    if word_at(l, i, kw) {
        i + kw.len() + 1
    } else {
        i
    }
}

/// Where the indentation of `l` ends.
pub open spec fn indent_end(l: Seq<char>) -> int {
    run_end(l, 0, blank_class())
}

/// The line is indented by at least one space or tab.
pub open spec fn is_indented(l: Seq<char>) -> bool {
    indent_end(l) >= 1
}

/// The line is a comment: after optional indentation comes `#`.
pub open spec fn is_comment(l: Seq<char>) -> bool {
    indent_end(l) < l.len() && l[indent_end(l)] == '#'
}

/// The text of a comment line: what follows `#`, trimmed.
pub open spec fn comment_text(l: Seq<char>) -> Seq<char> {
    trimmed_from(l, indent_end(l) + 1)
}

/// The line is indented and holds the keyword `kw` and nothing else.
pub open spec fn is_keyword_line(l: Seq<char>, kw: Seq<char>) -> bool {
    is_indented(l) && l.subrange(indent_end(l), l.len() as int) == kw
}

/// The number on an indented line `kw <digits>`, if the line has that form
/// and the number fits the machine.
pub open spec fn number_line(l: Seq<char>, kw: Seq<char>) -> Option<nat> {
    let i = indent_end(l);
    let a = i + kw.len() + 1;
    let b = run_end(l, a, digit_class());
    if is_indented(l) && word_at(l, i, kw) && a < b && b == l.len() && number_value(
        l.subrange(a, b),
    ) <= usize::MAX {
        Some(number_value(l.subrange(a, b)))
    } else {
        None
    }
}

/// The bare word on an indented line `kw <word>`, if the line has that form.
pub open spec fn named_line(l: Seq<char>, kw: Seq<char>) -> Option<Seq<char>> {
    let i = indent_end(l);
    let a = i + kw.len() + 1;
    let b = run_end(l, a, word_class());
    if is_indented(l) && word_at(l, i, kw) && b == l.len() {
        Some(l.subrange(a, b))
    } else {
        None
    }
}

/// The name on an indented line that holds one bare word and nothing else.
pub open spec fn variant_line(l: Seq<char>) -> Option<Seq<char>> {
    let i = indent_end(l);
    let b = run_end(l, i, word_class());
    if is_indented(l) && i < b && b == l.len() {
        Some(l.subrange(i, b))
    } else {
        None
    }
}

/// What the head line of a domain, a command or an event says.
pub struct HeadView {
    pub experimental: bool,
    pub deprecated: bool,
    pub name: Seq<char>,
}

/// The head that starts at `i`: the optional modifiers in their order, the
/// keyword `kw`, a space, and the name, a bare word that ends the line.
pub open spec fn head_at(l: Seq<char>, i: int, kw: Seq<char>) -> Option<HeadView> {
    let a = after_flag(l, i, "experimental"@);
    let b = after_flag(l, a, "deprecated"@);
    if word_at(l, b, kw) && run_end(l, b + kw.len() + 1, word_class()) == l.len() {
        Some(
            HeadView {
                experimental: word_at(l, i, "experimental"@),
                deprecated: word_at(l, a, "deprecated"@),
                name: l.subrange(b + kw.len() + 1, l.len() as int),
            },
        )
    } else {
        None
    }
}

/// The head line of a domain, which is not indented.
pub open spec fn domain_head(l: Seq<char>) -> Option<HeadView> {
    head_at(l, 0, "domain"@)
}

/// The head line of a command or an event, which is indented.
pub open spec fn member_head(l: Seq<char>, kw: Seq<char>) -> Option<HeadView> {
    if is_indented(l) {
        head_at(l, indent_end(l), kw)
    } else {
        None
    }
}

/// The type that a bare word names.
pub open spec fn scalar_type(word: Seq<char>) -> TypeView {
    if word == "enum"@ {
        TypeView::Enum(Seq::empty())
    } else if word == "integer"@ {
        TypeView::Integer
    } else if word == "number"@ {
        TypeView::Number
    } else if word == "boolean"@ {
        TypeView::Boolean
    } else if word == "string"@ {
        TypeView::String
    } else if word == "object"@ {
        TypeView::Object
    } else if word == "any"@ {
        TypeView::Any
    } else if word == "binary"@ {
        TypeView::Binary
    } else {
        TypeView::Ref(word)
    }
}

/// The type written at `i`: any number of `array of ` prefixes and a bare word.
pub open spec fn type_at(l: Seq<char>, i: int) -> TypeView
    decreases l.len() - i,
{
    if word_at(l, i, "array of"@) {
        TypeView::ArrayOf(Box::new(type_at(l, i + "array of"@.len() + 1)))
    } else {
        scalar_type(l.subrange(i, run_end(l, i, word_class())))
    }
}

/// Where the type written at `i` ends.
pub open spec fn type_end(l: Seq<char>, i: int) -> int
    decreases l.len() - i,
{
    if word_at(l, i, "array of"@) {
        type_end(l, i + "array of"@.len() + 1)
    } else {
        run_end(l, i, word_class())
    }
}

/// What the head line of a type definition says.
pub struct TypeHeadView {
    pub experimental: bool,
    pub deprecated: bool,
    pub id: Seq<char>,
    pub extends: TypeView,
}

/// The head line of a type definition: indentation, the optional modifiers,
/// `type <id> extends <type>`. An `optional` modifier is read and not kept.
pub open spec fn type_head(l: Seq<char>) -> Option<TypeHeadView> {
    let i = indent_end(l);
    let a = after_flag(l, i, "experimental"@);
    let b = after_flag(l, a, "deprecated"@);
    let c = after_flag(l, b, "optional"@);
    let d = c + "type"@.len() + 1;
    let e = run_end(l, d, word_class());
    let f = e + 1 + "extends"@.len() + 1;
    if is_indented(l) && word_at(l, c, "type"@) && e < l.len() && l[e] == ' ' && word_at(
        l,
        e + 1,
        "extends"@,
    ) && type_end(l, f) == l.len() {
        Some(
            TypeHeadView {
                experimental: word_at(l, i, "experimental"@),
                deprecated: word_at(l, a, "deprecated"@),
                id: l.subrange(d, e),
                extends: type_at(l, f),
            },
        )
    } else {
        None
    }
}

/// What the head line of a parameter says.
pub struct ParamHeadView {
    pub experimental: bool,
    pub deprecated: bool,
    pub optional: bool,
    pub ty: TypeView,
    pub name: Seq<char>,
}

/// The head line of a parameter: indentation, the optional modifiers, the
/// type, a space, and the name, a bare word that ends the line.
pub open spec fn param_head(l: Seq<char>) -> Option<ParamHeadView> {
    let i = indent_end(l);
    let a = after_flag(l, i, "experimental"@);
    let b = after_flag(l, a, "deprecated"@);
    let c = after_flag(l, b, "optional"@);
    let e = type_end(l, c);
    let f = run_end(l, e + 1, word_class());
    if is_indented(l) && e < l.len() && l[e] == ' ' && e + 1 < f && f == l.len() {
        Some(
            ParamHeadView {
                experimental: word_at(l, i, "experimental"@),
                deprecated: word_at(l, a, "deprecated"@),
                optional: word_at(l, b, "optional"@),
                ty: type_at(l, c),
                name: l.subrange(e + 1, f),
            },
        )
    } else {
        None
    }
}

/// The type written at `i` ends within the line.
pub proof fn lemma_type_end(l: Seq<char>, i: int)
    requires
        0 <= i <= l.len(),
    ensures
        i <= type_end(l, i) <= l.len(),
    decreases l.len() - i,
{
    if word_at(l, i, "array of"@) {
        lemma_type_end(l, i + "array of"@.len() + 1);
    } else {
        lemma_run_end(l, i, word_class());
    }
}

/// Tells whether the text `kw` stands in `line` at `i`.
pub fn has_at(line: &Vec<char>, i: usize, kw: &str) -> (r: bool)
    requires
        i <= line.len(),
    ensures
        r == starts_at(line@, i as int, kw@),
{
    let n = kw.unicode_len();
    if n > line.len() - i {
        return false;
    }
    let mut k: usize = 0;
    while k < n
        invariant
            k <= n,
            i + n <= line.len(),
            n == kw@.len(),
            forall|m: int| 0 <= m < k ==> line@[i + m] == kw@[m],
        decreases n - k,
    {
        if line[i + k] != kw.get_char(k) {
            assert(line@.subrange(i as int, i + n)[k as int] != kw@[k as int]);
            return false;
        }
        k += 1;
    }
    assert(line@.subrange(i as int, i + n) =~= kw@);
    true
}

/// Where reading goes on after the text `kw` and one space, if they stand at `i`.
pub fn word_after(line: &Vec<char>, i: usize, kw: &str) -> (r: Option<usize>)
    requires
        i <= line.len(),
    ensures
        match r {
            Some(j) => word_at(line@, i as int, kw@) && j == i + kw@.len() + 1 && j
                <= line.len(),
            None => !word_at(line@, i as int, kw@),
        },
{
    if has_at(line, i, kw) {
        let n = kw.unicode_len();
        if i + n < line.len() && line[i + n] == ' ' {
            return Some(i + n + 1);
        }
    }
    None
}

/// Reads the optional modifier `kw` at `i`: whether it is there, and where
/// reading goes on.
pub fn read_flag(line: &Vec<char>, i: usize, kw: &str) -> (r: (bool, usize))
    requires
        i <= line.len(),
    ensures
        r.0 == word_at(line@, i as int, kw@),
        r.1 == after_flag(line@, i as int, kw@),
        i <= r.1 <= line.len(),
{
    match word_after(line, i, kw) {
        Some(j) => (true, j),
        None => (false, i),
    }
}

/// Tells whether the characters of `line` from `i` up to `j` are the text `kw`.
pub fn range_is(line: &Vec<char>, i: usize, j: usize, kw: &str) -> (r: bool)
    requires
        i <= j <= line.len(),
    ensures
        r == (line@.subrange(i as int, j as int) == kw@),
{
    let n = kw.unicode_len();
    if j - i != n {
        assert(line@.subrange(i as int, j as int).len() != kw@.len());
        return false;
    }
    has_at(line, i, kw)
}

/// Reads a comment line: its text, or nothing where the line is no comment.
pub fn read_comment(line: &Vec<char>) -> (r: Option<String>)
    ensures
        match r {
            Some(t) => is_comment(line@) && t@ == comment_text(line@),
            None => !is_comment(line@),
        },
{
    let i = skip_blanks(line, 0);
    if i < line.len() && line[i] == '#' {
        Some(trimmed(line, i + 1))
    } else {
        None
    }
}

/// Tells whether the line is indented and holds the keyword `kw` and nothing else.
pub fn read_keyword(line: &Vec<char>, kw: &str) -> (r: bool)
    ensures
        r == is_keyword_line(line@, kw@),
{
    let i = skip_blanks(line, 0);
    i >= 1 && range_is(line, i, line.len(), kw)
}

/// Reads an indented line `kw <digits>`.
pub fn read_number(line: &Vec<char>, kw: &str) -> (r: Option<usize>)
    ensures
        match r {
            Some(n) => number_line(line@, kw@) == Some(n as nat),
            None => number_line(line@, kw@) is None,
        },
{
    let i = skip_blanks(line, 0);
    if i < 1 {
        return None;
    }
    match word_after(line, i, kw) {
        Some(a) => {
            let b = skip_digits(line, a);
            if a < b && b == line.len() {
                proof {
                    lemma_run_end(line@, a as int, digit_class());
                    let digits = line@.subrange(a as int, b as int);
                    assert forall|k: int| 0 <= k < digits.len() implies crate::chars::is_digit(
                        #[trigger] digits[k],
                    ) by {
                        assert(digits[k] == line@[a + k]);
                        assert(digit_class()(line@[a + k]));
                    }
                }
                number(line, a, b)
            } else {
                None
            }
        },
        None => None,
    }
}

/// Reads an indented line `kw <word>`.
pub fn read_named(line: &Vec<char>, kw: &str) -> (r: Option<String>)
    ensures
        match r {
            Some(name) => named_line(line@, kw@) == Some(name@),
            None => named_line(line@, kw@) is None,
        },
{
    let i = skip_blanks(line, 0);
    if i < 1 {
        return None;
    }
    match word_after(line, i, kw) {
        Some(a) => {
            let b = skip_word(line, a);
            if b == line.len() {
                Some(string_of(line, a, b))
            } else {
                None
            }
        },
        None => None,
    }
}

/// Reads an indented line that holds one bare word.
pub fn read_variant(line: &Vec<char>) -> (r: Option<String>)
    ensures
        match r {
            Some(name) => variant_line(line@) == Some(name@),
            None => variant_line(line@) is None,
        },
{
    let i = skip_blanks(line, 0);
    if i < 1 {
        return None;
    }
    let b = skip_word(line, i);
    if i < b && b == line.len() {
        Some(string_of(line, i, b))
    } else {
        None
    }
}

/// The head line of a domain, a command or an event.
pub struct Head {
    pub experimental: bool,
    pub deprecated: bool,
    pub name: String,
}

impl View for Head {
    type V = HeadView;

    open spec fn view(&self) -> HeadView {
        HeadView { experimental: self.experimental, deprecated: self.deprecated, name: self.name@ }
    }
}

/// Reads the head that starts at `i`.
pub fn read_head(line: &Vec<char>, i: usize, kw: &str) -> (r: Option<Head>)
    requires
        i <= line.len(),
    ensures
        match r {
            Some(h) => head_at(line@, i as int, kw@) == Some(h@),
            None => head_at(line@, i as int, kw@) is None,
        },
{
    let (experimental, a) = read_flag(line, i, "experimental");
    let (deprecated, b) = read_flag(line, a, "deprecated");
    match word_after(line, b, kw) {
        Some(c) => {
            if skip_word(line, c) == line.len() {
                Some(Head { experimental, deprecated, name: string_of(line, c, line.len()) })
            } else {
                None
            }
        },
        None => None,
    }
}

/// Reads the head line of a domain.
pub fn read_domain_head(line: &Vec<char>) -> (r: Option<Head>)
    ensures
        match r {
            Some(h) => domain_head(line@) == Some(h@),
            None => domain_head(line@) is None,
        },
{
    read_head(line, 0, "domain")
}

/// Reads the head line of a command (`kw` is `command`) or an event (`event`).
pub fn read_member_head(line: &Vec<char>, kw: &str) -> (r: Option<Head>)
    ensures
        match r {
            Some(h) => member_head(line@, kw@) == Some(h@),
            None => member_head(line@, kw@) is None,
        },
{
    let i = skip_blanks(line, 0);
    if i < 1 {
        return None;
    }
    read_head(line, i, kw)
}

/// The type that the bare word from `i` up to `j` names.
pub fn read_scalar(line: &Vec<char>, i: usize, j: usize) -> (t: Type)
    requires
        i <= j <= line.len(),
    ensures
        t@ == scalar_type(line@.subrange(i as int, j as int)),
{
    if range_is(line, i, j, "enum") {
        let t = Type::Enum(Vec::new());
        assert(t@ =~= TypeView::Enum(Seq::empty())) by {
            assert(crate::model::variants_view(Seq::<crate::model::Variant>::empty()) =~= Seq::<
                crate::model::VariantView,
            >::empty());
        }
        t
    } else if range_is(line, i, j, "integer") {
        Type::Integer
    } else if range_is(line, i, j, "number") {
        Type::Number
    } else if range_is(line, i, j, "boolean") {
        Type::Boolean
    } else if range_is(line, i, j, "string") {
        Type::String
    } else if range_is(line, i, j, "object") {
        Type::Object
    } else if range_is(line, i, j, "any") {
        Type::Any
    } else if range_is(line, i, j, "binary") {
        Type::Binary
    } else {
        Type::Ref(string_of(line, i, j))
    }
}

/// Reads the type written at `i`: the type, and where it ends.
pub fn read_type(line: &Vec<char>, i: usize) -> (r: (Type, usize))
    requires
        i <= line.len(),
    ensures
        r.0@ == type_at(line@, i as int),
        r.1 == type_end(line@, i as int),
        i <= r.1 <= line.len(),
    decreases line.len() - i,
{
    match word_after(line, i, "array of") {
        Some(j) => {
            let (inner, end) = read_type(line, j);
            (Type::ArrayOf(Box::new(inner)), end)
        },
        None => {
            let j = skip_word(line, i);
            (read_scalar(line, i, j), j)
        },
    }
}

/// The head line of a type definition.
pub struct TypeHead {
    pub experimental: bool,
    pub deprecated: bool,
    pub id: String,
    pub extends: Type,
}

impl View for TypeHead {
    type V = TypeHeadView;

    open spec fn view(&self) -> TypeHeadView {
        TypeHeadView {
            experimental: self.experimental,
            deprecated: self.deprecated,
            id: self.id@,
            extends: self.extends@,
        }
    }
}

/// Reads the head line of a type definition.
pub fn read_type_head(line: &Vec<char>) -> (r: Option<TypeHead>)
    ensures
        match r {
            Some(h) => type_head(line@) == Some(h@),
            None => type_head(line@) is None,
        },
{
    let i = skip_blanks(line, 0);
    if i < 1 {
        return None;
    }
    let (experimental, a) = read_flag(line, i, "experimental");
    let (deprecated, b) = read_flag(line, a, "deprecated");
    let (_, c) = read_flag(line, b, "optional");
    let d = match word_after(line, c, "type") {
        Some(d) => d,
        None => {
            return None;
        },
    };
    let e = skip_word(line, d);
    if !(e < line.len() && line[e] == ' ') {
        return None;
    }
    let f = match word_after(line, e + 1, "extends") {
        Some(f) => f,
        None => {
            return None;
        },
    };
    let (extends, end) = read_type(line, f);
    if end != line.len() {
        return None;
    }
    Some(TypeHead { experimental, deprecated, id: string_of(line, d, e), extends })
}

/// The head line of a parameter.
pub struct ParamHead {
    pub experimental: bool,
    pub deprecated: bool,
    pub optional: bool,
    pub ty: Type,
    pub name: String,
}

impl View for ParamHead {
    type V = ParamHeadView;

    open spec fn view(&self) -> ParamHeadView {
        ParamHeadView {
            experimental: self.experimental,
            deprecated: self.deprecated,
            optional: self.optional,
            ty: self.ty@,
            name: self.name@,
        }
    }
}

/// Reads the head line of a parameter.
pub fn read_param_head(line: &Vec<char>) -> (r: Option<ParamHead>)
    ensures
        match r {
            Some(h) => param_head(line@) == Some(h@),
            None => param_head(line@) is None,
        },
{
    let i = skip_blanks(line, 0);
    if i < 1 {
        return None;
    }
    let (experimental, a) = read_flag(line, i, "experimental");
    let (deprecated, b) = read_flag(line, a, "deprecated");
    let (optional, c) = read_flag(line, b, "optional");
    let (ty, e) = read_type(line, c);
    if !(e < line.len() && line[e] == ' ') {
        return None;
    }
    let f = skip_word(line, e + 1);
    if !(e + 1 < f && f == line.len()) {
        return None;
    }
    Some(ParamHead { experimental, deprecated, optional, ty, name: string_of(line, e + 1, f) })
}

impl Type {
    /// The type that the bare word `ty` names, or an array of it.
    pub fn new(ty: &str, is_array: bool) -> (r: Type)
        ensures
            r@ == if is_array {
                TypeView::ArrayOf(Box::new(scalar_type(ty@)))
            } else {
                scalar_type(ty@)
            },
    {
        let word = to_chars(ty);
        assert(word@.subrange(0, word@.len() as int) =~= word@);
        let scalar = read_scalar(&word, 0, word.len());
        if is_array {
            Type::ArrayOf(Box::new(scalar))
        } else {
            scalar
        }
    }
}

} // verus!
