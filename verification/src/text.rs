//! The canonical text of a document: the same declarations in the same
//! order, each level indented by two spaces below the one that holds it.

use crate::chars::{decimal, push_decimal};
use crate::model::{
    commands_view, domains_view, events_view, lines_view, params_view, type_defs_view,
    variants_view, Command, CommandView, Domain, DomainView, Event, EventView, Item, ItemView,
    Lines, Param, ParamView, Protocol, ProtocolView, Redirect, RedirectView, Type, TypeDef,
    TypeDefView, TypeView, Variant, VariantView, Version, VersionView,
};
use vstd::prelude::*;
use vstd::string::StringExecFns;

verus! {

/// The parts that `f` makes of the members of `xs`, one after another.
pub open spec fn flat_map<A, B>(xs: Seq<A>, f: spec_fn(A) -> Seq<B>) -> Seq<B>
    decreases xs.len(),
{
    if xs.len() == 0 {
        Seq::empty()
    } else {
        f(xs[0]) + flat_map(xs.drop_first(), f)
    }
}

/// The parts of a sequence and one more member are those of the sequence,
/// then that of the member.
pub proof fn lemma_flat_map_push<A, B>(xs: Seq<A>, x: A, f: spec_fn(A) -> Seq<B>)
    ensures
        flat_map(xs.push(x), f) == flat_map(xs, f) + f(x),
    decreases xs.len(),
{
    if xs.len() == 0 {
        assert(xs.push(x).drop_first() =~= Seq::<A>::empty());
        assert(flat_map(Seq::<A>::empty(), f) =~= Seq::<B>::empty());
        assert(xs =~= Seq::<A>::empty());
        assert(xs.push(x)[0] == x);
        assert(flat_map(xs.push(x), f) =~= f(x) + Seq::<B>::empty());
        assert(flat_map(xs, f) + f(x) =~= f(x));
    } else {
        assert(xs.push(x).drop_first() =~= xs.drop_first().push(x));
        lemma_flat_map_push(xs.drop_first(), x, f);
        assert(flat_map(xs.push(x), f) =~= flat_map(xs, f) + f(x));
    }
}

/// Each line, moved two spaces to the right.
pub open spec fn indented_lines(lines: Lines) -> Lines {
    Seq::new(lines.len(), |i: int| "  "@ + lines[i])
}

/// A description as comment lines.
pub open spec fn comment_lines(description: Lines) -> Lines {
    Seq::new(description.len(), |i: int| "# "@ + description[i])
}

/// A modifier and the space after it, where the modifier is set.
pub open spec fn flag_text(on: bool, kw: Seq<char>) -> Seq<char> {
    if on {
        kw.push(' ')
    } else {
        Seq::empty()
    }
}

/// A type as it is written on a head line. The variants of an `enum` are
/// not part of it.
pub open spec fn type_text(t: TypeView) -> Seq<char>
    decreases t,
{
    match t {
        TypeView::Integer => "integer"@,
        TypeView::Number => "number"@,
        TypeView::Boolean => "boolean"@,
        TypeView::String => "string"@,
        TypeView::Object => "object"@,
        TypeView::Any => "any"@,
        TypeView::Binary => "binary"@,
        TypeView::Enum(_) => "enum"@,
        TypeView::ArrayOf(inner) => "array of "@ + type_text(*inner),
        TypeView::Ref(name) => name,
    }
}

/// The lines of a variant: its description, then its name.
pub open spec fn variant_lines(v: VariantView) -> Lines {
    comment_lines(v.description).push(v.name)
}

/// What a variant adds to the list it stands in: its lines, indented.
pub open spec fn variant_part() -> spec_fn(VariantView) -> Lines {
    |v: VariantView| indented_lines(variant_lines(v))
}

/// The lines of a list of variants.
pub open spec fn variants_lines(variants: Seq<VariantView>) -> Lines {
    flat_map(variants, variant_part())
}

/// The head line of a parameter.
pub open spec fn param_head_text(p: ParamView) -> Seq<char> {
    flag_text(p.experimental, "experimental"@) + flag_text(p.deprecated, "deprecated"@)
        + flag_text(p.optional, "optional"@) + type_text(p.ty).push(' ') + p.name
}

/// The lines of a parameter: its description, its head line and, for an
/// `enum`, its variants.
pub open spec fn param_lines(p: ParamView) -> Lines {
    comment_lines(p.description).push(param_head_text(p)) + match p.ty {
        TypeView::Enum(variants) => variants_lines(variants),
        _ => Seq::empty(),
    }
}

/// What a parameter adds to the block it stands in: its lines, indented.
pub open spec fn param_part() -> spec_fn(ParamView) -> Lines {
    |p: ParamView| indented_lines(param_lines(p))
}

/// The lines of a block of parameters under the keyword `kw`.
pub open spec fn block_lines(kw: Seq<char>, params: Seq<ParamView>) -> Lines {
    seq![kw] + flat_map(params, param_part())
}

/// The lines of a block of parameters that is left out where it is empty.
pub open spec fn opt_block_lines(kw: Seq<char>, params: Seq<ParamView>) -> Lines {
    if params.len() > 0 {
        indented_lines(block_lines(kw, params))
    } else {
        Seq::empty()
    }
}

/// The lines of what a type definition adds.
pub open spec fn item_lines(item: ItemView) -> Lines {
    match item {
        ItemView::Enum(variants) => seq!["enum"@] + variants_lines(variants),
        ItemView::Properties(params) => block_lines("properties"@, params),
    }
}

/// The head line of a type definition.
pub open spec fn type_head_text(t: TypeDefView) -> Seq<char> {
    flag_text(t.experimental, "experimental"@) + flag_text(t.deprecated, "deprecated"@) + "type "@
        + t.id + " extends "@ + type_text(t.extends)
}

/// The lines of a type definition.
pub open spec fn type_def_lines(t: TypeDefView) -> Lines {
    comment_lines(t.description).push(type_head_text(t)) + match t.item {
        Some(item) => indented_lines(item_lines(item)),
        None => Seq::empty(),
    }
}

/// The lines of a redirect.
pub open spec fn redirect_lines(r: RedirectView) -> Lines {
    comment_lines(r.description).push("redirect "@ + r.to)
}

/// The head line of a domain, a command or an event, `kw` being its keyword.
pub open spec fn head_text(experimental: bool, deprecated: bool, kw: Seq<char>, name: Seq<char>) -> Seq<
    char,
> {
    flag_text(experimental, "experimental"@) + flag_text(deprecated, "deprecated"@) + kw.push(' ')
        + name
}

/// The lines of a command.
pub open spec fn command_lines(c: CommandView) -> Lines {
    comment_lines(c.description).push(head_text(c.experimental, c.deprecated, "command"@, c.name))
        + match c.redirect {
        Some(r) => indented_lines(redirect_lines(r)),
        None => Seq::empty(),
    } + opt_block_lines("parameters"@, c.parameters) + opt_block_lines("returns"@, c.returns)
}

/// The lines of an event.
pub open spec fn event_lines(e: EventView) -> Lines {
    comment_lines(e.description).push(head_text(e.experimental, e.deprecated, "event"@, e.name))
        + opt_block_lines("parameters"@, e.parameters)
}

/// What a `depends on` line adds to its domain.
pub open spec fn depends_part() -> spec_fn(Seq<char>) -> Lines {
    |name: Seq<char>| seq!["  depends on "@ + name]
}

/// What a type definition adds to its domain: its lines, indented, and an
/// empty line.
pub open spec fn type_def_part() -> spec_fn(TypeDefView) -> Lines {
    |t: TypeDefView| indented_lines(type_def_lines(t)).push(Seq::empty())
}

/// What a command adds to its domain: its lines, indented, and an empty line.
pub open spec fn command_part() -> spec_fn(CommandView) -> Lines {
    |c: CommandView| indented_lines(command_lines(c)).push(Seq::empty())
}

/// What an event adds to its domain: its lines, indented, and an empty line.
pub open spec fn event_part() -> spec_fn(EventView) -> Lines {
    |e: EventView| indented_lines(event_lines(e)).push(Seq::empty())
}

/// The lines of a domain: description and head, the `depends on` lines, an
/// empty line, then the type definitions, the commands and the events.
pub open spec fn domain_lines(d: DomainView) -> Lines {
    comment_lines(d.description).push(head_text(d.experimental, d.deprecated, "domain"@, d.name))
        + flat_map(d.dependencies, depends_part()).push(Seq::empty()) + flat_map(
        d.types,
        type_def_part(),
    ) + flat_map(d.commands, command_part()) + flat_map(d.events, event_part())
}

/// What a domain adds to its document.
pub open spec fn domain_part() -> spec_fn(DomainView) -> Lines {
    |d: DomainView| domain_lines(d)
}

/// The lines of the version block.
pub open spec fn version_lines(v: VersionView) -> Lines {
    seq!["version"@, "  major "@ + decimal(v.major), "  minor "@ + decimal(v.minor)]
}

/// The lines of a document: description, version block, an empty line, the domains.
pub open spec fn protocol_lines(p: ProtocolView) -> Lines {
    comment_lines(p.description) + version_lines(p.version).push(Seq::empty()) + flat_map(
        p.domains,
        domain_part(),
    )
}

/// What a line adds to a text: its characters and a newline.
pub open spec fn line_part() -> spec_fn(Seq<char>) -> Seq<char> {
    |l: Seq<char>| l.push('\n')
}

/// The text made of the given lines, each ended by a newline.
pub open spec fn text_of(lines: Lines) -> Seq<char> {
    flat_map(lines, line_part())
}

/// The canonical text of a document.
pub open spec fn render_text_spec(p: ProtocolView) -> Seq<char> {
    text_of(protocol_lines(p))
}

/// Appends the lines of `part` to `out`.
pub fn append_lines(out: &mut Vec<String>, part: Vec<String>)
    ensures
        lines_view(final(out)@) == lines_view(old(out)@) + lines_view(part@),
{
    let mut part = part;
    let ghost before = out@;
    let ghost added = part@;
    out.append(&mut part);
    assert(lines_view(out@) =~= lines_view(before) + lines_view(added));
}

/// Appends one line to `out`.
pub fn push_line(out: &mut Vec<String>, line: String)
    ensures
        lines_view(final(out)@) == lines_view(old(out)@).push(line@),
{
    let ghost before = out@;
    out.push(line);
    assert(lines_view(out@) =~= lines_view(before).push(line@));
}

/// Moves each line two spaces to the right.
pub fn indented(lines: Vec<String>) -> (r: Vec<String>)
    ensures
        lines_view(r@) == indented_lines(lines_view(lines@)),
{
    let mut out: Vec<String> = Vec::new();
    let mut i: usize = 0;
    while i < lines.len()
        invariant
            i <= lines.len(),
            out@.len() == i,
            forall|k: int| 0 <= k < i ==> (#[trigger] out@[k])@ == "  "@ + lines@[k]@,
        decreases lines.len() - i,
    {
        let mut line = "  ".to_owned();
        line.append(lines[i].as_str());
        out.push(line);
        i += 1;
    }
    assert(lines_view(out@) =~= indented_lines(lines_view(lines@)));
    out
}

/// Writes a description as comment lines.
pub fn render_description(description: &Vec<String>) -> (r: Vec<String>)
    ensures
        lines_view(r@) == comment_lines(lines_view(description@)),
{
    let mut out: Vec<String> = Vec::new();
    let mut i: usize = 0;
    while i < description.len()
        invariant
            i <= description.len(),
            out@.len() == i,
            forall|k: int| 0 <= k < i ==> (#[trigger] out@[k])@ == "# "@ + description@[k]@,
        decreases description.len() - i,
    {
        let mut line = "# ".to_owned();
        line.append(description[i].as_str());
        out.push(line);
        i += 1;
    }
    assert(lines_view(out@) =~= comment_lines(lines_view(description@)));
    out
}

/// Appends the modifier `kw` and a space to `line` where `on` is set.
pub fn push_flag(line: &mut String, on: bool, kw: &str)
    ensures
        final(line)@ == old(line)@ + flag_text(on, kw@),
{
    if on {
        line.append(kw);
        line.push(' ');
        assert(line@ =~= old(line)@ + flag_text(on, kw@));
    } else {
        assert(line@ =~= old(line)@ + flag_text(on, kw@));
    }
}

/// Writes a type as it stands on a head line.
pub fn render_type(t: &Type) -> (r: String)
    ensures
        r@ == type_text(t@),
    decreases t,
{
    match t {
        Type::Integer => "integer".to_owned(),
        Type::Number => "number".to_owned(),
        Type::Boolean => "boolean".to_owned(),
        Type::String => "string".to_owned(),
        Type::Object => "object".to_owned(),
        Type::Any => "any".to_owned(),
        Type::Binary => "binary".to_owned(),
        Type::Enum(_) => "enum".to_owned(),
        Type::ArrayOf(inner) => {
            let mut line = "array of ".to_owned();
            let rest = render_type(&**inner);
            line.append(rest.as_str());
            line
        },
        Type::Ref(name) => name.clone(),
    }
}

/// Writes the lines of a variant.
pub fn render_variant(v: &Variant) -> (r: Vec<String>)
    ensures
        lines_view(r@) == variant_lines(v@),
{
    let mut out = render_description(&v.description);
    push_line(&mut out, v.name.clone());
    out
}

/// Writes the lines of a variant as a member of a list.
pub fn render_variant_part(v: &Variant) -> (r: Vec<String>)
    ensures
        lines_view(r@) == variant_part()(v@),
{
    indented(render_variant(v))
}

/// Writes the lines of a list of variants.
pub fn render_variants(items: &Vec<Variant>) -> (r: Vec<String>)
    ensures
        lines_view(r@) == flat_map(variants_view(items@), variant_part()),
{
    let ghost all = variants_view(items@);
    let mut out: Vec<String> = Vec::new();
    let mut i: usize = 0;
    assert(all.take(0) =~= Seq::empty());
    assert(lines_view(out@) =~= Seq::empty());
    while i < items.len()
        invariant
            i <= items.len(),
            all == variants_view(items@),
            lines_view(out@) == flat_map(all.take(i as int), variant_part()),
        decreases items.len() - i,
    {
        let part = render_variant_part(&items[i]);
        proof {
            assert(all.take(i + 1) =~= all.take(i as int).push(all[i as int]));
            lemma_flat_map_push(all.take(i as int), all[i as int], variant_part());
        }
        append_lines(&mut out, part);
        i += 1;
    }
    assert(all.take(items.len() as int) =~= all);
    out
}

/// Writes the head line of a parameter.
pub fn render_param_head(p: &Param) -> (r: String)
    ensures
        r@ == param_head_text(p@),
{
    let mut line = String::new();
    push_flag(&mut line, p.experimental, "experimental");
    push_flag(&mut line, p.deprecated, "deprecated");
    push_flag(&mut line, p.optional, "optional");
    let ty = render_type(&p.ty);
    line.append(ty.as_str());
    line.push(' ');
    line.append(p.name.as_str());
    assert(line@ =~= param_head_text(p@));
    line
}

/// Writes the lines of a parameter.
pub fn render_param(p: &Param) -> (r: Vec<String>)
    ensures
        lines_view(r@) == param_lines(p@),
{
    let mut out = render_description(&p.description);
    push_line(&mut out, render_param_head(p));
    match &p.ty {
        Type::Enum(variants) => {
            append_lines(&mut out, render_variants(variants));
        },
        _ => {
            assert(lines_view(out@) + Seq::<Seq<char>>::empty() =~= lines_view(out@));
        },
    }
    out
}

/// Writes the lines of a parameter as a member of a block.
pub fn render_param_part(p: &Param) -> (r: Vec<String>)
    ensures
        lines_view(r@) == param_part()(p@),
{
    indented(render_param(p))
}

/// Writes the lines of a list of parameters.
pub fn render_params(items: &Vec<Param>) -> (r: Vec<String>)
    ensures
        lines_view(r@) == flat_map(params_view(items@), param_part()),
{
    let ghost all = params_view(items@);
    let mut out: Vec<String> = Vec::new();
    let mut i: usize = 0;
    assert(all.take(0) =~= Seq::empty());
    assert(lines_view(out@) =~= Seq::empty());
    while i < items.len()
        invariant
            i <= items.len(),
            all == params_view(items@),
            lines_view(out@) == flat_map(all.take(i as int), param_part()),
        decreases items.len() - i,
    {
        let part = render_param_part(&items[i]);
        proof {
            assert(all.take(i + 1) =~= all.take(i as int).push(all[i as int]));
            lemma_flat_map_push(all.take(i as int), all[i as int], param_part());
        }
        append_lines(&mut out, part);
        i += 1;
    }
    assert(all.take(items.len() as int) =~= all);
    out
}

/// Writes a block of parameters under the keyword `kw`.
pub fn render_block(kw: &str, params: &Vec<Param>) -> (r: Vec<String>)
    ensures
        lines_view(r@) == block_lines(kw@, params_view(params@)),
{
    let mut out: Vec<String> = Vec::new();
    assert(lines_view(out@) =~= Seq::empty());
    push_line(&mut out, kw.to_owned());
    append_lines(&mut out, render_params(params));
    assert(lines_view(out@) =~= block_lines(kw@, params_view(params@)));
    out
}

/// Writes a block of parameters, or nothing where there is none.
pub fn render_opt_block(kw: &str, params: &Vec<Param>) -> (r: Vec<String>)
    ensures
        lines_view(r@) == opt_block_lines(kw@, params_view(params@)),
{
    if params.len() > 0 {
        indented(render_block(kw, params))
    } else {
        let out: Vec<String> = Vec::new();
        assert(lines_view(out@) =~= Seq::empty());
        out
    }
}

/// Writes the lines of what a type definition adds.
pub fn render_item(item: &Item) -> (r: Vec<String>)
    ensures
        lines_view(r@) == item_lines(item@),
{
    match item {
        Item::Enum(variants) => {
            let mut out: Vec<String> = Vec::new();
            assert(lines_view(out@) =~= Seq::empty());
            push_line(&mut out, "enum".to_owned());
            append_lines(&mut out, render_variants(variants));
            assert(lines_view(out@) =~= item_lines(item@));
            out
        },
        Item::Properties(params) => render_block("properties", params),
    }
}

/// Writes the head line of a type definition.
pub fn render_type_head(t: &TypeDef) -> (r: String)
    ensures
        r@ == type_head_text(t@),
{
    let mut line = String::new();
    push_flag(&mut line, t.experimental, "experimental");
    push_flag(&mut line, t.deprecated, "deprecated");
    line.append("type ");
    line.append(t.id.as_str());
    line.append(" extends ");
    let ty = render_type(&t.extends);
    line.append(ty.as_str());
    assert(line@ =~= type_head_text(t@));
    line
}

/// Writes the lines of a type definition.
pub fn render_type_def(t: &TypeDef) -> (r: Vec<String>)
    ensures
        lines_view(r@) == type_def_lines(t@),
{
    let mut out = render_description(&t.description);
    push_line(&mut out, render_type_head(t));
    match &t.item {
        Some(item) => {
            append_lines(&mut out, indented(render_item(item)));
        },
        None => {
            assert(lines_view(out@) + Seq::<Seq<char>>::empty() =~= lines_view(out@));
        },
    }
    out
}

/// Writes the lines of a redirect.
pub fn render_redirect(r: &Redirect) -> (out: Vec<String>)
    ensures
        lines_view(out@) == redirect_lines(r@),
{
    let mut out = render_description(&r.description);
    let mut line = "redirect ".to_owned();
    line.append(r.to.as_str());
    push_line(&mut out, line);
    out
}

/// Writes the head line of a domain, a command or an event.
pub fn render_head(experimental: bool, deprecated: bool, kw: &str, name: &String) -> (r: String)
    ensures
        r@ == head_text(experimental, deprecated, kw@, name@),
{
    let mut line = String::new();
    push_flag(&mut line, experimental, "experimental");
    push_flag(&mut line, deprecated, "deprecated");
    line.append(kw);
    line.push(' ');
    line.append(name.as_str());
    assert(line@ =~= head_text(experimental, deprecated, kw@, name@));
    line
}

/// Writes the lines of a command.
pub fn render_command(c: &Command) -> (r: Vec<String>)
    ensures
        lines_view(r@) == command_lines(c@),
{
    let mut out = render_description(&c.description);
    push_line(&mut out, render_head(c.experimental, c.deprecated, "command", &c.name));
    match &c.redirect {
        Some(redirect) => {
            append_lines(&mut out, indented(render_redirect(redirect)));
        },
        None => {
            assert(lines_view(out@) + Seq::<Seq<char>>::empty() =~= lines_view(out@));
        },
    }
    append_lines(&mut out, render_opt_block("parameters", &c.parameters));
    append_lines(&mut out, render_opt_block("returns", &c.returns));
    out
}

/// Writes the lines of an event.
pub fn render_event(e: &Event) -> (r: Vec<String>)
    ensures
        lines_view(r@) == event_lines(e@),
{
    let mut out = render_description(&e.description);
    push_line(&mut out, render_head(e.experimental, e.deprecated, "event", &e.name));
    append_lines(&mut out, render_opt_block("parameters", &e.parameters));
    out
}

/// Writes a `depends on` line as a member of a domain.
pub fn render_depends_part(name: &String) -> (r: Vec<String>)
    ensures
        lines_view(r@) == depends_part()(name@),
{
    let mut line = "  depends on ".to_owned();
    line.append(name.as_str());
    let mut out: Vec<String> = Vec::new();
    assert(lines_view(out@) =~= Seq::empty());
    push_line(&mut out, line);
    assert(lines_view(out@) =~= depends_part()(name@));
    out
}

/// Writes a type definition as a member of a domain.
pub fn render_type_def_part(t: &TypeDef) -> (r: Vec<String>)
    ensures
        lines_view(r@) == type_def_part()(t@),
{
    let mut out = indented(render_type_def(t));
    push_line(&mut out, String::new());
    out
}

/// Writes a command as a member of a domain.
pub fn render_command_part(c: &Command) -> (r: Vec<String>)
    ensures
        lines_view(r@) == command_part()(c@),
{
    let mut out = indented(render_command(c));
    push_line(&mut out, String::new());
    out
}

/// Writes an event as a member of a domain.
pub fn render_event_part(e: &Event) -> (r: Vec<String>)
    ensures
        lines_view(r@) == event_part()(e@),
{
    let mut out = indented(render_event(e));
    push_line(&mut out, String::new());
    out
}

/// Writes the `depends on` lines of a domain.
pub fn render_depends(items: &Vec<String>) -> (r: Vec<String>)
    ensures
        lines_view(r@) == flat_map(lines_view(items@), depends_part()),
{
    let ghost all = lines_view(items@);
    let mut out: Vec<String> = Vec::new();
    let mut i: usize = 0;
    assert(all.take(0) =~= Seq::empty());
    assert(lines_view(out@) =~= Seq::empty());
    while i < items.len()
        invariant
            i <= items.len(),
            all == lines_view(items@),
            lines_view(out@) == flat_map(all.take(i as int), depends_part()),
        decreases items.len() - i,
    {
        let part = render_depends_part(&items[i]);
        proof {
            assert(all.take(i + 1) =~= all.take(i as int).push(all[i as int]));
            lemma_flat_map_push(all.take(i as int), all[i as int], depends_part());
        }
        append_lines(&mut out, part);
        i += 1;
    }
    assert(all.take(items.len() as int) =~= all);
    out
}

/// Writes the type definitions of a domain.
pub fn render_type_defs(items: &Vec<TypeDef>) -> (r: Vec<String>)
    ensures
        lines_view(r@) == flat_map(type_defs_view(items@), type_def_part()),
{
    let ghost all = type_defs_view(items@);
    let mut out: Vec<String> = Vec::new();
    let mut i: usize = 0;
    assert(all.take(0) =~= Seq::empty());
    assert(lines_view(out@) =~= Seq::empty());
    while i < items.len()
        invariant
            i <= items.len(),
            all == type_defs_view(items@),
            lines_view(out@) == flat_map(all.take(i as int), type_def_part()),
        decreases items.len() - i,
    {
        let part = render_type_def_part(&items[i]);
        proof {
            assert(all.take(i + 1) =~= all.take(i as int).push(all[i as int]));
            lemma_flat_map_push(all.take(i as int), all[i as int], type_def_part());
        }
        append_lines(&mut out, part);
        i += 1;
    }
    assert(all.take(items.len() as int) =~= all);
    out
}

/// Writes the commands of a domain.
pub fn render_commands(items: &Vec<Command>) -> (r: Vec<String>)
    ensures
        lines_view(r@) == flat_map(commands_view(items@), command_part()),
{
    let ghost all = commands_view(items@);
    let mut out: Vec<String> = Vec::new();
    let mut i: usize = 0;
    assert(all.take(0) =~= Seq::empty());
    assert(lines_view(out@) =~= Seq::empty());
    while i < items.len()
        invariant
            i <= items.len(),
            all == commands_view(items@),
            lines_view(out@) == flat_map(all.take(i as int), command_part()),
        decreases items.len() - i,
    {
        let part = render_command_part(&items[i]);
        proof {
            assert(all.take(i + 1) =~= all.take(i as int).push(all[i as int]));
            lemma_flat_map_push(all.take(i as int), all[i as int], command_part());
        }
        append_lines(&mut out, part);
        i += 1;
    }
    assert(all.take(items.len() as int) =~= all);
    out
}

/// Writes the events of a domain.
pub fn render_events(items: &Vec<Event>) -> (r: Vec<String>)
    ensures
        lines_view(r@) == flat_map(events_view(items@), event_part()),
{
    let ghost all = events_view(items@);
    let mut out: Vec<String> = Vec::new();
    let mut i: usize = 0;
    assert(all.take(0) =~= Seq::empty());
    assert(lines_view(out@) =~= Seq::empty());
    while i < items.len()
        invariant
            i <= items.len(),
            all == events_view(items@),
            lines_view(out@) == flat_map(all.take(i as int), event_part()),
        decreases items.len() - i,
    {
        let part = render_event_part(&items[i]);
        proof {
            assert(all.take(i + 1) =~= all.take(i as int).push(all[i as int]));
            lemma_flat_map_push(all.take(i as int), all[i as int], event_part());
        }
        append_lines(&mut out, part);
        i += 1;
    }
    assert(all.take(items.len() as int) =~= all);
    out
}

/// Writes the lines of a domain.
pub fn render_domain(d: &Domain) -> (r: Vec<String>)
    ensures
        lines_view(r@) == domain_lines(d@),
{
    let mut out = render_description(&d.description);
    push_line(&mut out, render_head(d.experimental, d.deprecated, "domain", &d.name));
    let mut depends = render_depends(&d.dependencies);
    push_line(&mut depends, String::new());
    append_lines(&mut out, depends);
    append_lines(&mut out, render_type_defs(&d.types));
    append_lines(&mut out, render_commands(&d.commands));
    append_lines(&mut out, render_events(&d.events));
    out
}

/// Writes a domain as a member of a document.
pub fn render_domain_part(d: &Domain) -> (r: Vec<String>)
    ensures
        lines_view(r@) == domain_part()(d@),
{
    render_domain(d)
}

/// Writes the domains of a document.
pub fn render_domains(items: &Vec<Domain>) -> (r: Vec<String>)
    ensures
        lines_view(r@) == flat_map(domains_view(items@), domain_part()),
{
    let ghost all = domains_view(items@);
    let mut out: Vec<String> = Vec::new();
    let mut i: usize = 0;
    assert(all.take(0) =~= Seq::empty());
    assert(lines_view(out@) =~= Seq::empty());
    while i < items.len()
        invariant
            i <= items.len(),
            all == domains_view(items@),
            lines_view(out@) == flat_map(all.take(i as int), domain_part()),
        decreases items.len() - i,
    {
        let part = render_domain_part(&items[i]);
        proof {
            assert(all.take(i + 1) =~= all.take(i as int).push(all[i as int]));
            lemma_flat_map_push(all.take(i as int), all[i as int], domain_part());
        }
        append_lines(&mut out, part);
        i += 1;
    }
    assert(all.take(items.len() as int) =~= all);
    out
}

/// Writes the lines of the version block.
pub fn render_version(v: &Version) -> (r: Vec<String>)
    ensures
        lines_view(r@) == version_lines(v@),
{
    let mut major = "  major ".to_owned();
    push_decimal(&mut major, v.major);
    let mut minor = "  minor ".to_owned();
    push_decimal(&mut minor, v.minor);
    let mut out: Vec<String> = Vec::new();
    out.push("version".to_owned());
    out.push(major);
    out.push(minor);
    assert(lines_view(out@) =~= version_lines(v@));
    out
}

/// Writes the lines of a document.
pub fn render_protocol(p: &Protocol) -> (r: Vec<String>)
    ensures
        lines_view(r@) == protocol_lines(p@),
{
    let mut out = render_description(&p.description);
    let mut version = render_version(&p.version);
    push_line(&mut version, String::new());
    append_lines(&mut out, version);
    append_lines(&mut out, render_domains(&p.domains));
    out
}

/// Joins lines into a text, each ended by a newline.
pub fn join_lines(lines: &Vec<String>) -> (r: String)
    ensures
        r@ == text_of(lines_view(lines@)),
{
    let ghost all = lines_view(lines@);
    let mut out = String::new();
    let mut i: usize = 0;
    assert(all.take(0) =~= Seq::empty());
    while i < lines.len()
        invariant
            i <= lines.len(),
            all == lines_view(lines@),
            out@ == flat_map(all.take(i as int), line_part()),
        decreases lines.len() - i,
    {
        proof {
            assert(all.take(i + 1) =~= all.take(i as int).push(all[i as int]));
            lemma_flat_map_push(all.take(i as int), all[i as int], line_part());
        }
        let ghost before = out@;
        out.append(lines[i].as_str());
        out.push('\n');
        assert(out@ =~= before + all[i as int].push('\n'));
        i += 1;
    }
    assert(all.take(lines.len() as int) =~= all);
    out
}

/// Writes a document as canonical PDL text.
pub fn render_text(p: &Protocol) -> (r: String)
    ensures
        r@ == render_text_spec(p@),
{
    let lines = render_protocol(p);
    join_lines(&lines)
}

} // verus!
