//! The documentation of a protocol as Markdown: a heading with the title
//! and the version, then one section for each domain, with its methods, its
//! types and its events.

use crate::chars::{decimal, push_decimal};
use crate::json::{joined, serialize_description, Json};
use crate::model::{
    commands_view, domains_view, events_view, lines_view, params_view, type_defs_view,
    variants_view, Command, CommandView, Domain, DomainView, Event, EventView, Item, ItemView,
    Lines, Param, ParamView, Protocol, ProtocolView, Type, TypeDef, TypeDefView, TypeView, Variant,
    VariantView,
};
use crate::text::{flat_map, lemma_flat_map_push, render_type, type_text};
use vstd::prelude::*;
use vstd::string::StringExecFns;

verus! {

/// The badges that mark what is experimental and what is deprecated.
pub open spec fn badges(experimental: bool, deprecated: bool) -> Seq<char> {
    (if experimental {
        " **_EXPERIMENTAL_**"@
    } else {
        Seq::empty()
    }) + (if deprecated {
        " **_DEPRECATED_**"@
    } else {
        Seq::empty()
    })
}

/// A description in italics on one line, or nothing where there is none.
pub open spec fn emphasis(description: Lines) -> Seq<char> {
    if description.len() == 0 {
        Seq::empty()
    } else {
        "_"@ + joined(description) + "_"@
    }
}

/// The quoted description and the badges below the heading of a member.
pub open spec fn summary(description: Lines, experimental: bool, deprecated: bool) -> Seq<char> {
    "> "@ + joined(description) + "\n>"@ + badges(experimental, deprecated) + "\n\n"@
}

/// The heading of a member `name` of the domain `domain`.
pub open spec fn member_heading(domain: Seq<char>, name: Seq<char>) -> Seq<char> {
    "_"@ + domain + "._**"@ + name + "**\n\n"@
}

/// The row of a variant in a table of allowed values.
pub open spec fn variant_row() -> spec_fn(VariantView) -> Seq<char> {
    |v: VariantView| "| `"@ + v.name + "` | "@ + emphasis(v.description) + " |\n"@
}

/// The table of the values that an enumeration allows.
pub open spec fn allowed_values(variants: Seq<VariantView>) -> Seq<char> {
    "_ALLOWED VALUES_\n\n| Name | Description |\n| ----:|:----------- |\n"@ + flat_map(
        variants,
        variant_row(),
    )
}

/// The row of a parameter in a table of parameters.
pub open spec fn param_row() -> spec_fn(ParamView) -> Seq<char> {
    |p: ParamView|
        "| `"@ + p.name + "`"@ + (if p.optional {
            " <br/> _optional_ "@
        } else {
            Seq::empty()
        }) + " | **"@ + type_text(p.ty) + "** | "@ + emphasis(p.description) + badges(
            p.experimental,
            p.deprecated,
        ) + " |\n"@
}

/// What follows a table of parameters for one of them: the table of its
/// allowed values and an empty line where its type is an enumeration,
/// else nothing.
pub open spec fn param_values_part() -> spec_fn(ParamView) -> Seq<char> {
    |p: ParamView|
        match p.ty {
            TypeView::Enum(variants) => allowed_values(variants) + "\n"@,
            _ => Seq::empty(),
        }
}

/// A table of parameters under the given title, followed by the allowed
/// values of those that are enumerations; nothing where there is no parameter.
pub open spec fn params_table(title: Seq<char>, params: Seq<ParamView>) -> Seq<char> {
    if params.len() == 0 {
        Seq::empty()
    } else {
        "_"@ + title + "_\n\n| Name | Type | Description |\n| ----:|:---- | :---------- |\n"@
            + flat_map(params, param_row()) + "\n"@ + flat_map(params, param_values_part())
    }
}

/// The entry of a command of the domain `domain`.
pub open spec fn method_part(domain: Seq<char>) -> spec_fn(CommandView) -> Seq<char> {
    |c: CommandView|
        member_heading(domain, c.name) + summary(c.description, c.experimental, c.deprecated)
            + params_table("PARAMETERS"@, c.parameters) + params_table(
            "RETURN OBJECT"@,
            c.returns,
        ) + "---\n\n"@
}

/// What the entry of a type shows of what the type adds.
pub open spec fn item_table(item: Option<ItemView>) -> Seq<char> {
    match item {
        Some(ItemView::Enum(variants)) => allowed_values(variants),
        Some(ItemView::Properties(params)) => params_table("PROPERTIES"@, params),
        None => Seq::empty(),
    }
}

/// The entry of a type of the domain `domain`.
pub open spec fn type_part(domain: Seq<char>) -> spec_fn(TypeDefView) -> Seq<char> {
    |t: TypeDefView|
        member_heading(domain, t.id) + summary(t.description, t.experimental, t.deprecated)
            + "\nType: **"@ + type_text(t.extends) + "**\n\n"@ + item_table(t.item)
            + "---\n\n"@
}

/// The entry of an event of the domain `domain`.
pub open spec fn event_part(domain: Seq<char>) -> spec_fn(EventView) -> Seq<char> {
    |e: EventView|
        member_heading(domain, e.name) + summary(e.description, e.experimental, e.deprecated)
            + params_table("PARAMETERS"@, e.parameters)
}

/// The subsection of the methods of a domain; nothing where it has none.
pub open spec fn methods_section(domain: Seq<char>, commands: Seq<CommandView>) -> Seq<char> {
    if commands.len() == 0 {
        Seq::empty()
    } else {
        "### Methods\n\n"@ + flat_map(commands, method_part(domain))
    }
}

/// The subsection of the types of a domain; nothing where it has none.
pub open spec fn types_section(domain: Seq<char>, types: Seq<TypeDefView>) -> Seq<char> {
    if types.len() == 0 {
        Seq::empty()
    } else {
        "### Types\n\n"@ + flat_map(types, type_part(domain)) + "\n"@
    }
}

/// The subsection of the events of a domain; nothing where it has none.
pub open spec fn events_section(domain: Seq<char>, events: Seq<EventView>) -> Seq<char> {
    if events.len() == 0 {
        Seq::empty()
    } else {
        "### Events\n\n"@ + flat_map(events, event_part(domain)) + "---\n\n"@
    }
}

/// The section of a domain.
pub open spec fn domain_section() -> spec_fn(DomainView) -> Seq<char> {
    |d: DomainView|
        domain_heading(d.name) + summary(d.description, d.experimental, d.deprecated)
            + methods_section(d.name, d.commands) + types_section(d.name, d.types)
            + events_section(d.name, d.events)
}

/// The documentation of a protocol under the given title.
pub open spec fn markdown_spec(p: ProtocolView, title: Seq<char>) -> Seq<char> {
    "# "@ + title + "\n\nversion: "@ + decimal(p.version.major) + "."@ + decimal(
        p.version.minor,
    ) + "\n\n"@ + flat_map(p.domains, domain_section())
}

/// Appends the badges of a member.
pub fn push_badges(out: &mut String, experimental: bool, deprecated: bool)
    ensures
        final(out)@ == old(out)@ + badges(experimental, deprecated),
{
    if experimental {
        out.append(" **_EXPERIMENTAL_**");
    }
    if deprecated {
        out.append(" **_DEPRECATED_**");
    }
    assert(out@ =~= old(out)@ + badges(experimental, deprecated));
}

/// Appends the lines of a description as one text, with a space between them.
pub fn push_joined(out: &mut String, description: &Vec<String>)
    ensures
        final(out)@ == old(out)@ + joined(lines_view(description@)),
{
    match serialize_description(description) {
        Json::Text(text) => {
            out.append(text.as_str());
        },
        _ => {},
    }
}

/// Appends a description in italics, where there is one.
pub fn push_emphasis(out: &mut String, description: &Vec<String>)
    ensures
        final(out)@ == old(out)@ + emphasis(lines_view(description@)),
{
    if description.len() > 0 {
        out.append("_");
        push_joined(out, description);
        out.append("_");
        assert(out@ =~= old(out)@ + emphasis(lines_view(description@)));
    } else {
        assert(out@ =~= old(out)@ + emphasis(lines_view(description@)));
    }
}

/// Appends the quoted description and the badges of a member.
pub fn push_summary(
    out: &mut String,
    description: &Vec<String>,
    experimental: bool,
    deprecated: bool,
)
    ensures
        final(out)@ == old(out)@ + summary(lines_view(description@), experimental, deprecated),
{
    out.append("> ");
    push_joined(out, description);
    out.append("\n>");
    push_badges(out, experimental, deprecated);
    out.append("\n\n");
    assert(out@ =~= old(out)@ + summary(lines_view(description@), experimental, deprecated));
}

/// Appends the heading of a member of a domain.
pub fn push_member_heading(out: &mut String, domain: &String, name: &String)
    ensures
        final(out)@ == old(out)@ + member_heading(domain@, name@),
{
    out.append("_");
    out.append(domain.as_str());
    out.append("._**");
    out.append(name.as_str());
    out.append("**\n\n");
    assert(out@ =~= old(out)@ + member_heading(domain@, name@));
}

/// Appends the row of a variant.
pub fn push_variant_row(out: &mut String, v: &Variant)
    ensures
        final(out)@ == old(out)@ + variant_row()(v@),
{
    out.append("| `");
    out.append(v.name.as_str());
    out.append("` | ");
    push_emphasis(out, &v.description);
    out.append(" |\n");
    assert(out@ =~= old(out)@ + variant_row()(v@));
}

/// Appends the rows of a list of variants.
pub fn push_variant_rows(out: &mut String, items: &Vec<Variant>)
    ensures
        final(out)@ == old(out)@ + flat_map(variants_view(items@), variant_row()),
{
    let ghost all = variants_view(items@);
    let mut i: usize = 0;
    assert(all.take(0) =~= Seq::empty());
    assert(out@ =~= old(out)@ + flat_map(all.take(0), variant_row()));
    while i < items.len()
        invariant
            i <= items.len(),
            all == variants_view(items@),
            out@ == old(out)@ + flat_map(all.take(i as int), variant_row()),
        decreases items.len() - i,
    {
        proof {
            assert(all.take(i + 1) =~= all.take(i as int).push(all[i as int]));
            lemma_flat_map_push(all.take(i as int), all[i as int], variant_row());
        }
        let ghost before = out@;
        push_variant_row(out, &items[i]);
        i += 1;
        assert(out@ =~= old(out)@ + flat_map(all.take(i as int), variant_row()));
    }
    assert(all.take(items.len() as int) =~= all);
}

/// Appends the table of the values that an enumeration allows.
pub fn push_allowed_values(out: &mut String, variants: &Vec<Variant>)
    ensures
        final(out)@ == old(out)@ + allowed_values(variants_view(variants@)),
{
    out.append("_ALLOWED VALUES_\n\n| Name | Description |\n| ----:|:----------- |\n");
    push_variant_rows(out, variants);
    assert(out@ =~= old(out)@ + allowed_values(variants_view(variants@)));
}

/// Appends the row of a parameter.
pub fn push_param_row(out: &mut String, p: &Param)
    ensures
        final(out)@ == old(out)@ + param_row()(p@),
{
    out.append("| `");
    out.append(p.name.as_str());
    out.append("`");
    if p.optional {
        out.append(" <br/> _optional_ ");
    }
    out.append(" | **");
    let ty = render_type(&p.ty);
    out.append(ty.as_str());
    out.append("** | ");
    push_emphasis(out, &p.description);
    push_badges(out, p.experimental, p.deprecated);
    out.append(" |\n");
    assert(out@ =~= old(out)@ + param_row()(p@));
}

/// Appends the allowed values of a parameter whose type is an enumeration.
pub fn push_param_values(out: &mut String, p: &Param)
    ensures
        final(out)@ == old(out)@ + param_values_part()(p@),
{
    match &p.ty {
        Type::Enum(variants) => {
            push_allowed_values(out, variants);
            out.append("\n");
            assert(out@ =~= old(out)@ + param_values_part()(p@));
        },
        _ => {
            assert(out@ =~= old(out)@ + param_values_part()(p@));
        },
    }
}

/// Appends the rows of a list of parameters.
pub fn push_param_rows(out: &mut String, items: &Vec<Param>)
    ensures
        final(out)@ == old(out)@ + flat_map(params_view(items@), param_row()),
{
    let ghost all = params_view(items@);
    let mut i: usize = 0;
    assert(all.take(0) =~= Seq::empty());
    assert(out@ =~= old(out)@ + flat_map(all.take(0), param_row()));
    while i < items.len()
        invariant
            i <= items.len(),
            all == params_view(items@),
            out@ == old(out)@ + flat_map(all.take(i as int), param_row()),
        decreases items.len() - i,
    {
        proof {
            assert(all.take(i + 1) =~= all.take(i as int).push(all[i as int]));
            lemma_flat_map_push(all.take(i as int), all[i as int], param_row());
        }
        let ghost before = out@;
        push_param_row(out, &items[i]);
        i += 1;
        assert(out@ =~= old(out)@ + flat_map(all.take(i as int), param_row()));
    }
    assert(all.take(items.len() as int) =~= all);
}

/// Appends the allowed values of the parameters that are enumerations.
pub fn push_params_values(out: &mut String, items: &Vec<Param>)
    ensures
        final(out)@ == old(out)@ + flat_map(params_view(items@), param_values_part()),
{
    let ghost all = params_view(items@);
    let mut i: usize = 0;
    assert(all.take(0) =~= Seq::empty());
    assert(out@ =~= old(out)@ + flat_map(all.take(0), param_values_part()));
    while i < items.len()
        invariant
            i <= items.len(),
            all == params_view(items@),
            out@ == old(out)@ + flat_map(all.take(i as int), param_values_part()),
        decreases items.len() - i,
    {
        proof {
            assert(all.take(i + 1) =~= all.take(i as int).push(all[i as int]));
            lemma_flat_map_push(all.take(i as int), all[i as int], param_values_part());
        }
        let ghost before = out@;
        push_param_values(out, &items[i]);
        i += 1;
        assert(out@ =~= old(out)@ + flat_map(all.take(i as int), param_values_part()));
    }
    assert(all.take(items.len() as int) =~= all);
}

/// Appends a table of parameters under the given title.
pub fn push_params_table(out: &mut String, title: &str, params: &Vec<Param>)
    ensures
        final(out)@ == old(out)@ + params_table(title@, params_view(params@)),
{
    if params.len() > 0 {
        out.append("_");
        out.append(title);
        out.append("_\n\n| Name | Type | Description |\n| ----:|:---- | :---------- |\n");
        push_param_rows(out, params);
        out.append("\n");
        push_params_values(out, params);
        assert(out@ =~= old(out)@ + params_table(title@, params_view(params@)));
    } else {
        assert(out@ =~= old(out)@ + params_table(title@, params_view(params@)));
    }
}

/// Appends the entry of a command.
pub fn push_method(out: &mut String, c: &Command, domain: &String)
    ensures
        final(out)@ == old(out)@ + method_part(domain@)(c@),
{
    push_member_heading(out, domain, &c.name);
    push_summary(out, &c.description, c.experimental, c.deprecated);
    push_params_table(out, "PARAMETERS", &c.parameters);
    push_params_table(out, "RETURN OBJECT", &c.returns);
    out.append("---\n\n");
    assert(out@ =~= old(out)@ + method_part(domain@)(c@));
}

/// Appends the entry of a type.
pub fn push_type(out: &mut String, t: &TypeDef, domain: &String)
    ensures
        final(out)@ == old(out)@ + type_part(domain@)(t@),
{
    push_member_heading(out, domain, &t.id);
    push_summary(out, &t.description, t.experimental, t.deprecated);
    out.append("\nType: **");
    let ty = render_type(&t.extends);
    out.append(ty.as_str());
    out.append("**\n\n");
    let ghost before = out@;
    match &t.item {
        Some(Item::Enum(variants)) => {
            push_allowed_values(out, variants);
        },
        Some(Item::Properties(params)) => {
            push_params_table(out, "PROPERTIES", params);
        },
        None => {
            assert(out@ =~= before + item_table(t@.item));
        },
    }
    assert(out@ == before + item_table(t@.item));
    out.append("---\n\n");
    assert(out@ =~= old(out)@ + type_part(domain@)(t@));
}

/// Appends the entry of an event.
pub fn push_event(out: &mut String, e: &Event, domain: &String)
    ensures
        final(out)@ == old(out)@ + event_part(domain@)(e@),
{
    push_member_heading(out, domain, &e.name);
    push_summary(out, &e.description, e.experimental, e.deprecated);
    push_params_table(out, "PARAMETERS", &e.parameters);
    assert(out@ =~= old(out)@ + event_part(domain@)(e@));
}

/// Appends the entries of the commands of a domain.
pub fn push_methods(out: &mut String, items: &Vec<Command>, domain: &String)
    ensures
        final(out)@ == old(out)@ + flat_map(commands_view(items@), method_part(domain@)),
{
    let ghost all = commands_view(items@);
    let mut i: usize = 0;
    assert(all.take(0) =~= Seq::empty());
    assert(out@ =~= old(out)@ + flat_map(all.take(0), method_part(domain@)));
    while i < items.len()
        invariant
            i <= items.len(),
            all == commands_view(items@),
            out@ == old(out)@ + flat_map(all.take(i as int), method_part(domain@)),
        decreases items.len() - i,
    {
        proof {
            assert(all.take(i + 1) =~= all.take(i as int).push(all[i as int]));
            lemma_flat_map_push(all.take(i as int), all[i as int], method_part(domain@));
        }
        let ghost before = out@;
        push_method(out, &items[i], domain);
        i += 1;
        assert(out@ =~= old(out)@ + flat_map(all.take(i as int), method_part(domain@)));
    }
    assert(all.take(items.len() as int) =~= all);
}

/// Appends the entries of the types of a domain.
pub fn push_types(out: &mut String, items: &Vec<TypeDef>, domain: &String)
    ensures
        final(out)@ == old(out)@ + flat_map(type_defs_view(items@), type_part(domain@)),
{
    let ghost all = type_defs_view(items@);
    let mut i: usize = 0;
    assert(all.take(0) =~= Seq::empty());
    assert(out@ =~= old(out)@ + flat_map(all.take(0), type_part(domain@)));
    while i < items.len()
        invariant
            i <= items.len(),
            all == type_defs_view(items@),
            out@ == old(out)@ + flat_map(all.take(i as int), type_part(domain@)),
        decreases items.len() - i,
    {
        proof {
            assert(all.take(i + 1) =~= all.take(i as int).push(all[i as int]));
            lemma_flat_map_push(all.take(i as int), all[i as int], type_part(domain@));
        }
        let ghost before = out@;
        push_type(out, &items[i], domain);
        i += 1;
        assert(out@ =~= old(out)@ + flat_map(all.take(i as int), type_part(domain@)));
    }
    assert(all.take(items.len() as int) =~= all);
}

/// Appends the entries of the events of a domain.
pub fn push_events(out: &mut String, items: &Vec<Event>, domain: &String)
    ensures
        final(out)@ == old(out)@ + flat_map(events_view(items@), event_part(domain@)),
{
    let ghost all = events_view(items@);
    let mut i: usize = 0;
    assert(all.take(0) =~= Seq::empty());
    assert(out@ =~= old(out)@ + flat_map(all.take(0), event_part(domain@)));
    while i < items.len()
        invariant
            i <= items.len(),
            all == events_view(items@),
            out@ == old(out)@ + flat_map(all.take(i as int), event_part(domain@)),
        decreases items.len() - i,
    {
        proof {
            assert(all.take(i + 1) =~= all.take(i as int).push(all[i as int]));
            lemma_flat_map_push(all.take(i as int), all[i as int], event_part(domain@));
        }
        let ghost before = out@;
        push_event(out, &items[i], domain);
        i += 1;
        assert(out@ =~= old(out)@ + flat_map(all.take(i as int), event_part(domain@)));
    }
    assert(all.take(items.len() as int) =~= all);
}

/// Appends the subsection of the methods of a domain.
pub fn push_methods_section(out: &mut String, d: &Domain)
    ensures
        final(out)@ == old(out)@ + methods_section(d@.name, d@.commands),
{
    if d.commands.len() > 0 {
        out.append("### Methods\n\n");
        push_methods(out, &d.commands, &d.name);
        assert(out@ =~= old(out)@ + methods_section(d@.name, d@.commands));
    } else {
        assert(out@ =~= old(out)@ + methods_section(d@.name, d@.commands));
    }
}

/// Appends the subsection of the types of a domain.
pub fn push_types_section(out: &mut String, d: &Domain)
    ensures
        final(out)@ == old(out)@ + types_section(d@.name, d@.types),
{
    if d.types.len() > 0 {
        out.append("### Types\n\n");
        push_types(out, &d.types, &d.name);
        out.append("\n");
        assert(out@ =~= old(out)@ + types_section(d@.name, d@.types));
    } else {
        assert(out@ =~= old(out)@ + types_section(d@.name, d@.types));
    }
}

/// Appends the subsection of the events of a domain.
pub fn push_events_section(out: &mut String, d: &Domain)
    ensures
        final(out)@ == old(out)@ + events_section(d@.name, d@.events),
{
    if d.events.len() > 0 {
        out.append("### Events\n\n");
        push_events(out, &d.events, &d.name);
        out.append("---\n\n");
        assert(out@ =~= old(out)@ + events_section(d@.name, d@.events));
    } else {
        assert(out@ =~= old(out)@ + events_section(d@.name, d@.events));
    }
}

/// The heading of the section of a domain.
pub open spec fn domain_heading(name: Seq<char>) -> Seq<char> {
    "## "@ + name + " Domain\n\n"@
}

/// Appends the heading of the section of a domain.
pub fn push_domain_heading(out: &mut String, name: &String)
    ensures
        final(out)@ == old(out)@ + domain_heading(name@),
{
    out.append("## ");
    out.append(name.as_str());
    out.append(" Domain\n\n");
    assert(out@ =~= old(out)@ + domain_heading(name@));
}

/// Five texts written one after another make their concatenation.
proof fn lemma_five(s: Seq<char>, a: Seq<char>, b: Seq<char>, c: Seq<char>, d: Seq<char>, e: Seq<char>)
    ensures
        s + a + b + c + d + e == s + (a + b + c + d + e),
{
    assert(s + a + b + c + d + e =~= s + (a + b + c + d + e));
}

/// Appends the section of a domain.
#[verifier::rlimit(40)]
pub fn push_domain(out: &mut String, d: &Domain)
    ensures
        final(out)@ == old(out)@ + domain_section()(d@),
{
    push_domain_heading(out, &d.name);
    push_summary(out, &d.description, d.experimental, d.deprecated);
    push_methods_section(out, d);
    push_types_section(out, d);
    push_events_section(out, d);
    proof {
        lemma_five(
            old(out)@,
            domain_heading(d@.name),
            summary(d@.description, d@.experimental, d@.deprecated),
            methods_section(d@.name, d@.commands),
            types_section(d@.name, d@.types),
            events_section(d@.name, d@.events),
        );
    }
}

/// Appends the sections of the domains of a protocol.
pub fn push_domains(out: &mut String, items: &Vec<Domain>)
    ensures
        final(out)@ == old(out)@ + flat_map(domains_view(items@), domain_section()),
{
    let ghost all = domains_view(items@);
    let mut i: usize = 0;
    assert(all.take(0) =~= Seq::empty());
    assert(out@ =~= old(out)@ + flat_map(all.take(0), domain_section()));
    while i < items.len()
        invariant
            i <= items.len(),
            all == domains_view(items@),
            out@ == old(out)@ + flat_map(all.take(i as int), domain_section()),
        decreases items.len() - i,
    {
        proof {
            assert(all.take(i + 1) =~= all.take(i as int).push(all[i as int]));
            lemma_flat_map_push(all.take(i as int), all[i as int], domain_section());
        }
        let ghost before = out@;
        push_domain(out, &items[i]);
        i += 1;
        assert(out@ =~= old(out)@ + flat_map(all.take(i as int), domain_section()));
    }
    assert(all.take(items.len() as int) =~= all);
}

/// Writes the documentation of a protocol as Markdown, under the given title.
pub fn render_markdown(p: &Protocol, title: &str) -> (r: String)
    ensures
        r@ == markdown_spec(p@, title@),
{
    let mut out = String::new();
    out.append("# ");
    out.append(title);
    out.append("\n\nversion: ");
    push_decimal(&mut out, p.version.major);
    out.append(".");
    push_decimal(&mut out, p.version.minor);
    out.append("\n\n");
    push_domains(&mut out, &p.domains);
    assert(out@ =~= markdown_spec(p@, title@));
    out
}

} // verus!
