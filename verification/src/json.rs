//! The JSON form of a document: the value that stands for each part, and
//! the text of a value, compact or pretty.

use crate::chars::{decimal, push_decimal};
use crate::model::{
    commands_view, domains_view, events_view, lines_view, params_view, type_defs_view,
    variants_view, Command, CommandView, Domain, DomainView, Event, EventView, Item, ItemView,
    Lines, Param, ParamView, Protocol, ProtocolView, Redirect, RedirectView, Type, TypeDef,
    TypeDefView, TypeView, Variant, VariantView, Version, VersionView,
};
use vstd::prelude::*;
use vstd::string::StringExecFns;

verus! {

/// What a JSON value stands for.
pub enum JsonView {
    Null,
    Text(Seq<char>),
    Flag(bool),
    List(Seq<JsonView>),
    Object(Seq<(Seq<char>, JsonView)>),
}

/// A JSON value. An object holds its entries in the order in which they
/// are written, and may hold a key twice.
#[derive(Debug, PartialEq, Eq)]
pub enum Json {
    Null,
    Text(String),
    Flag(bool),
    List(Vec<Json>),
    Object(Vec<(String, Json)>),
}

/// What a JSON value stands for, by recursion on its shape.
pub open spec fn json_view(j: Json) -> JsonView
    decreases j,
{
    match j {
        Json::Null => JsonView::Null,
        Json::Text(s) => JsonView::Text(s@),
        Json::Flag(b) => JsonView::Flag(b),
        Json::List(v) => JsonView::List(
            Seq::new(
                v@.len(),
                |i: int|
                    if 0 <= i < v@.len() {
                        json_view(v@[i])
                    } else {
                        JsonView::Null
                    },
            ),
        ),
        Json::Object(v) => JsonView::Object(
            Seq::new(
                v@.len(),
                |i: int|
                    if 0 <= i < v@.len() {
                        (v@[i].0@, json_view(v@[i].1))
                    } else {
                        (Seq::empty(), JsonView::Null)
                    },
            ),
        ),
    }
}

impl View for Json {
    type V = JsonView;

    open spec fn view(&self) -> JsonView {
        json_view(*self)
    }
}

/// The views of a vector of values, in order.
pub open spec fn items_view(v: Seq<Json>) -> Seq<JsonView> {
    Seq::new(v.len(), |i: int| v[i]@)
}

/// The views of a vector of entries, in order.
pub open spec fn entries_view(v: Seq<(String, Json)>) -> Seq<(Seq<char>, JsonView)> {
    Seq::new(v.len(), |i: int| (v[i].0@, v[i].1@))
}

/// A list stands for the list of what its members stand for.
pub proof fn lemma_list_view(v: Vec<Json>)
    ensures
        Json::List(v)@ == JsonView::List(items_view(v@)),
{
    assert(Json::List(v)@->List_0 =~= items_view(v@));
}

/// An object stands for the entries that its entries stand for.
pub proof fn lemma_object_view(v: Vec<(String, Json)>)
    ensures
        Json::Object(v)@ == JsonView::Object(entries_view(v@)),
{
    assert(Json::Object(v)@->Object_0 =~= entries_view(v@));
}

/// What `serde_json` makes of a text that it is to write as a JSON string
/// literal: the literal, which is the text between double quotes with the
/// escapes that `serde_json` writes, or nothing where it reports an error.
pub uninterp spec fn json_string(s: Seq<char>) -> Option<Seq<char>>;

/// The JSON string literal for a text, where `serde_json` writes one.
pub open spec fn json_literal(s: Seq<char>) -> Seq<char> {
    match json_string(s) {
        Some(q) => q,
        None => Seq::empty(),
    }
}

/// What stands before a member of a list or an object.
pub open spec fn open_text(first: bool, pretty: bool, indent: Seq<char>) -> Seq<char> {
    if pretty {
        (if first {
            "\n"@
        } else {
            ",\n"@
        }) + indent + "  "@
    } else if first {
        Seq::empty()
    } else {
        ","@
    }
}

/// What stands between the last member of a list or an object and the
/// bracket that closes it.
pub open spec fn close_text(pretty: bool, indent: Seq<char>) -> Seq<char> {
    if pretty {
        "\n"@ + indent
    } else {
        Seq::empty()
    }
}

/// What stands between a key and its value.
pub open spec fn colon_text(pretty: bool) -> Seq<char> {
    if pretty {
        ": "@
    } else {
        ":"@
    }
}

/// The text of a JSON value: compact, or pretty with two spaces for each
/// level below `indent`.
pub open spec fn json_form(j: JsonView, pretty: bool, indent: Seq<char>) -> Seq<char>
    decreases j, 0nat,
{
    match j {
        JsonView::Null => "null"@,
        JsonView::Text(s) => json_literal(s),
        JsonView::Flag(b) => if b {
            "true"@
        } else {
            "false"@
        },
        JsonView::List(items) => if items.len() == 0 {
            "[]"@
        } else {
            "["@ + items_form(items, items.len(), pretty, indent) + close_text(pretty, indent)
                + "]"@
        },
        JsonView::Object(entries) => if entries.len() == 0 {
            "{}"@
        } else {
            "{"@ + entries_form(entries, entries.len(), pretty, indent) + close_text(
                pretty,
                indent,
            ) + "}"@
        },
    }
}

/// The text of the first `n` members of a list.
pub open spec fn items_form(items: Seq<JsonView>, n: nat, pretty: bool, indent: Seq<char>) -> Seq<
    char,
>
    decreases items, n,
{
    if n == 0 || n > items.len() {
        Seq::empty()
    } else {
        items_form(items, (n - 1) as nat, pretty, indent) + open_text(n == 1, pretty, indent)
            + json_form(items[n - 1], pretty, indent + "  "@)
    }
}

/// The text of the first `n` entries of an object.
pub open spec fn entries_form(
    entries: Seq<(Seq<char>, JsonView)>,
    n: nat,
    pretty: bool,
    indent: Seq<char>,
) -> Seq<char>
    decreases entries, n,
{
    if n == 0 || n > entries.len() {
        Seq::empty()
    } else {
        entries_form(entries, (n - 1) as nat, pretty, indent) + open_text(n == 1, pretty, indent)
            + json_literal(entries[n - 1].0) + colon_text(pretty) + json_form(
            entries[n - 1].1,
            pretty,
            indent + "  "@,
        )
    }
}

/// `serde_json` writes a string literal for every text and every key of
/// the value.
pub open spec fn can_write(j: JsonView) -> bool
    decreases j, 0nat,
{
    match j {
        JsonView::Text(s) => json_string(s) is Some,
        JsonView::List(items) => can_write_items(items, items.len()),
        JsonView::Object(entries) => can_write_entries(entries, entries.len()),
        _ => true,
    }
}

/// `serde_json` writes a string literal for every text and every key of
/// the first `n` members of a list.
pub open spec fn can_write_items(items: Seq<JsonView>, n: nat) -> bool
    decreases items, n,
{
    if n == 0 || n > items.len() {
        true
    } else {
        can_write_items(items, (n - 1) as nat) && can_write(items[n - 1])
    }
}

/// `serde_json` writes a string literal for every text and every key of
/// the first `n` entries of an object.
pub open spec fn can_write_entries(entries: Seq<(Seq<char>, JsonView)>, n: nat) -> bool
    decreases entries, n,
{
    if n == 0 || n > entries.len() {
        true
    } else {
        can_write_entries(entries, (n - 1) as nat) && json_string(entries[n - 1].0) is Some
            && can_write(entries[n - 1].1)
    }
}

/// Where some of the first members of a list cannot be written, neither
/// can more of them.
pub proof fn lemma_items_fail(items: Seq<JsonView>, k: nat, n: nat)
    requires
        k <= n <= items.len(),
        !can_write_items(items, k),
    ensures
        !can_write_items(items, n),
    decreases n,
{
    if k < n {
        lemma_items_fail(items, k, (n - 1) as nat);
    }
}

/// Where some of the first entries of an object cannot be written,
/// neither can more of them.
pub proof fn lemma_entries_fail(entries: Seq<(Seq<char>, JsonView)>, k: nat, n: nat)
    requires
        k <= n <= entries.len(),
        !can_write_entries(entries, k),
    ensures
        !can_write_entries(entries, n),
    decreases n,
{
    if k < n {
        lemma_entries_fail(entries, k, (n - 1) as nat);
    }
}

/// The compact text of a JSON value.
pub open spec fn json_text(j: JsonView) -> Seq<char> {
    json_form(j, false, Seq::empty())
}

/// The pretty text of a JSON value.
pub open spec fn json_pretty(j: JsonView) -> Seq<char> {
    json_form(j, true, Seq::empty())
}

/// The error of `serde_json`.
#[verifier::external_type_specification]
#[verifier::external_body]
pub struct ExJsonError(serde_json::Error);

/// Why a document could not be written as JSON.
#[derive(Debug)]
pub struct SerializationError {
    /// What `serde_json` reported.
    pub cause: serde_json::Error,
}

/// `serde_json::to_string` on a string slice. What it returns depends on
/// the text alone and goes by the name `json_string`: the literal where it
/// succeeds, nothing where it reports an error. That it succeeds is not
/// claimed.
#[verifier::external_body]
fn quote(s: &str) -> (r: Result<String, serde_json::Error>)
    ensures
        match r {
            Ok(q) => json_string(s@) == Some(q@),
            Err(_) => json_string(s@) is None,
        },
{
    serde_json::to_string(s)
}

/// Appends a string literal that `serde_json` has written to `out`, or
/// hands on its error and leaves `out` as it is.
pub fn push_quoted(out: &mut String, quoted: Result<String, serde_json::Error>) -> (r: Result<
    (),
    SerializationError,
>)
    ensures
        match quoted {
            Ok(q) => r is Ok && final(out)@ == old(out)@ + q@,
            Err(_) => r is Err && final(out)@ == old(out)@,
        },
{
    match quoted {
        Ok(q) => {
            out.append(q.as_str());
            Ok(())
        },
        Err(cause) => Err(SerializationError { cause }),
    }
}

/// Appends what stands before a member of a list or an object.
fn push_open(out: &mut String, first: bool, pretty: bool, indent: &String)
    ensures
        final(out)@ == old(out)@ + open_text(first, pretty, indent@),
{
    if pretty {
        if first {
            out.append("\n");
        } else {
            out.append(",\n");
        }
        out.append(indent.as_str());
        out.append("  ");
        assert(out@ =~= old(out)@ + open_text(first, pretty, indent@));
    } else if first {
        assert(out@ =~= old(out)@ + open_text(first, pretty, indent@));
    } else {
        out.append(",");
    }
}

/// Appends what stands before the bracket that closes a list or an object.
fn push_close(out: &mut String, pretty: bool, indent: &String)
    ensures
        final(out)@ == old(out)@ + close_text(pretty, indent@),
{
    if pretty {
        out.append("\n");
        out.append(indent.as_str());
        assert(out@ =~= old(out)@ + close_text(pretty, indent@));
    } else {
        assert(out@ =~= old(out)@ + close_text(pretty, indent@));
    }
}

/// Appends the text of a JSON value to `out`, where `serde_json` writes
/// all of its string literals. Where it reports an error for one of them,
/// so does this function, and `out` holds what was written until then.
pub fn write_json(out: &mut String, j: &Json, pretty: bool, indent: &String) -> (r: Result<
    (),
    SerializationError,
>)
    ensures
        r is Ok <==> can_write(j@),
        r is Ok ==> final(out)@ == old(out)@ + json_form(j@, pretty, indent@),
    decreases j,
{
    match j {
        Json::Null => {
            out.append("null");
            Ok(())
        },
        Json::Text(s) => push_quoted(out, quote(s.as_str())),
        Json::Flag(b) => {
            if *b {
                out.append("true");
            } else {
                out.append("false");
            }
            Ok(())
        },
        Json::List(items) => {
            proof {
                lemma_list_view(*items);
            }
            if items.len() == 0 {
                out.append("[]");
                return Ok(());
            }
            let ghost all = items_view(items@);
            let mut deeper = indent.clone();
            deeper.append("  ");
            out.append("[");
            let mut i: usize = 0;
            while i < items.len()
                invariant
                    i <= items.len(),
                    decreases_to!(*j => *items),
                    all == items_view(items@),
                    j@ == JsonView::List(all),
                    can_write_items(all, i as nat),
                    deeper@ == indent@ + "  "@,
                    out@ == old(out)@ + "["@ + items_form(all, i as nat, pretty, indent@),
                decreases items.len() - i,
            {
                let ghost before = out@;
                push_open(out, i == 0, pretty, indent);
                assert(decreases_to!(*items => items[i as int]));
                assert(all[i as int] == items[i as int]@);
                match write_json(out, &items[i], pretty, &deeper) {
                    Ok(()) => {},
                    Err(e) => {
                        proof {
                            lemma_items_fail(all, (i + 1) as nat, all.len());
                        }
                        return Err(e);
                    },
                }
                i += 1;
                assert(out@ =~= old(out)@ + "["@ + items_form(all, i as nat, pretty, indent@));
            }
            push_close(out, pretty, indent);
            out.append("]");
            assert(out@ =~= old(out)@ + json_form(j@, pretty, indent@));
            Ok(())
        },
        Json::Object(entries) => {
            proof {
                lemma_object_view(*entries);
            }
            if entries.len() == 0 {
                out.append("{}");
                return Ok(());
            }
            let ghost all = entries_view(entries@);
            let mut deeper = indent.clone();
            deeper.append("  ");
            out.append("{");
            let mut i: usize = 0;
            while i < entries.len()
                invariant
                    i <= entries.len(),
                    decreases_to!(*j => *entries),
                    all == entries_view(entries@),
                    j@ == JsonView::Object(all),
                    can_write_entries(all, i as nat),
                    deeper@ == indent@ + "  "@,
                    out@ == old(out)@ + "{"@ + entries_form(all, i as nat, pretty, indent@),
                decreases entries.len() - i,
            {
                push_open(out, i == 0, pretty, indent);
                assert(all[i as int] == (entries[i as int].0@, entries[i as int].1@));
                let key = quote(entries[i].0.as_str());
                match push_quoted(out, key) {
                    Ok(()) => {},
                    Err(e) => {
                        proof {
                            lemma_entries_fail(all, (i + 1) as nat, all.len());
                        }
                        return Err(e);
                    },
                }
                if pretty {
                    out.append(": ");
                } else {
                    out.append(":");
                }
                assert(decreases_to!(*entries => entries[i as int]));
                match write_json(out, &entries[i].1, pretty, &deeper) {
                    Ok(()) => {},
                    Err(e) => {
                        proof {
                            lemma_entries_fail(all, (i + 1) as nat, all.len());
                        }
                        return Err(e);
                    },
                }
                i += 1;
                assert(out@ =~= old(out)@ + "{"@ + entries_form(all, i as nat, pretty, indent@));
            }
            push_close(out, pretty, indent);
            out.append("}");
            assert(out@ =~= old(out)@ + json_form(j@, pretty, indent@));
            Ok(())
        },
    }
}

/// The entries of an object, in the order in which they are written.
pub type Entries = Seq<(Seq<char>, JsonView)>;

/// The lines of a description as one text, with a space between them.
pub open spec fn joined(description: Lines) -> Seq<char>
    decreases description.len(),
{
    if description.len() == 0 {
        Seq::empty()
    } else if description.len() == 1 {
        description[0]
    } else {
        joined(description.drop_last()).push(' ') + description.last()
    }
}

/// The entry for a description, which is left out where the description is empty.
pub open spec fn description_entry(description: Lines) -> Entries {
    if description.len() > 0 {
        seq![("description"@, JsonView::Text(joined(description)))]
    } else {
        Seq::empty()
    }
}

/// The entry for a modifier, which is left out where the modifier is not set.
pub open spec fn flag_entry(key: Seq<char>, on: bool) -> Entries {
    if on {
        seq![(key, JsonView::Flag(true))]
    } else {
        Seq::empty()
    }
}

/// The entry for a list, which is left out where the list is empty.
pub open spec fn list_entry(key: Seq<char>, items: Seq<JsonView>) -> Entries {
    if items.len() > 0 {
        seq![(key, JsonView::List(items))]
    } else {
        Seq::empty()
    }
}

/// The texts of a sequence as JSON strings.
pub open spec fn text_values(texts: Lines) -> Seq<JsonView> {
    Seq::new(texts.len(), |i: int| JsonView::Text(texts[i]))
}

/// The names of the variants as JSON strings.
pub open spec fn variant_names(variants: Seq<VariantView>) -> Seq<JsonView> {
    Seq::new(variants.len(), |i: int| JsonView::Text(variants[i].name))
}

/// The entries that describe a type, merged into the object of its owner.
pub open spec fn type_entries(t: TypeView) -> Entries
    decreases t,
{
    match t {
        TypeView::Integer => seq![("type"@, JsonView::Text("integer"@))],
        TypeView::Number => seq![("type"@, JsonView::Text("number"@))],
        TypeView::Boolean => seq![("type"@, JsonView::Text("boolean"@))],
        TypeView::String => seq![("type"@, JsonView::Text("string"@))],
        TypeView::Object => seq![("type"@, JsonView::Text("object"@))],
        TypeView::Any => seq![("type"@, JsonView::Text("any"@))],
        TypeView::Binary => seq![("type"@, JsonView::Text("binary"@))],
        TypeView::Enum(variants) => seq![
            ("type"@, JsonView::Text("string"@)),
            ("enum"@, JsonView::List(variant_names(variants))),
        ],
        TypeView::ArrayOf(inner) => seq![
            ("type"@, JsonView::Text("array"@)),
            ("items"@, JsonView::Object(type_entries(*inner))),
        ],
        TypeView::Ref(name) => seq![("$ref"@, JsonView::Text(name))],
    }
}

/// The JSON object for a parameter.
pub open spec fn param_value(p: ParamView) -> JsonView {
    JsonView::Object(
        description_entry(p.description) + flag_entry("experimental"@, p.experimental)
            + flag_entry("deprecated"@, p.deprecated) + flag_entry("optional"@, p.optional)
            + type_entries(p.ty) + seq![("name"@, JsonView::Text(p.name))],
    )
}

/// The JSON objects for a list of parameters.
pub open spec fn param_values(params: Seq<ParamView>) -> Seq<JsonView> {
    Seq::new(params.len(), |i: int| param_value(params[i]))
}

/// The entry for what a type definition adds.
pub open spec fn item_entries(item: Option<ItemView>) -> Entries {
    match item {
        Some(ItemView::Enum(variants)) => seq![("enum"@, JsonView::List(variant_names(variants)))],
        Some(ItemView::Properties(params)) => seq![
            ("properties"@, JsonView::List(param_values(params))),
        ],
        None => Seq::empty(),
    }
}

/// The JSON object for a type definition.
pub open spec fn type_def_value(t: TypeDefView) -> JsonView {
    JsonView::Object(
        description_entry(t.description) + flag_entry("experimental"@, t.experimental)
            + flag_entry("deprecated"@, t.deprecated) + seq![("id"@, JsonView::Text(t.id))]
            + type_entries(t.extends) + item_entries(t.item),
    )
}

/// The JSON objects for a list of type definitions.
pub open spec fn type_def_values(types: Seq<TypeDefView>) -> Seq<JsonView> {
    Seq::new(types.len(), |i: int| type_def_value(types[i]))
}

/// The JSON value for a redirect that may be absent: the name of the
/// domain it points to, or `null`.
pub open spec fn redirect_value(redirect: Option<RedirectView>) -> JsonView {
    match redirect {
        Some(r) => JsonView::Text(r.to),
        None => JsonView::Null,
    }
}

/// The entry for a redirect, which is left out where there is none.
pub open spec fn redirect_entry(redirect: Option<RedirectView>) -> Entries {
    match redirect {
        Some(r) => seq![("redirect"@, redirect_value(redirect))],
        None => Seq::empty(),
    }
}

/// The JSON object for a command.
pub open spec fn command_value(c: CommandView) -> JsonView {
    JsonView::Object(
        description_entry(c.description) + flag_entry("experimental"@, c.experimental)
            + flag_entry("deprecated"@, c.deprecated) + seq![("name"@, JsonView::Text(c.name))]
            + redirect_entry(c.redirect) + list_entry("parameters"@, param_values(c.parameters))
            + list_entry("returns"@, param_values(c.returns)),
    )
}

/// The JSON objects for a list of commands.
pub open spec fn command_values(commands: Seq<CommandView>) -> Seq<JsonView> {
    Seq::new(commands.len(), |i: int| command_value(commands[i]))
}

/// The JSON object for an event.
pub open spec fn event_value(e: EventView) -> JsonView {
    JsonView::Object(
        description_entry(e.description) + flag_entry("experimental"@, e.experimental)
            + flag_entry("deprecated"@, e.deprecated) + seq![("name"@, JsonView::Text(e.name))]
            + list_entry("parameters"@, param_values(e.parameters)),
    )
}

/// The JSON objects for a list of events.
pub open spec fn event_values(events: Seq<EventView>) -> Seq<JsonView> {
    Seq::new(events.len(), |i: int| event_value(events[i]))
}

/// The JSON object for a domain.
pub open spec fn domain_value(d: DomainView) -> JsonView {
    JsonView::Object(
        description_entry(d.description) + flag_entry("experimental"@, d.experimental)
            + flag_entry("deprecated"@, d.deprecated) + seq![("domain"@, JsonView::Text(d.name))]
            + list_entry("dependencies"@, text_values(d.dependencies)) + list_entry(
            "types"@,
            type_def_values(d.types),
        ) + list_entry("commands"@, command_values(d.commands)) + list_entry(
            "events"@,
            event_values(d.events),
        ),
    )
}

/// The JSON objects for a list of domains.
pub open spec fn domain_values(domains: Seq<DomainView>) -> Seq<JsonView> {
    Seq::new(domains.len(), |i: int| domain_value(domains[i]))
}

/// The JSON value for a number: its decimal form, as a string.
pub open spec fn number_value_json(n: nat) -> JsonView {
    JsonView::Text(decimal(n))
}

/// The JSON object for a version.
pub open spec fn version_value(v: VersionView) -> JsonView {
    JsonView::Object(
        seq![("major"@, number_value_json(v.major)), ("minor"@, number_value_json(v.minor))],
    )
}

/// The JSON object for a document. Its description is not part of it.
pub open spec fn protocol_value(p: ProtocolView) -> JsonView {
    JsonView::Object(
        seq![("version"@, version_value(p.version))] + list_entry(
            "domains"@,
            domain_values(p.domains),
        ),
    )
}

/// Tells whether a modifier is unset, so that the JSON form leaves it out.
pub fn is_false(v: &bool) -> (r: bool)
    ensures
        r == !*v,
{
    !*v
}

/// Appends the entry `key: value`.
pub fn push_entry(entries: &mut Vec<(String, Json)>, key: &str, value: Json)
    ensures
        entries_view(final(entries)@) == entries_view(old(entries)@).push((key@, value@)),
{
    let ghost before = entries@;
    entries.push((key.to_owned(), value));
    assert(entries_view(entries@) =~= entries_view(before).push((key@, value@)));
}

/// Appends the entry `key: true` where `on` is set.
pub fn push_flag_entry(entries: &mut Vec<(String, Json)>, key: &str, on: bool)
    ensures
        entries_view(final(entries)@) == entries_view(old(entries)@) + flag_entry(key@, on),
{
    if is_false(&on) {
        assert(entries_view(entries@) + flag_entry(key@, on) =~= entries_view(entries@));
    } else {
        push_entry(entries, key, Json::Flag(true));
        assert(entries_view(entries@) =~= entries_view(old(entries)@) + flag_entry(key@, on));
    }
}

/// Appends the entry `key: [items]` where there are items.
pub fn push_list_entry(entries: &mut Vec<(String, Json)>, key: &str, items: Vec<Json>)
    ensures
        entries_view(final(entries)@) == entries_view(old(entries)@) + list_entry(
            key@,
            items_view(items@),
        ),
{
    if items.len() > 0 {
        proof {
            lemma_list_view(items);
        }
        push_entry(entries, key, Json::List(items));
        assert(entries_view(entries@) =~= entries_view(old(entries)@) + list_entry(
            key@,
            items_view(items@),
        ));
    } else {
        assert(entries_view(entries@) + list_entry(key@, items_view(items@)) =~= entries_view(
            entries@,
        ));
    }
}

/// Appends all of `more`.
pub fn push_entries(entries: &mut Vec<(String, Json)>, more: Vec<(String, Json)>)
    ensures
        entries_view(final(entries)@) == entries_view(old(entries)@) + entries_view(more@),
{
    let mut more = more;
    let ghost before = entries@;
    let ghost added = more@;
    entries.append(&mut more);
    assert(entries_view(entries@) =~= entries_view(before) + entries_view(added));
}

/// The JSON value for a number: its decimal form, as a string.
pub fn serialize_usize(n: &usize) -> (r: Json)
    ensures
        r@ == number_value_json(*n as nat),
{
    let mut text = String::new();
    push_decimal(&mut text, *n);
    assert(text@ =~= decimal(*n as nat));
    Json::Text(text)
}

/// The JSON value for a description: its lines as one string, with a
/// space between them.
pub fn serialize_description(description: &Vec<String>) -> (r: Json)
    ensures
        r@ == JsonView::Text(joined(lines_view(description@))),
{
    let ghost all = lines_view(description@);
    let mut text = String::new();
    let mut i: usize = 0;
    assert(all.take(0) =~= Seq::empty());
    while i < description.len()
        invariant
            i <= description.len(),
            all == lines_view(description@),
            text@ == joined(all.take(i as int)),
        decreases description.len() - i,
    {
        proof {
            assert(all.take(i + 1).drop_last() =~= all.take(i as int));
            assert(all.take(i + 1).last() == all[i as int]);
        }
        if i > 0 {
            text.push(' ');
        }
        text.append(description[i].as_str());
        i += 1;
        assert(text@ =~= joined(all.take(i as int)));
    }
    assert(all.take(description.len() as int) =~= all);
    Json::Text(text)
}

/// The JSON value for the variants of an enumeration: the list of their names.
pub fn serialize_enum(variants: &Vec<Variant>) -> (r: Json)
    ensures
        r@ == JsonView::List(variant_names(variants_view(variants@))),
{
    let mut out: Vec<Json> = Vec::new();
    let mut i: usize = 0;
    while i < variants.len()
        invariant
            i <= variants.len(),
            out@.len() == i,
            forall|k: int| 0 <= k < i ==> (#[trigger] out@[k])@ == JsonView::Text(variants@[k]@.name),
        decreases variants.len() - i,
    {
        out.push(Json::Text(variants[i].name.clone()));
        i += 1;
    }
    proof {
        lemma_list_view(out);
        assert(items_view(out@) =~= variant_names(variants_view(variants@)));
    }
    Json::List(out)
}

/// The JSON value for a redirect that may be absent.
pub fn serialize_redirect(redirect: &Option<Redirect>) -> (r: Json)
    ensures
        r@ == redirect_value(crate::model::redirect_view(*redirect)),
{
    match redirect {
        Some(r) => Json::Text(r.to.clone()),
        None => Json::Null,
    }
}

/// Appends the entry for a description, where there is one.
pub fn push_description(entries: &mut Vec<(String, Json)>, description: &Vec<String>)
    ensures
        entries_view(final(entries)@) == entries_view(old(entries)@) + description_entry(
            lines_view(description@),
        ),
{
    if description.len() > 0 {
        push_entry(entries, "description", serialize_description(description));
        assert(entries_view(entries@) =~= entries_view(old(entries)@) + description_entry(
            lines_view(description@),
        ));
    } else {
        assert(entries_view(entries@) + description_entry(lines_view(description@))
            =~= entries_view(entries@));
    }
}

/// An entry whose value is a string.
fn text_entry(key: &str, value: &str) -> (r: (String, Json))
    ensures
        r.0@ == key@,
        r.1@ == JsonView::Text(value@),
{
    (key.to_owned(), Json::Text(value.to_owned()))
}

/// The entries `"type": kind`.
fn kind_entries(kind: &str) -> (r: Vec<(String, Json)>)
    ensures
        entries_view(r@) == seq![("type"@, JsonView::Text(kind@))],
{
    let mut out: Vec<(String, Json)> = Vec::new();
    out.push(text_entry("type", kind));
    assert(entries_view(out@) =~= seq![("type"@, JsonView::Text(kind@))]);
    out
}

/// The entries that describe a type.
pub fn serialize_type(t: &Type) -> (r: Vec<(String, Json)>)
    ensures
        entries_view(r@) == type_entries(t@),
    decreases t,
{
    match t {
        Type::Integer => kind_entries("integer"),
        Type::Number => kind_entries("number"),
        Type::Boolean => kind_entries("boolean"),
        Type::String => kind_entries("string"),
        Type::Object => kind_entries("object"),
        Type::Any => kind_entries("any"),
        Type::Binary => kind_entries("binary"),
        Type::Enum(variants) => {
            let mut out = kind_entries("string");
            push_entry(&mut out, "enum", serialize_enum(variants));
            assert(entries_view(out@) =~= type_entries(t@));
            out
        },
        Type::ArrayOf(inner) => {
            let mut out = kind_entries("array");
            let items = serialize_type(&**inner);
            proof {
                lemma_object_view(items);
            }
            push_entry(&mut out, "items", Json::Object(items));
            assert(entries_view(out@) =~= type_entries(t@));
            out
        },
        Type::Ref(name) => {
            let mut out: Vec<(String, Json)> = Vec::new();
            out.push(text_entry("$ref", name.as_str()));
            assert(entries_view(out@) =~= type_entries(t@));
            out
        },
    }
}

/// The JSON object for a parameter.
pub fn param_json(p: &Param) -> (r: Json)
    ensures
        r@ == param_value(p@),
{
    let mut out: Vec<(String, Json)> = Vec::new();
    assert(entries_view(out@) =~= Seq::empty());
    push_description(&mut out, &p.description);
    push_flag_entry(&mut out, "experimental", p.experimental);
    push_flag_entry(&mut out, "deprecated", p.deprecated);
    push_flag_entry(&mut out, "optional", p.optional);
    push_entries(&mut out, serialize_type(&p.ty));
    push_entry(&mut out, "name", Json::Text(p.name.clone()));
    proof {
        lemma_object_view(out);
        assert(entries_view(out@) =~= param_value(p@)->Object_0);
    }
    Json::Object(out)
}

/// The JSON objects for a list of parameters.
pub fn params_json(items: &Vec<Param>) -> (r: Vec<Json>)
    ensures
        items_view(r@) == param_values(params_view(items@)),
{
    let mut out: Vec<Json> = Vec::new();
    let mut i: usize = 0;
    while i < items.len()
        invariant
            i <= items.len(),
            out@.len() == i,
            forall|k: int| 0 <= k < i ==> (#[trigger] out@[k])@ == param_values(params_view(items@))[k],
        decreases items.len() - i,
    {
        let value = param_json(&items[i]);
        out.push(value);
        i += 1;
    }
    assert(items_view(out@) =~= param_values(params_view(items@)));
    out
}

/// Appends the entry for what a type definition adds, where it adds something.
pub fn push_item(entries: &mut Vec<(String, Json)>, item: &Option<Item>)
    ensures
        entries_view(final(entries)@) == entries_view(old(entries)@) + item_entries(
            crate::model::item_view(*item),
        ),
{
    match item {
        Some(Item::Enum(variants)) => {
            push_entry(entries, "enum", serialize_enum(variants));
            assert(entries_view(entries@) =~= entries_view(old(entries)@) + item_entries(
                crate::model::item_view(*item),
            ));
        },
        Some(Item::Properties(params)) => {
            let values = params_json(params);
            proof {
                lemma_list_view(values);
            }
            push_entry(entries, "properties", Json::List(values));
            assert(entries_view(entries@) =~= entries_view(old(entries)@) + item_entries(
                crate::model::item_view(*item),
            ));
        },
        None => {
            assert(entries_view(entries@) + item_entries(crate::model::item_view(*item))
                =~= entries_view(entries@));
        },
    }
}

/// The JSON object for a type definition.
pub fn type_def_json(t: &TypeDef) -> (r: Json)
    ensures
        r@ == type_def_value(t@),
{
    let mut out: Vec<(String, Json)> = Vec::new();
    assert(entries_view(out@) =~= Seq::empty());
    push_description(&mut out, &t.description);
    push_flag_entry(&mut out, "experimental", t.experimental);
    push_flag_entry(&mut out, "deprecated", t.deprecated);
    push_entry(&mut out, "id", Json::Text(t.id.clone()));
    push_entries(&mut out, serialize_type(&t.extends));
    push_item(&mut out, &t.item);
    proof {
        lemma_object_view(out);
        assert(entries_view(out@) =~= type_def_value(t@)->Object_0);
    }
    Json::Object(out)
}

/// The JSON objects for a list of type definitions.
pub fn type_defs_json(items: &Vec<TypeDef>) -> (r: Vec<Json>)
    ensures
        items_view(r@) == type_def_values(type_defs_view(items@)),
{
    let mut out: Vec<Json> = Vec::new();
    let mut i: usize = 0;
    while i < items.len()
        invariant
            i <= items.len(),
            out@.len() == i,
            forall|k: int| 0 <= k < i ==> (#[trigger] out@[k])@ == type_def_values(type_defs_view(items@))[k],
        decreases items.len() - i,
    {
        let value = type_def_json(&items[i]);
        out.push(value);
        i += 1;
    }
    assert(items_view(out@) =~= type_def_values(type_defs_view(items@)));
    out
}

/// The JSON object for a command.
pub fn command_json(c: &Command) -> (r: Json)
    ensures
        r@ == command_value(c@),
{
    let mut out: Vec<(String, Json)> = Vec::new();
    assert(entries_view(out@) =~= Seq::empty());
    push_description(&mut out, &c.description);
    push_flag_entry(&mut out, "experimental", c.experimental);
    push_flag_entry(&mut out, "deprecated", c.deprecated);
    push_entry(&mut out, "name", Json::Text(c.name.clone()));
    let ghost before = entries_view(out@);
    if c.redirect.is_some() {
        push_entry(&mut out, "redirect", serialize_redirect(&c.redirect));
    }
    assert(entries_view(out@) =~= before + redirect_entry(c@.redirect));
    push_list_entry(&mut out, "parameters", params_json(&c.parameters));
    push_list_entry(&mut out, "returns", params_json(&c.returns));
    proof {
        lemma_object_view(out);
        assert(entries_view(out@) =~= command_value(c@)->Object_0);
    }
    Json::Object(out)
}

/// The JSON objects for a list of commands.
pub fn commands_json(items: &Vec<Command>) -> (r: Vec<Json>)
    ensures
        items_view(r@) == command_values(commands_view(items@)),
{
    let mut out: Vec<Json> = Vec::new();
    let mut i: usize = 0;
    while i < items.len()
        invariant
            i <= items.len(),
            out@.len() == i,
            forall|k: int| 0 <= k < i ==> (#[trigger] out@[k])@ == command_values(commands_view(items@))[k],
        decreases items.len() - i,
    {
        let value = command_json(&items[i]);
        out.push(value);
        i += 1;
    }
    assert(items_view(out@) =~= command_values(commands_view(items@)));
    out
}

/// The JSON object for an event.
pub fn event_json(e: &Event) -> (r: Json)
    ensures
        r@ == event_value(e@),
{
    let mut out: Vec<(String, Json)> = Vec::new();
    assert(entries_view(out@) =~= Seq::empty());
    push_description(&mut out, &e.description);
    push_flag_entry(&mut out, "experimental", e.experimental);
    push_flag_entry(&mut out, "deprecated", e.deprecated);
    push_entry(&mut out, "name", Json::Text(e.name.clone()));
    push_list_entry(&mut out, "parameters", params_json(&e.parameters));
    proof {
        lemma_object_view(out);
        assert(entries_view(out@) =~= event_value(e@)->Object_0);
    }
    Json::Object(out)
}

/// The JSON objects for a list of events.
pub fn events_json(items: &Vec<Event>) -> (r: Vec<Json>)
    ensures
        items_view(r@) == event_values(events_view(items@)),
{
    let mut out: Vec<Json> = Vec::new();
    let mut i: usize = 0;
    while i < items.len()
        invariant
            i <= items.len(),
            out@.len() == i,
            forall|k: int| 0 <= k < i ==> (#[trigger] out@[k])@ == event_values(events_view(items@))[k],
        decreases items.len() - i,
    {
        let value = event_json(&items[i]);
        out.push(value);
        i += 1;
    }
    assert(items_view(out@) =~= event_values(events_view(items@)));
    out
}

/// The names of a domain's dependencies as JSON strings.
pub fn texts_json(items: &Vec<String>) -> (r: Vec<Json>)
    ensures
        items_view(r@) == text_values(lines_view(items@)),
{
    let mut out: Vec<Json> = Vec::new();
    let mut i: usize = 0;
    while i < items.len()
        invariant
            i <= items.len(),
            out@.len() == i,
            forall|k: int| 0 <= k < i ==> (#[trigger] out@[k])@ == JsonView::Text(items@[k]@),
        decreases items.len() - i,
    {
        out.push(Json::Text(items[i].clone()));
        i += 1;
    }
    assert(items_view(out@) =~= text_values(lines_view(items@)));
    out
}

/// The JSON object for a domain.
pub fn domain_json(d: &Domain) -> (r: Json)
    ensures
        r@ == domain_value(d@),
{
    let mut out: Vec<(String, Json)> = Vec::new();
    assert(entries_view(out@) =~= Seq::empty());
    push_description(&mut out, &d.description);
    push_flag_entry(&mut out, "experimental", d.experimental);
    push_flag_entry(&mut out, "deprecated", d.deprecated);
    push_entry(&mut out, "domain", Json::Text(d.name.clone()));
    push_list_entry(&mut out, "dependencies", texts_json(&d.dependencies));
    push_list_entry(&mut out, "types", type_defs_json(&d.types));
    push_list_entry(&mut out, "commands", commands_json(&d.commands));
    push_list_entry(&mut out, "events", events_json(&d.events));
    proof {
        lemma_object_view(out);
        assert(entries_view(out@) =~= domain_value(d@)->Object_0);
    }
    Json::Object(out)
}

/// The JSON objects for a list of domains.
pub fn domains_json(items: &Vec<Domain>) -> (r: Vec<Json>)
    ensures
        items_view(r@) == domain_values(domains_view(items@)),
{
    let mut out: Vec<Json> = Vec::new();
    let mut i: usize = 0;
    while i < items.len()
        invariant
            i <= items.len(),
            out@.len() == i,
            forall|k: int| 0 <= k < i ==> (#[trigger] out@[k])@ == domain_values(domains_view(items@))[k],
        decreases items.len() - i,
    {
        let value = domain_json(&items[i]);
        out.push(value);
        i += 1;
    }
    assert(items_view(out@) =~= domain_values(domains_view(items@)));
    out
}

/// The JSON object for a version.
pub fn version_json(v: &Version) -> (r: Json)
    ensures
        r@ == version_value(v@),
{
    let mut out: Vec<(String, Json)> = Vec::new();
    assert(entries_view(out@) =~= Seq::empty());
    push_entry(&mut out, "major", serialize_usize(&v.major));
    push_entry(&mut out, "minor", serialize_usize(&v.minor));
    proof {
        lemma_object_view(out);
        assert(entries_view(out@) =~= version_value(v@)->Object_0);
    }
    Json::Object(out)
}

/// The JSON object for a document.
pub fn protocol_json(p: &Protocol) -> (r: Json)
    ensures
        r@ == protocol_value(p@),
{
    let mut out: Vec<(String, Json)> = Vec::new();
    assert(entries_view(out@) =~= Seq::empty());
    push_entry(&mut out, "version", version_json(&p.version));
    push_list_entry(&mut out, "domains", domains_json(&p.domains));
    proof {
        lemma_object_view(out);
        assert(entries_view(out@) =~= protocol_value(p@)->Object_0);
    }
    Json::Object(out)
}

/// The text of a JSON value, compact or pretty.
///
/// The string literals are written by `serde_json`. The text is returned
/// where it writes all of them; where it reports an error for one, so does
/// this function.
pub fn json_to_string(j: &Json, pretty: bool) -> (r: Result<String, SerializationError>)
    ensures
        match r {
            Ok(s) => can_write(j@) && s@ == json_form(j@, pretty, Seq::empty()),
            Err(_) => !can_write(j@),
        },
{
    let mut out = String::new();
    let indent = String::new();
    match write_json(&mut out, j, pretty, &indent) {
        Ok(()) => {
            assert(out@ =~= json_form(j@, pretty, Seq::empty()));
            Ok(out)
        },
        Err(e) => Err(e),
    }
}

impl Protocol {
    /// Writes the document as compact JSON.
    ///
    /// The string literals are written by `serde_json`. The text is
    /// returned where it writes all of them; where it reports an error for
    /// one, so does this function.
    pub fn to_json(&self) -> (r: Result<String, SerializationError>)
        ensures
            match r {
                Ok(s) => can_write(protocol_value(self@)) && s@ == json_text(
                    protocol_value(self@),
                ),
                Err(_) => !can_write(protocol_value(self@)),
            },
    {
        json_to_string(&protocol_json(self), false)
    }

    /// Writes the document as JSON with one entry on each line, indented
    /// by two spaces for each level.
    ///
    /// The string literals are written by `serde_json`. The text is
    /// returned where it writes all of them; where it reports an error for
    /// one, so does this function.
    pub fn to_json_pretty(&self) -> (r: Result<String, SerializationError>)
        ensures
            match r {
                Ok(s) => can_write(protocol_value(self@)) && s@ == json_pretty(
                    protocol_value(self@),
                ),
                Err(_) => !can_write(protocol_value(self@)),
            },
    {
        json_to_string(&protocol_json(self), true)
    }
}

/// One of the keys under which a modifier or a description is written.
pub open spec fn is_sparse_key(key: Seq<char>) -> bool {
    key == "experimental"@ || key == "deprecated"@ || key == "optional"@ || key == "description"@
}

/// The value is an object, and none of its entries stands under the key
/// of a modifier or of a description.
pub open spec fn is_bare(j: JsonView) -> bool {
    j matches JsonView::Object(entries) && forall|i: int|
        0 <= i < entries.len() ==> !is_sparse_key(#[trigger] entries[i].0)
}

/// The keys that this library writes besides those of modifiers and
/// descriptions are none of these.
proof fn lemma_other_keys()
    ensures
        !is_sparse_key("type"@),
        !is_sparse_key("enum"@),
        !is_sparse_key("items"@),
        !is_sparse_key("$ref"@),
        !is_sparse_key("name"@),
        !is_sparse_key("id"@),
        !is_sparse_key("properties"@),
        !is_sparse_key("redirect"@),
        !is_sparse_key("parameters"@),
        !is_sparse_key("returns"@),
{
    reveal_strlit("experimental");
    reveal_strlit("deprecated");
    reveal_strlit("optional");
    reveal_strlit("description");
    reveal_strlit("type");
    reveal_strlit("enum");
    reveal_strlit("items");
    reveal_strlit("$ref");
    reveal_strlit("name");
    reveal_strlit("id");
    reveal_strlit("properties");
    reveal_strlit("redirect");
    reveal_strlit("parameters");
    reveal_strlit("returns");
    assert("experimental"@.len() == 12);
    assert("deprecated"@.len() == 10);
    assert("optional"@.len() == 8);
    assert("description"@.len() == 11);
    assert("type"@.len() == 4);
    assert("enum"@.len() == 4);
    assert("properties"@[0] != "deprecated"@[0]);
    assert("redirect"@[0] != "optional"@[0]);
    assert("parameters"@[0] != "deprecated"@[0]);
}

/// No entry of a type stands under the key of a modifier or a description.
proof fn lemma_type_entries_bare(t: TypeView)
    ensures
        forall|i: int|
            0 <= i < type_entries(t).len() ==> !is_sparse_key(#[trigger] type_entries(t)[i].0),
{
    lemma_other_keys();
}

/// A parameter with no modifier set and no description is written
/// without the keys `experimental`, `deprecated`, `optional` and
/// `description`.
pub proof fn lemma_sparse_param(p: ParamView)
    requires
        !p.experimental,
        !p.deprecated,
        !p.optional,
        p.description.len() == 0,
    ensures
        is_bare(param_value(p)),
{
    lemma_other_keys();
    lemma_type_entries_bare(p.ty);
    let entries = param_value(p)->Object_0;
    assert(entries =~= type_entries(p.ty) + seq![("name"@, JsonView::Text(p.name))]);
}

/// A type definition with no modifier set and no description is written
/// without the keys `experimental`, `deprecated`, `optional` and
/// `description`.
pub proof fn lemma_sparse_type_def(t: TypeDefView)
    requires
        !t.experimental,
        !t.deprecated,
        t.description.len() == 0,
    ensures
        is_bare(type_def_value(t)),
{
    lemma_other_keys();
    lemma_type_entries_bare(t.extends);
    let entries = type_def_value(t)->Object_0;
    assert(entries =~= seq![("id"@, JsonView::Text(t.id))] + type_entries(t.extends)
        + item_entries(t.item));
}

/// A command with no modifier set and no description is written without
/// the keys `experimental`, `deprecated`, `optional` and `description`.
pub proof fn lemma_sparse_command(c: CommandView)
    requires
        !c.experimental,
        !c.deprecated,
        c.description.len() == 0,
    ensures
        is_bare(command_value(c)),
{
    lemma_other_keys();
    let entries = command_value(c)->Object_0;
    assert(entries =~= seq![("name"@, JsonView::Text(c.name))] + redirect_entry(c.redirect)
        + list_entry("parameters"@, param_values(c.parameters)) + list_entry(
        "returns"@,
        param_values(c.returns),
    ));
}

/// An event with no modifier set and no description is written without
/// the keys `experimental`, `deprecated`, `optional` and `description`.
pub proof fn lemma_sparse_event(e: EventView)
    requires
        !e.experimental,
        !e.deprecated,
        e.description.len() == 0,
    ensures
        is_bare(event_value(e)),
{
    lemma_other_keys();
    let entries = event_value(e)->Object_0;
    assert(entries =~= seq![("name"@, JsonView::Text(e.name))] + list_entry(
        "parameters"@,
        param_values(e.parameters),
    ));
}

/// The JSON text of a document depends on nothing but the document: two
/// documents that stand for the same value are written letter for
/// letter alike, compact and pretty.
pub proof fn lemma_json_repeatable(p: Protocol, q: Protocol)
    requires
        p@ == q@,
    ensures
        json_text(protocol_value(p@)) == json_text(protocol_value(q@)),
        json_pretty(protocol_value(p@)) == json_pretty(protocol_value(q@)),
{
}

} // verus!
