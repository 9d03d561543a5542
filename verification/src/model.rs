//! The document model: what a parsed protocol definition holds, and the
//! mathematical value that each part stands for in contracts.

use vstd::prelude::*;

verus! {

/// The text of a description: one entry per comment line, trimmed.
pub type Lines = Seq<Seq<char>>;

/// The views of a vector of strings, in order.
pub open spec fn lines_view(v: Seq<String>) -> Lines {
    Seq::new(v.len(), |i: int| v[i]@)
}

/// What a [`Version`] stands for.
pub struct VersionView {
    pub major: nat,
    pub minor: nat,
}

/// What a [`Variant`] stands for.
pub struct VariantView {
    pub description: Lines,
    pub name: Seq<char>,
}

/// What a [`Type`] stands for.
pub enum TypeView {
    Integer,
    Number,
    Boolean,
    String,
    Object,
    Any,
    Binary,
    Enum(Seq<VariantView>),
    ArrayOf(Box<TypeView>),
    Ref(Seq<char>),
}

/// What a [`Param`] stands for.
pub struct ParamView {
    pub description: Lines,
    pub experimental: bool,
    pub deprecated: bool,
    pub optional: bool,
    pub ty: TypeView,
    pub name: Seq<char>,
}

/// What an [`Item`] stands for.
pub enum ItemView {
    Enum(Seq<VariantView>),
    Properties(Seq<ParamView>),
}

/// What a [`TypeDef`] stands for.
pub struct TypeDefView {
    pub description: Lines,
    pub experimental: bool,
    pub deprecated: bool,
    pub id: Seq<char>,
    pub extends: TypeView,
    pub item: Option<ItemView>,
}

/// What a [`Redirect`] stands for.
pub struct RedirectView {
    pub description: Lines,
    pub to: Seq<char>,
}

/// What a [`Command`] stands for.
pub struct CommandView {
    pub description: Lines,
    pub experimental: bool,
    pub deprecated: bool,
    pub name: Seq<char>,
    pub redirect: Option<RedirectView>,
    pub parameters: Seq<ParamView>,
    pub returns: Seq<ParamView>,
}

/// What an [`Event`] stands for.
pub struct EventView {
    pub description: Lines,
    pub experimental: bool,
    pub deprecated: bool,
    pub name: Seq<char>,
    pub parameters: Seq<ParamView>,
}

/// What a [`Domain`] stands for.
pub struct DomainView {
    pub description: Lines,
    pub experimental: bool,
    pub deprecated: bool,
    pub name: Seq<char>,
    pub dependencies: Lines,
    pub types: Seq<TypeDefView>,
    pub commands: Seq<CommandView>,
    pub events: Seq<EventView>,
}

/// What a [`Protocol`] stands for.
pub struct ProtocolView {
    pub description: Lines,
    pub version: VersionView,
    pub domains: Seq<DomainView>,
}

/// The version of the protocol.
#[derive(Clone, Copy, Debug, PartialEq, Eq)]
pub struct Version {
    pub major: usize,
    pub minor: usize,
}

impl View for Version {
    type V = VersionView;

    open spec fn view(&self) -> VersionView {
        VersionView { major: self.major as nat, minor: self.minor as nat }
    }
}

/// One member of an enumeration.
#[derive(Clone, Debug, PartialEq, Eq)]
pub struct Variant {
    pub description: Vec<String>,
    pub name: String,
}

impl View for Variant {
    type V = VariantView;

    open spec fn view(&self) -> VariantView {
        VariantView { description: lines_view(self.description@), name: self.name@ }
    }
}

/// The views of a vector of variants, in order.
pub open spec fn variants_view(v: Seq<Variant>) -> Seq<VariantView> {
    Seq::new(v.len(), |i: int| v[i]@)
}

/// The type of a parameter, or the type that a type definition extends.
#[derive(Debug, PartialEq, Eq)]
pub enum Type {
    Integer,
    Number,
    Boolean,
    String,
    Object,
    Any,
    Binary,
    Enum(Vec<Variant>),
    ArrayOf(Box<Type>),
    Ref(String),
}

/// What a type stands for, by recursion on its shape.
pub open spec fn type_view(t: Type) -> TypeView
    decreases t,
{
    match t {
        Type::Integer => TypeView::Integer,
        Type::Number => TypeView::Number,
        Type::Boolean => TypeView::Boolean,
        Type::String => TypeView::String,
        Type::Object => TypeView::Object,
        Type::Any => TypeView::Any,
        Type::Binary => TypeView::Binary,
        Type::Enum(variants) => TypeView::Enum(variants_view(variants@)),
        Type::ArrayOf(inner) => TypeView::ArrayOf(Box::new(type_view(*inner))),
        Type::Ref(name) => TypeView::Ref(name@),
    }
}

impl Clone for Type {
    fn clone(&self) -> (r: Type)
        decreases self,
    {
        match self {
            Type::Integer => Type::Integer,
            Type::Number => Type::Number,
            Type::Boolean => Type::Boolean,
            Type::String => Type::String,
            Type::Object => Type::Object,
            Type::Any => Type::Any,
            Type::Binary => Type::Binary,
            Type::Enum(variants) => Type::Enum(variants.clone()),
            Type::ArrayOf(inner) => Type::ArrayOf(Box::new((&**inner).clone())),
            Type::Ref(name) => Type::Ref(name.clone()),
        }
    }
}

impl View for Type {
    type V = TypeView;

    open spec fn view(&self) -> TypeView {
        type_view(*self)
    }
}

/// A parameter of a command or an event, or a property of an object type.
#[derive(Clone, Debug, PartialEq, Eq)]
pub struct Param {
    pub description: Vec<String>,
    pub experimental: bool,
    pub deprecated: bool,
    pub optional: bool,
    pub ty: Type,
    pub name: String,
}

impl View for Param {
    type V = ParamView;

    open spec fn view(&self) -> ParamView {
        ParamView {
            description: lines_view(self.description@),
            experimental: self.experimental,
            deprecated: self.deprecated,
            optional: self.optional,
            ty: self.ty@,
            name: self.name@,
        }
    }
}

/// The views of a vector of parameters, in order.
pub open spec fn params_view(v: Seq<Param>) -> Seq<ParamView> {
    Seq::new(v.len(), |i: int| v[i]@)
}

/// What a type definition adds to the type it extends.
#[derive(Clone, Debug, PartialEq, Eq)]
pub enum Item {
    Enum(Vec<Variant>),
    Properties(Vec<Param>),
}

impl View for Item {
    type V = ItemView;

    open spec fn view(&self) -> ItemView {
        match self {
            Item::Enum(variants) => ItemView::Enum(variants_view(variants@)),
            Item::Properties(params) => ItemView::Properties(params_view(params@)),
        }
    }
}

/// The view of an item that may be absent.
pub open spec fn item_view(item: Option<Item>) -> Option<ItemView> {
    match item {
        Some(it) => Some(it@),
        None => None,
    }
}

/// A named type of a domain.
#[derive(Clone, Debug, PartialEq, Eq)]
pub struct TypeDef {
    pub description: Vec<String>,
    pub experimental: bool,
    pub deprecated: bool,
    pub id: String,
    pub extends: Type,
    pub item: Option<Item>,
}

impl View for TypeDef {
    type V = TypeDefView;

    open spec fn view(&self) -> TypeDefView {
        TypeDefView {
            description: lines_view(self.description@),
            experimental: self.experimental,
            deprecated: self.deprecated,
            id: self.id@,
            extends: self.extends@,
            item: item_view(self.item),
        }
    }
}

/// The views of a vector of type definitions, in order.
pub open spec fn type_defs_view(v: Seq<TypeDef>) -> Seq<TypeDefView> {
    Seq::new(v.len(), |i: int| v[i]@)
}

/// A pointer from a command to the domain that now holds it.
#[derive(Clone, Debug, PartialEq, Eq)]
pub struct Redirect {
    pub description: Vec<String>,
    pub to: String,
}

impl View for Redirect {
    type V = RedirectView;

    open spec fn view(&self) -> RedirectView {
        RedirectView { description: lines_view(self.description@), to: self.to@ }
    }
}

/// The view of a redirect that may be absent.
pub open spec fn redirect_view(redirect: Option<Redirect>) -> Option<RedirectView> {
    match redirect {
        Some(r) => Some(r@),
        None => None,
    }
}

/// An operation that a client can invoke.
#[derive(Clone, Debug, PartialEq, Eq)]
pub struct Command {
    pub description: Vec<String>,
    pub experimental: bool,
    pub deprecated: bool,
    pub name: String,
    pub redirect: Option<Redirect>,
    pub parameters: Vec<Param>,
    pub returns: Vec<Param>,
}

impl View for Command {
    type V = CommandView;

    open spec fn view(&self) -> CommandView {
        CommandView {
            description: lines_view(self.description@),
            experimental: self.experimental,
            deprecated: self.deprecated,
            name: self.name@,
            redirect: redirect_view(self.redirect),
            parameters: params_view(self.parameters@),
            returns: params_view(self.returns@),
        }
    }
}

/// The views of a vector of commands, in order.
pub open spec fn commands_view(v: Seq<Command>) -> Seq<CommandView> {
    Seq::new(v.len(), |i: int| v[i]@)
}

/// A notification that a domain sends.
#[derive(Clone, Debug, PartialEq, Eq)]
pub struct Event {
    pub description: Vec<String>,
    pub experimental: bool,
    pub deprecated: bool,
    pub name: String,
    pub parameters: Vec<Param>,
}

impl View for Event {
    type V = EventView;

    open spec fn view(&self) -> EventView {
        EventView {
            description: lines_view(self.description@),
            experimental: self.experimental,
            deprecated: self.deprecated,
            name: self.name@,
            parameters: params_view(self.parameters@),
        }
    }
}

/// The views of a vector of events, in order.
pub open spec fn events_view(v: Seq<Event>) -> Seq<EventView> {
    Seq::new(v.len(), |i: int| v[i]@)
}

/// A named group of types, commands and events.
#[derive(Clone, Debug, PartialEq, Eq)]
pub struct Domain {
    pub description: Vec<String>,
    pub experimental: bool,
    pub deprecated: bool,
    pub name: String,
    pub dependencies: Vec<String>,
    pub types: Vec<TypeDef>,
    pub commands: Vec<Command>,
    pub events: Vec<Event>,
}

impl View for Domain {
    type V = DomainView;

    open spec fn view(&self) -> DomainView {
        DomainView {
            description: lines_view(self.description@),
            experimental: self.experimental,
            deprecated: self.deprecated,
            name: self.name@,
            dependencies: lines_view(self.dependencies@),
            types: type_defs_view(self.types@),
            commands: commands_view(self.commands@),
            events: events_view(self.events@),
        }
    }
}

/// The views of a vector of domains, in order.
pub open spec fn domains_view(v: Seq<Domain>) -> Seq<DomainView> {
    Seq::new(v.len(), |i: int| v[i]@)
}

/// A whole protocol definition.
#[derive(Clone, Debug, PartialEq, Eq)]
pub struct Protocol {
    pub description: Vec<String>,
    pub version: Version,
    pub domains: Vec<Domain>,
}

impl View for Protocol {
    type V = ProtocolView;

    open spec fn view(&self) -> ProtocolView {
        ProtocolView {
            description: lines_view(self.description@),
            version: self.version@,
            domains: domains_view(self.domains@),
        }
    }
}

impl Variant {
    /// A variant with the given name and no description.
    pub fn new(name: &str) -> (r: Variant)
        ensures
            r@.name == name@,
            r@.description == Seq::<Seq<char>>::empty(),
    {
        let v = Variant { description: Vec::new(), name: name.to_owned() };
        assert(v@.description =~= Seq::<Seq<char>>::empty());
        v
    }
}

} // verus!
