//! A parser and a set of renderers for PDL, the line-oriented format in
//! which protocols are defined as domains of types, commands and events.
//!
//! [`parse`] reads a text into a [`Protocol`]; [`render_text`] writes a
//! protocol as canonical PDL, [`Protocol::to_json`] as JSON, and
//! [`render_markdown`] as documentation.
//!
//! Every function states what it returns over the mathematical value of
//! its arguments: the grammar is given in `line` and `grammar`, the
//! canonical text in `text`, the JSON form in `json`, the documentation
//! in `markdown`. That reading gives back what writing was given is stated
//! in `laws`; `reindent`, `canon`, `wellformed`, `reparse`,
//! `reparse_domain` and `clean` hold the steps of its proof.

pub mod canon;
pub mod chars;
pub mod clean;
pub mod grammar;
pub mod json;
pub mod laws;
pub mod line;
pub mod markdown;
pub mod model;
pub mod parse;
pub mod reindent;
pub mod reparse;
pub mod reparse_domain;
pub mod text;
pub mod wellformed;

pub use grammar::Construct;
pub use json::{
    is_false, serialize_description, serialize_enum, serialize_redirect, serialize_usize, Json,
    SerializationError,
};
pub use markdown::render_markdown;
pub use model::{
    Command, Domain, Event, Item, Param, Protocol, Redirect, Type, TypeDef, Variant, Version,
};
pub use parse::{
    command, comment, depends_on, domain, event, item, param, parse, redirect, type_def, variant,
    version, ParseError,
};
pub use text::{indented, render_text};
