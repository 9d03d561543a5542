use pdl::{
    command, comment, depends_on, domain, event, item, parse, redirect, type_def, version,
    Command, Domain, Event, Item, Param, Protocol, Redirect, Type, TypeDef, Variant, Version,
};

fn s(text: &str) -> String {
    text.to_string()
}

fn desc(lines: &[&str]) -> Vec<String> {
    lines.iter().map(|l| l.to_string()).collect()
}

fn plain(name: &str) -> Variant {
    Variant { description: vec![], name: s(name) }
}

#[test]
fn parse_protocol() {
    assert_eq!(
        parse(
            r#"# Copyright 2017 The Chromium Authors. All rights reserved.
# Use of this source code is governed by a BSD-style license that can be
# found in the LICENSE file.

version
  major 1
  minor 3

experimental domain Accessibility
  depends on DOM

  # Unique accessibility node identifier.
  type AXNodeId extends string

  # Enum of possible property types.
  type AXValueType extends string
    enum
      boolean
      tristate
      booleanOrUndefined

  # A single source for a computed AX property.
  type AXValueSource extends object
    properties
      # What type of source this is.
      AXValueSourceType type
      # The value of this property source.
      optional AXValue value
      # The name of the relevant attribute, if any.
      optional string attribute
"#
        )
        .unwrap(),
        (
            Protocol {
                description: desc(&[
                    "Copyright 2017 The Chromium Authors. All rights reserved.",
                    "Use of this source code is governed by a BSD-style license that can be",
                    "found in the LICENSE file."
                ]),
                version: Version { major: 1, minor: 3 },
                domains: vec![Domain {
                    description: vec![],
                    experimental: true,
                    deprecated: false,
                    name: s("Accessibility"),
                    dependencies: desc(&["DOM"]),
                    types: vec![
                        TypeDef {
                            description: desc(&["Unique accessibility node identifier."]),
                            experimental: false,
                            deprecated: false,
                            id: s("AXNodeId"),
                            extends: Type::String,
                            item: None,
                        },
                        TypeDef {
                            description: desc(&["Enum of possible property types."]),
                            experimental: false,
                            deprecated: false,
                            id: s("AXValueType"),
                            extends: Type::String,
                            item: Some(Item::Enum(vec![
                                plain("boolean"),
                                plain("tristate"),
                                plain("booleanOrUndefined"),
                            ]))
                        },
                        TypeDef {
                            description: desc(&["A single source for a computed AX property."]),
                            experimental: false,
                            deprecated: false,
                            id: s("AXValueSource"),
                            extends: Type::Object,
                            item: Some(Item::Properties(vec![
                                Param {
                                    description: desc(&["What type of source this is."]),
                                    experimental: false,
                                    deprecated: false,
                                    optional: false,
                                    ty: Type::Ref(s("AXValueSourceType")),
                                    name: s("type")
                                },
                                Param {
                                    description: desc(&["The value of this property source."]),
                                    experimental: false,
                                    deprecated: false,
                                    optional: true,
                                    ty: Type::Ref(s("AXValue")),
                                    name: s("value")
                                },
                                Param {
                                    description: desc(&[
                                        "The name of the relevant attribute, if any."
                                    ]),
                                    experimental: false,
                                    deprecated: false,
                                    optional: true,
                                    ty: Type::String,
                                    name: s("attribute")
                                }
                            ]))
                        }
                    ],
                    commands: vec![],
                    events: vec![]
                }],
            },
            s("")
        )
    )
}

#[test]
fn parse_comment() {
    assert_eq!(
        comment("# Copyright 2017 The Chromium Authors. All rights reserved.\n").unwrap(),
        (s("Copyright 2017 The Chromium Authors. All rights reserved."), s(""))
    )
}

#[test]
fn parse_version() {
    assert_eq!(
        version(
            r#"version
  major 1
  minor 3
"#
        )
        .unwrap(),
        (Version { major: 1, minor: 3 }, s(""))
    )
}

#[test]
fn parse_domain() {
    assert_eq!(
        domain("experimental domain Accessibility\n").unwrap(),
        (
            Domain {
                description: vec![],
                experimental: true,
                deprecated: false,
                name: s("Accessibility"),
                dependencies: vec![],
                types: vec![],
                commands: vec![],
                events: vec![],
            },
            s("")
        )
    );
}

#[test]
fn parse_depends_on() {
    assert_eq!(depends_on("  depends on DOM\n").unwrap(), (s("DOM"), s("")));
}

#[test]
fn parse_type_def() {
    assert_eq!(
        type_def(
            r#"  type AXProperty extends object
    properties
      # The name of this property.
      AXPropertyName name
      # The value of this property.
      AXValue value
"#
        )
        .unwrap(),
        (
            TypeDef {
                description: vec![],
                experimental: false,
                deprecated: false,
                id: s("AXProperty"),
                extends: Type::Object,
                item: Some(Item::Properties(vec![
                    Param {
                        description: desc(&["The name of this property."]),
                        experimental: false,
                        deprecated: false,
                        optional: false,
                        ty: Type::Ref(s("AXPropertyName")),
                        name: s("name")
                    },
                    Param {
                        description: desc(&["The value of this property."]),
                        experimental: false,
                        deprecated: false,
                        optional: false,
                        ty: Type::Ref(s("AXValue")),
                        name: s("value")
                    }
                ]))
            },
            s("")
        )
    )
}

#[test]
fn parse_enum() {
    assert_eq!(
        type_def(
            r#"  # Enum of possible property sources.
  type AXValueSourceType extends string
    enum
      attribute
      implicit
      style
      contents
      placeholder
      relatedElement
"#
        )
        .unwrap(),
        (
            TypeDef {
                description: desc(&["Enum of possible property sources."]),
                experimental: false,
                deprecated: false,
                id: s("AXValueSourceType"),
                extends: Type::String,
                item: Some(Item::Enum(vec![
                    plain("attribute"),
                    plain("implicit"),
                    plain("style"),
                    plain("contents"),
                    plain("placeholder"),
                    plain("relatedElement"),
                ]))
            },
            s("")
        )
    );

    assert_eq!(
        type_def(
            r#"  # Pseudo element type.
  type PseudoType extends string
    enum
      first-line
      first-letter
      before
"#
        )
        .unwrap(),
        (
            TypeDef {
                description: desc(&["Pseudo element type."]),
                experimental: false,
                deprecated: false,
                id: s("PseudoType"),
                extends: Type::String,
                item: Some(Item::Enum(vec![
                    plain("first-line"),
                    plain("first-letter"),
                    plain("before"),
                ]))
            },
            s("")
        )
    );
}

#[test]
fn parse_params() {
    assert_eq!(
        item(
            r#"    properties
      # The type of this value.
      AXValueType type
      # The computed value of this property.
      optional any value
      # One or more related nodes, if applicable.
      optional array of AXRelatedNode relatedNodes
      # Animation type of `Animation`.
      enum type
        CSSTransition
        CSSAnimation
        WebAnimation
"#
        )
        .unwrap(),
        (
            Item::Properties(vec![
                Param {
                    description: desc(&["The type of this value."]),
                    experimental: false,
                    deprecated: false,
                    optional: false,
                    ty: Type::Ref(s("AXValueType")),
                    name: s("type")
                },
                Param {
                    description: desc(&["The computed value of this property."]),
                    experimental: false,
                    deprecated: false,
                    optional: true,
                    ty: Type::Any,
                    name: s("value")
                },
                Param {
                    description: desc(&["One or more related nodes, if applicable."]),
                    experimental: false,
                    deprecated: false,
                    optional: true,
                    ty: Type::ArrayOf(Box::new(Type::Ref(s("AXRelatedNode")))),
                    name: s("relatedNodes")
                },
                Param {
                    description: desc(&["Animation type of `Animation`."]),
                    experimental: false,
                    deprecated: false,
                    optional: false,
                    ty: Type::Enum(vec![
                        Variant::new("CSSTransition"),
                        Variant::new("CSSAnimation"),
                        Variant::new("WebAnimation"),
                    ]),
                    name: s("type")
                }
            ]),
            s("")
        )
    )
}

#[test]
fn parse_command() {
    assert_eq!(
        command(
            r#"  # Returns the DER-encoded certificate.
  experimental command getCertificate
    parameters
      # Origin to get certificate for.
      string origin
    returns
      array of string tableNames
"#
        )
        .unwrap(),
        (
            Command {
                description: desc(&["Returns the DER-encoded certificate."]),
                experimental: true,
                deprecated: false,
                name: s("getCertificate"),
                redirect: None,
                parameters: vec![Param {
                    description: desc(&["Origin to get certificate for."]),
                    experimental: false,
                    deprecated: false,
                    optional: false,
                    ty: Type::String,
                    name: s("origin")
                }],
                returns: vec![Param {
                    description: vec![],
                    experimental: false,
                    deprecated: false,
                    optional: false,
                    ty: Type::ArrayOf(Box::new(Type::String)),
                    name: s("tableNames")
                }],
            },
            s("")
        )
    );

    assert_eq!(
        command(
            r#"  # Hides any highlight.
  command hideHighlight
    # Use 'Overlay.hideHighlight' instead
    redirect Overlay
"#
        )
        .unwrap(),
        (
            Command {
                description: desc(&["Hides any highlight."]),
                experimental: false,
                deprecated: false,
                name: s("hideHighlight"),
                redirect: Some(Redirect {
                    description: desc(&["Use 'Overlay.hideHighlight' instead"]),
                    to: s("Overlay")
                }),
                parameters: vec![],
                returns: vec![],
            },
            s("")
        )
    );
}

#[test]
fn parse_event() {
    assert_eq!(
        event(r#"  # Notification sent after the virtual time has advanced.
  experimental event virtualTimeAdvanced
    parameters
      # The amount of virtual time that has elapsed in milliseconds since virtual time was first
      # enabled.
      number virtualTimeElapsed
"#).unwrap(),
        (
            Event {
                description: desc(&["Notification sent after the virtual time has advanced."]),
                experimental: true,
                deprecated: false,
                name: s("virtualTimeAdvanced"),
                parameters: vec![
                    Param {
                        description: desc(&[
                            "The amount of virtual time that has elapsed in milliseconds since virtual time was first",
                            "enabled."
                        ]),
                        experimental: false,
                        deprecated: false,
                        optional: false,
                        ty: Type::Number,
                        name: s("virtualTimeElapsed")
                    },
                ],
            },
            s("")
        )
    );
}

#[test]
fn parse_redirect() {
    assert_eq!(
        redirect(
            r#"    # Use 'Emulation.clearGeolocationOverride' instead
    redirect Emulation
"#
        )
        .unwrap(),
        (
            Redirect {
                description: desc(&["Use 'Emulation.clearGeolocationOverride' instead"]),
                to: s("Emulation")
            },
            s("")
        )
    )
}
