use pdl::{
    param, parse, render_markdown, render_text, Command, Construct, Domain, Event, Item, Json,
    Param, ParseError, Protocol, Redirect, Type, TypeDef, Variant, Version,
};

fn s(text: &str) -> String {
    text.to_string()
}

fn desc(lines: &[&str]) -> Vec<String> {
    lines.iter().map(|l| l.to_string()).collect()
}

const SAMPLE: &str = "# Copyright note\nversion\n  major 1\n  minor 3\n\nexperimental domain Accessibility\n  depends on DOM\n\n  # Unique accessibility node identifier.\n  type AXNodeId extends string\n";

const LARGE: &str = r#"# A note
#   with two lines

version
  major 12
  minor 0

# The first domain.
experimental deprecated domain Animation
  depends on Runtime
  depends on DOM

  # Animation instance.
  experimental type Animation extends object
    properties
      # `Animation`'s id.
      string id
      # Animation type of `Animation`.
      enum type
        CSSTransition
        # Driven by CSS.
        CSSAnimation
        WebAnimation
      experimental deprecated optional array of array of number matrix

  type Kind extends string
    enum
      first-line
      before


  # Hides any highlight.
  deprecated command hideHighlight
    # Use 'Overlay.hideHighlight' instead
    redirect Overlay

  command seek
    parameters
      array of string animations
      number currentTime
    returns
      optional Animation result

  command empty

  # Sent when done.
  event done
    parameters
      enum state
        ok
        failed

  event tick

domain Other
not a construct
"#;

#[test]
fn full_document() {
    let (doc, rest) = parse(SAMPLE).unwrap();
    assert_eq!(rest, "");
    assert_eq!(
        doc,
        Protocol {
            description: desc(&["Copyright note"]),
            version: Version { major: 1, minor: 3 },
            domains: vec![Domain {
                description: vec![],
                experimental: true,
                deprecated: false,
                name: s("Accessibility"),
                dependencies: desc(&["DOM"]),
                types: vec![TypeDef {
                    description: desc(&["Unique accessibility node identifier."]),
                    experimental: false,
                    deprecated: false,
                    id: s("AXNodeId"),
                    extends: Type::String,
                    item: None,
                }],
                commands: vec![],
                events: vec![],
            }],
        }
    );
}

#[test]
fn enum_attachment() {
    let (p, rest) =
        param("  enum type\n    CSSTransition\n    CSSAnimation\n    WebAnimation\n").unwrap();
    assert_eq!(rest, "");
    assert_eq!(p.name, "type");
    assert_eq!(
        p.ty,
        Type::Enum(vec![
            Variant::new("CSSTransition"),
            Variant::new("CSSAnimation"),
            Variant::new("WebAnimation"),
        ])
    );
}

#[test]
fn enum_parameter_needs_a_variant() {
    assert_eq!(param("  enum type\n"), None);
    assert_eq!(param("  enum type\n  string next\n"), None);
}

#[test]
fn trailing_line_is_handed_back() {
    let (doc, rest) = parse(LARGE).unwrap();
    assert_eq!(rest, "not a construct\n");
    assert_eq!(doc.domains.len(), 2);
    assert_eq!(doc.domains[1].name, "Other");

    let (doc, rest) = parse("version\n  major 1\n  minor 3\ndomain A\n???").unwrap();
    assert_eq!(rest, "???");
    assert_eq!(doc.domains.len(), 1);
}

#[test]
fn large_document() {
    let (doc, _) = parse(LARGE).unwrap();
    assert_eq!(doc.description, desc(&["A note", "with two lines"]));
    assert_eq!(doc.version, Version { major: 12, minor: 0 });
    let d = &doc.domains[0];
    assert_eq!(d.description, desc(&["The first domain."]));
    assert!(d.experimental && d.deprecated);
    assert_eq!(d.dependencies, desc(&["Runtime", "DOM"]));
    assert_eq!(d.types.len(), 2);
    assert_eq!(
        d.types[0],
        TypeDef {
            description: desc(&["Animation instance."]),
            experimental: true,
            deprecated: false,
            id: s("Animation"),
            extends: Type::Object,
            item: Some(Item::Properties(vec![
                Param {
                    description: desc(&["`Animation`'s id."]),
                    experimental: false,
                    deprecated: false,
                    optional: false,
                    ty: Type::String,
                    name: s("id"),
                },
                Param {
                    description: desc(&["Animation type of `Animation`."]),
                    experimental: false,
                    deprecated: false,
                    optional: false,
                    ty: Type::Enum(vec![
                        Variant::new("CSSTransition"),
                        Variant { description: desc(&["Driven by CSS."]), name: s("CSSAnimation") },
                        Variant::new("WebAnimation"),
                    ]),
                    name: s("type"),
                },
                Param {
                    description: vec![],
                    experimental: true,
                    deprecated: true,
                    optional: true,
                    ty: Type::ArrayOf(Box::new(Type::ArrayOf(Box::new(Type::Number)))),
                    name: s("matrix"),
                },
            ])),
        }
    );
    assert_eq!(
        d.commands,
        vec![
            Command {
                description: desc(&["Hides any highlight."]),
                experimental: false,
                deprecated: true,
                name: s("hideHighlight"),
                redirect: Some(Redirect {
                    description: desc(&["Use 'Overlay.hideHighlight' instead"]),
                    to: s("Overlay"),
                }),
                parameters: vec![],
                returns: vec![],
            },
            Command {
                description: vec![],
                experimental: false,
                deprecated: false,
                name: s("seek"),
                redirect: None,
                parameters: vec![
                    Param {
                        description: vec![],
                        experimental: false,
                        deprecated: false,
                        optional: false,
                        ty: Type::ArrayOf(Box::new(Type::String)),
                        name: s("animations"),
                    },
                    Param {
                        description: vec![],
                        experimental: false,
                        deprecated: false,
                        optional: false,
                        ty: Type::Number,
                        name: s("currentTime"),
                    },
                ],
                returns: vec![Param {
                    description: vec![],
                    experimental: false,
                    deprecated: false,
                    optional: true,
                    ty: Type::Ref(s("Animation")),
                    name: s("result"),
                }],
            },
            Command {
                description: vec![],
                experimental: false,
                deprecated: false,
                name: s("empty"),
                redirect: None,
                parameters: vec![],
                returns: vec![],
            },
        ]
    );
    assert_eq!(
        d.events,
        vec![
            Event {
                description: desc(&["Sent when done."]),
                experimental: false,
                deprecated: false,
                name: s("done"),
                parameters: vec![Param {
                    description: vec![],
                    experimental: false,
                    deprecated: false,
                    optional: false,
                    ty: Type::Enum(vec![Variant::new("ok"), Variant::new("failed")]),
                    name: s("state"),
                }],
            },
            Event {
                description: vec![],
                experimental: false,
                deprecated: false,
                name: s("tick"),
                parameters: vec![],
            },
        ]
    );
}

#[test]
fn members_are_read_in_their_order() {
    let input = "version\n  major 1\n  minor 0\ndomain A\n  command c\n\n  type T extends string\n";
    let (doc, rest) = parse(input).unwrap();
    assert_eq!(doc.domains[0].commands.len(), 1);
    assert_eq!(doc.domains[0].types.len(), 0);
    assert_eq!(rest, "  type T extends string\n");
}

#[test]
fn a_blank_line_parts_a_description_from_its_declaration() {
    let input = "version\n  major 1\n  minor 0\ndomain A\n  # lost\n\n  type T extends string\n";
    let (doc, rest) = parse(input).unwrap();
    assert_eq!(doc.domains[0].types.len(), 0);
    assert_eq!(rest, "  # lost\n\n  type T extends string\n");
}

#[test]
fn errors_name_the_place_and_the_construct() {
    assert_eq!(
        parse("# note\n\ndomain X\n"),
        Err(ParseError::Malformed { position: 8, expected: Construct::Version })
    );
    assert_eq!(parse(""), Err(ParseError::Malformed { position: 0, expected: Construct::Version }));
    assert_eq!(
        parse("version\n  major 1\n  minor x\n"),
        Err(ParseError::Malformed { position: 18, expected: Construct::Version })
    );
    assert_eq!(
        parse("version\n  major 1\n minor 99999999999999999999999999\n"),
        Err(ParseError::Malformed { position: 18, expected: Construct::Version })
    );
    assert_eq!(
        parse("version\n  major 1\n  minor 3\n\n# about\n  domain X\n"),
        Err(ParseError::Malformed { position: 37, expected: Construct::Domain })
    );
    assert_eq!(
        parse("version\n  major 1\n  minor 3\ndomain X"),
        Err(ParseError::Malformed { position: 28, expected: Construct::Domain })
    );
}

#[test]
fn positions_count_characters() {
    assert_eq!(
        parse("# \u{e9}t\u{e9}\nversio\n"),
        Err(ParseError::Malformed { position: 6, expected: Construct::Version })
    );
}

#[test]
fn type_names() {
    assert_eq!(Type::new("enum", false), Type::Enum(vec![]));
    assert_eq!(Type::new("integer", false), Type::Integer);
    assert_eq!(Type::new("number", false), Type::Number);
    assert_eq!(Type::new("boolean", false), Type::Boolean);
    assert_eq!(Type::new("string", false), Type::String);
    assert_eq!(Type::new("object", false), Type::Object);
    assert_eq!(Type::new("any", false), Type::Any);
    assert_eq!(Type::new("binary", false), Type::Binary);
    assert_eq!(Type::new("Node", false), Type::Ref(s("Node")));
    assert_eq!(Type::new("string", true), Type::ArrayOf(Box::new(Type::String)));
    assert_eq!(Type::new("Node", true), Type::ArrayOf(Box::new(Type::Ref(s("Node")))));
}

#[test]
fn comments_are_trimmed() {
    assert_eq!(pdl::comment("  \t#   spaced out \u{a0}\n"), Some((s("spaced out"), s(""))));
    assert_eq!(pdl::comment("#\nrest"), Some((s(""), s("rest"))));
    assert_eq!(pdl::comment("x # no\n"), None);
    assert_eq!(pdl::comment("# no newline"), None);
}

#[test]
fn canonical_text() {
    let (doc, _) = parse(SAMPLE).unwrap();
    assert_eq!(
        render_text(&doc),
        "# Copyright note\nversion\n  major 1\n  minor 3\n\nexperimental domain Accessibility\n  depends on DOM\n\n  # Unique accessibility node identifier.\n  type AXNodeId extends string\n\n"
    );
}

#[test]
fn canonical_text_of_members() {
    let (doc, _) = parse(LARGE).unwrap();
    let text = render_text(&doc);
    assert!(text.starts_with("# A note\n# with two lines\nversion\n  major 12\n  minor 0\n\n# The first domain.\nexperimental deprecated domain Animation\n  depends on Runtime\n  depends on DOM\n\n  # Animation instance.\n  experimental type Animation extends object\n    properties\n      # `Animation`'s id.\n      string id\n      # Animation type of `Animation`.\n      enum type\n        CSSTransition\n        # Driven by CSS.\n        CSSAnimation\n        WebAnimation\n      experimental deprecated optional array of array of number matrix\n\n  type Kind extends string\n    enum\n      first-line\n      before\n\n  # Hides any highlight.\n  deprecated command hideHighlight\n    # Use 'Overlay.hideHighlight' instead\n    redirect Overlay\n\n  command seek\n    parameters\n      array of string animations\n      number currentTime\n    returns\n      optional Animation result\n\n"));
    assert!(text.ends_with("  event tick\n\ndomain Other\n\n"));
}

#[test]
fn round_trip() {
    for input in [SAMPLE, LARGE] {
        let (doc, _) = parse(input).unwrap();
        let text = render_text(&doc);
        let (again, _) = parse(&text).unwrap();
        assert_eq!(again, doc);
        assert_eq!(render_text(&again), text);
    }
}

#[test]
fn returns_after_an_enum_do_not_round_trip() {
    let input = "version\n  major 1\n  minor 0\ndomain A\n  command c\n    parameters\n      enum kind\n        a\n\n    returns\n      string x\n";
    let (doc, rest) = parse(input).unwrap();
    assert_eq!(rest, "");
    assert_eq!(doc.domains[0].commands[0].returns.len(), 1);
    let (again, _) = parse(&render_text(&doc)).unwrap();
    assert_eq!(again.domains[0].commands[0].returns.len(), 0);
    assert_eq!(
        again.domains[0].commands[0].parameters[0].ty,
        Type::Enum(vec![Variant::new("a"), Variant::new("returns")])
    );
}

#[test]
fn optional_type_definition() {
    let (t, rest) = pdl::type_def("  experimental optional type T extends array of any\n").unwrap();
    assert_eq!(rest, "");
    assert!(t.experimental);
    assert_eq!(t.extends, Type::ArrayOf(Box::new(Type::Any)));
}

#[test]
fn indentation_moves_lines_right() {
    assert_eq!(pdl::indented(desc(&["a", "  b", ""])), desc(&["  a", "    b", "  "]));
}

#[test]
fn markdown() {
    let (doc, _) = parse(LARGE).unwrap();
    let text = render_markdown(&doc, "sample.pdl");
    assert!(text.starts_with(
        "# sample.pdl\n\nversion: 12.0\n\n## Animation Domain\n\n> The first domain.\n> **_EXPERIMENTAL_** **_DEPRECATED_**\n\n### Methods\n\n_Animation._**hideHighlight**\n\n> Hides any highlight.\n> **_DEPRECATED_**\n\n---\n\n_Animation._**seek**\n\n> \n>\n\n_PARAMETERS_\n\n| Name | Type | Description |\n| ----:|:---- | :---------- |\n| `animations` | **array of string** |  |\n| `currentTime` | **number** |  |\n\n_RETURN OBJECT_\n\n| Name | Type | Description |\n| ----:|:---- | :---------- |\n| `result` <br/> _optional_  | **Animation** |  |\n\n---\n\n"
    ));
    assert!(text.contains(
        "### Types\n\n_Animation._**Animation**\n\n> Animation instance.\n> **_EXPERIMENTAL_**\n\n\nType: **object**\n\n_PROPERTIES_\n\n| Name | Type | Description |\n| ----:|:---- | :---------- |\n| `id` | **string** | _`Animation`'s id._ |\n| `type` | **enum** | _Animation type of `Animation`._ |\n| `matrix` <br/> _optional_  | **array of array of number** |  **_EXPERIMENTAL_** **_DEPRECATED_** |\n\n_ALLOWED VALUES_\n\n| Name | Description |\n| ----:|:----------- |\n| `CSSTransition` |  |\n| `CSSAnimation` | _Driven by CSS._ |\n| `WebAnimation` |  |\n\n---\n\n_Animation._**Kind**\n\n> \n>\n\n\nType: **string**\n\n_ALLOWED VALUES_\n\n| Name | Description |\n| ----:|:----------- |\n| `first-line` |  |\n| `before` |  |\n---\n\n\n### Events\n\n"
    ));
    assert!(text.ends_with(
        "_Animation._**tick**\n\n> \n>\n\n---\n\n## Other Domain\n\n> \n>\n\n"
    ));
}

#[test]
fn json_values() {
    assert_eq!(pdl::serialize_usize(&1203), Json::Text(s("1203")));
    assert_eq!(pdl::serialize_usize(&0), Json::Text(s("0")));
    assert_eq!(pdl::serialize_description(&desc(&["a b", "c"])), Json::Text(s("a b c")));
    assert_eq!(pdl::serialize_description(&vec![]), Json::Text(s("")));
    assert_eq!(
        pdl::serialize_enum(&vec![Variant::new("x"), Variant::new("y")]),
        Json::List(vec![Json::Text(s("x")), Json::Text(s("y"))])
    );
    assert_eq!(pdl::serialize_redirect(&None), Json::Null);
    assert_eq!(
        pdl::serialize_redirect(&Some(Redirect { description: desc(&["d"]), to: s("DOM") })),
        Json::Text(s("DOM"))
    );
    assert!(pdl::is_false(&false));
    assert!(!pdl::is_false(&true));
}

#[test]
fn white_space_is_that_of_the_standard_library() {
    for n in 0..=0x10ffff_u32 {
        if let Some(c) = char::from_u32(n) {
            assert_eq!(pdl::chars::whitespace(c), c.is_whitespace(), "U+{:04X}", n);
            assert_eq!(pdl::chars::digit(c), c.is_ascii_digit(), "U+{:04X}", n);
            assert_eq!(pdl::chars::blank(c), c == ' ' || c == '\t', "U+{:04X}", n);
        }
    }
}

#[test]
fn trimming_is_that_of_the_standard_library() {
    for text in ["", " ", "a", "  a b  ", "\t\u{a0}x\u{2003}y \u{3000}", "\u{85}", "x\r"] {
        let line: Vec<char> = format!("#{}", text).chars().collect();
        assert_eq!(pdl::chars::trimmed(&line, 1), text.trim());
    }
}

#[test]
fn numbers_are_those_of_the_standard_library() {
    let max = usize::MAX.to_string();
    let over = format!("{}0", max);
    let next = {
        let mut digits: Vec<u8> = max.clone().into_bytes();
        let last = digits.len() - 1;
        digits[last] += 1;
        String::from_utf8(digits).unwrap()
    };
    for text in ["0", "7", "000", "0012", "1203", "18446744073709551615", &max, &over, &next] {
        let digits: Vec<char> = text.chars().collect();
        assert_eq!(pdl::chars::number(&digits, 0, digits.len()), text.parse::<usize>().ok());
    }
    for n in [0_usize, 1, 9, 10, 11, 99, 100, 1203, usize::MAX / 10, usize::MAX] {
        let mut out = String::from("n=");
        pdl::chars::push_decimal(&mut out, n);
        assert_eq!(out, format!("n={}", n));
    }
}

#[test]
fn version_numbers_must_fit() {
    let max = usize::MAX;
    let input = format!("version\n  major {}\n  minor 007\n", max);
    assert_eq!(pdl::version(&input), Some((Version { major: max, minor: 7 }, s(""))));
    let input = format!("version\n  major {}0\n  minor 7\n", max);
    assert_eq!(pdl::version(&input), None);
    assert_eq!(pdl::version("version\n  major \n  minor 7\n"), None);
    assert_eq!(pdl::version("version\nmajor 1\n  minor 7\n"), None);
    assert_eq!(pdl::version("version\n  major 1\n  minor 7 \n"), None);
    assert_eq!(pdl::version("version\n\tmajor 1\n \t minor 7\nrest"), Some((Version { major: 1, minor: 7 }, s("rest"))));
}

#[test]
fn variants_carry_their_description() {
    assert_eq!(
        pdl::variant("    # First.\n    # Second.\n    first-line\n    next\n"),
        Some((Variant { description: desc(&["First.", "Second."]), name: s("first-line") }, s("    next\n")))
    );
    assert_eq!(pdl::variant("    two words\n"), None);
    assert_eq!(pdl::variant("unindented\n"), None);
    assert_eq!(pdl::variant("    \n"), None);
}

#[test]
fn modifiers_keep_their_order() {
    let (p, _) = param("  experimental deprecated optional string x\n").unwrap();
    assert!(p.experimental && p.deprecated && p.optional);
    assert_eq!(p.ty, Type::String);
    assert_eq!(param("  optional experimental string x\n"), None);
    let (p, _) = param("  deprecated experimental x\n").unwrap();
    assert!(p.deprecated && !p.experimental && !p.optional);
    assert_eq!(p.ty, Type::Ref(s("experimental")));
    assert_eq!(p.name, "x");
}

#[test]
fn names_are_bare_words() {
    assert_eq!(pdl::domain("domain A B\n"), None);
    assert_eq!(pdl::domain("domain A \n"), None);
    assert_eq!(pdl::command("  command do it\n"), None);
    assert_eq!(pdl::event("  event e\t\n"), None);
    let (d, rest) = pdl::domain("domain \n").unwrap();
    assert_eq!((d.name.as_str(), rest.as_str()), ("", ""));
    assert_eq!(pdl::domain("domain  A\n"), None);
}

#[test]
fn indentation_is_not_measured() {
    let input = "version\n major 1\n\t\tminor 0\ndomain A\n        type T extends string\n enum\n\tone\n";
    let (doc, rest) = parse(input).unwrap();
    assert_eq!(rest, "");
    assert_eq!(
        doc.domains[0].types[0].item,
        Some(Item::Enum(vec![Variant::new("one")]))
    );
}

#[test]
fn round_trip_of_odd_documents() {
    for input in [
        "version\n  major 0\n  minor 0\ndomain \n",
        "#\n#  x \nversion\n  major 01\n  minor 0\n\n\n# d\ndeprecated domain a-b\n  depends on \n  depends on X\n",
        "version\n  major 1\n  minor 0\ndomain A\n  optional type  extends \n  type T extends array of array of enum\n    properties\n      optional  name\n      enum e\n        #c\n        v\n  command \n    # r\n    redirect \n    returns\n      enum x\n        a\n  event e\n    parameters\n      array of  n\n",
    ] {
        let (doc, _) = parse(input).unwrap();
        let text = render_text(&doc);
        let (again, _) = parse(&text).unwrap();
        assert_eq!(again, doc, "{}", text);
    }
}

#[test]
fn a_long_document_is_read_and_written() {
    let mut input = String::from("version\n  major 1\n  minor 3\n");
    for d in 0..20 {
        input.push_str(&format!("\n# Domain number {}.\ndomain D{}\n  depends on Base\n", d, d));
        for t in 0..50 {
            input.push_str(&format!(
                "\n  # A type.\n  type T{} extends object\n    properties\n      # One.\n      string a\n      optional array of T{} b\n",
                t, t
            ));
        }
        for c in 0..100 {
            input.push_str(&format!(
                "\n  # A command.\n  command c{}\n    parameters\n      integer x\n      enum kind\n        one\n        two\n\n    returns\n      number y\n",
                c
            ));
        }
        for e in 0..50 {
            input.push_str(&format!("\n  event e{}\n    parameters\n      any z\n", e));
        }
    }
    let (doc, rest) = parse(&input).unwrap();
    assert_eq!(rest, "");
    assert_eq!(doc.domains.len(), 20);
    assert_eq!(doc.domains[19].types.len(), 50);
    assert_eq!(doc.domains[19].commands.len(), 100);
    assert_eq!(doc.domains[19].commands[99].returns.len(), 1);
    assert_eq!(doc.domains[19].events.len(), 50);
    let text = render_text(&doc);
    assert!(text.len() > 100_000);
    assert!(doc.to_json().unwrap().len() > 100_000);
    assert!(render_markdown(&doc, "long").len() > 100_000);
}
