use pdl::json::json_to_string;
use pdl::{parse, Domain, Json, Param, Protocol, Type, Version};

const LARGE: &str = "version\n  major 1\n  minor 3\n\n# Says \"hi\"\\ and\n# more\nexperimental domain D\n  depends on DOM\n\n  # T\n  deprecated type T extends array of integer\n\n  type E extends string\n    enum\n      a\n      b\n\n  type O extends object\n    properties\n      optional Ref r\n      enum e\n        x\n\n  command c\n    redirect Other\n    parameters\n      any a\n    returns\n      binary b\n\n  event e\n";

#[test]
fn compact_json() {
    let (doc, _) = parse(LARGE).unwrap();
    assert_eq!(
        doc.to_json().unwrap(),
        "{\"version\":{\"major\":\"1\",\"minor\":\"3\"},\"domains\":[{\"description\":\"Says \\\"hi\\\"\\\\ and more\",\"experimental\":true,\"domain\":\"D\",\"dependencies\":[\"DOM\"],\"types\":[{\"description\":\"T\",\"deprecated\":true,\"id\":\"T\",\"type\":\"array\",\"items\":{\"type\":\"integer\"}},{\"id\":\"E\",\"type\":\"string\",\"enum\":[\"a\",\"b\"]},{\"id\":\"O\",\"type\":\"object\",\"properties\":[{\"optional\":true,\"$ref\":\"Ref\",\"name\":\"r\"},{\"type\":\"string\",\"enum\":[\"x\"],\"name\":\"e\"}]}],\"commands\":[{\"name\":\"c\",\"redirect\":\"Other\",\"parameters\":[{\"type\":\"any\",\"name\":\"a\"}],\"returns\":[{\"type\":\"binary\",\"name\":\"b\"}]}],\"events\":[{\"name\":\"e\"}]}]}"
    );
}

#[test]
fn pretty_json() {
    let (doc, _) = parse("version\n  major 1\n  minor 3\ndomain D\n  type T extends enum\n").unwrap();
    assert_eq!(
        doc.to_json_pretty().unwrap(),
        "{\n  \"version\": {\n    \"major\": \"1\",\n    \"minor\": \"3\"\n  },\n  \"domains\": [\n    {\n      \"domain\": \"D\",\n      \"types\": [\n        {\n          \"id\": \"T\",\n          \"type\": \"string\",\n          \"enum\": []\n        }\n      ]\n    }\n  ]\n}"
    );
}

#[test]
fn json_agrees_with_serde_json() {
    let (doc, _) = parse(LARGE).unwrap();
    let compact = doc.to_json().unwrap();
    let pretty = doc.to_json_pretty().unwrap();
    let value: serde_json::Value = serde_json::from_str(&compact).unwrap();
    assert_eq!(serde_json::to_string(&value).unwrap(), compact);
    assert_eq!(serde_json::to_string_pretty(&value).unwrap(), pretty);
    assert_eq!(value["version"]["major"], serde_json::Value::String("1".to_string()));
    assert_eq!(value["domains"][0]["types"][0]["items"]["type"], "integer");
}

#[test]
fn json_is_repeatable() {
    let (doc, _) = parse(LARGE).unwrap();
    assert_eq!(doc.to_json().unwrap(), doc.to_json().unwrap());
    assert_eq!(doc.to_json_pretty().unwrap(), doc.to_json_pretty().unwrap());
}

#[test]
fn json_is_sparse() {
    let doc = Protocol {
        description: vec!["not written".to_string()],
        version: Version { major: 0, minor: 10 },
        domains: vec![Domain {
            description: vec![],
            experimental: false,
            deprecated: false,
            name: "D".to_string(),
            dependencies: vec![],
            types: vec![],
            commands: vec![],
            events: vec![],
        }],
    };
    assert_eq!(
        doc.to_json().unwrap(),
        "{\"version\":{\"major\":\"0\",\"minor\":\"10\"},\"domains\":[{\"domain\":\"D\"}]}"
    );
    let empty = Protocol { description: vec![], version: Version { major: 0, minor: 0 }, domains: vec![] };
    assert_eq!(empty.to_json().unwrap(), "{\"version\":{\"major\":\"0\",\"minor\":\"0\"}}");
    let p = Param {
        description: vec![],
        experimental: false,
        deprecated: false,
        optional: false,
        ty: Type::Ref("Node".to_string()),
        name: "n".to_string(),
    };
    let text = pdl::json::json_to_string(&pdl::json::param_json(&p), false).unwrap();
    assert_eq!(text, "{\"$ref\":\"Node\",\"name\":\"n\"}");
    for key in ["experimental", "deprecated", "optional", "description"] {
        assert!(!text.contains(key));
    }
}

#[test]
fn strings_are_escaped() {
    let text = pdl::json::json_to_string(
        &pdl::Json::Text("tab\there \"q\" \\ \u{1} \u{e9}".to_string()),
        false,
    )
    .unwrap();
    assert_eq!(text, "\"tab\\there \\\"q\\\" \\\\ \\u0001 \u{e9}\"");
}

#[test]
fn entries_keep_their_order_and_may_repeat() {
    let (doc, _) =
        parse("version\n  major 1\n  minor 3\ndomain D\n  type T extends enum\n    enum\n      a\n")
            .unwrap();
    assert_eq!(
        doc.to_json().unwrap(),
        "{\"version\":{\"major\":\"1\",\"minor\":\"3\"},\"domains\":[{\"domain\":\"D\",\"types\":[{\"id\":\"T\",\"type\":\"string\",\"enum\":[],\"enum\":[\"a\"]}]}]}"
    );
}

#[test]
fn values_without_text_are_always_written() {
    assert_eq!(json_to_string(&Json::Null, false).unwrap(), "null");
    assert_eq!(json_to_string(&Json::Flag(true), true).unwrap(), "true");
    assert_eq!(json_to_string(&Json::Flag(false), false).unwrap(), "false");
    assert_eq!(json_to_string(&Json::List(vec![]), true).unwrap(), "[]");
    assert_eq!(json_to_string(&Json::Object(vec![]), true).unwrap(), "{}");
    assert_eq!(
        json_to_string(&Json::List(vec![Json::Null, Json::List(vec![Json::Flag(true)])]), false)
            .unwrap(),
        "[null,[true]]"
    );
    assert_eq!(
        json_to_string(&Json::List(vec![Json::Null, Json::List(vec![Json::Flag(true)])]), true)
            .unwrap(),
        "[\n  null,\n  [\n    true\n  ]\n]"
    );
}
