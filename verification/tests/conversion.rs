use json_to_kdl::{
    build_node, classify, convert, convert_text, entry_to_kdl, from_value, json_to_kdl, parse,
    ClassifyError, ConvertError, Json, Literal, SchemaError,
};
use kdl::KdlValue;

fn read(text: &str) -> Json {
    parse(text).unwrap()
}

fn text(s: &str) -> Json {
    Json::String(s.to_string())
}

fn whole(i: i64) -> Json {
    Json::Number(serde_json::Number::from(i))
}

fn object(pairs: Vec<(&str, Json)>) -> Json {
    Json::Object(pairs.into_iter().map(|(k, v)| (k.to_string(), v)).collect())
}

#[test]
fn test_conversion() {
    let input = read(
        r#"
    [
      {
        "name": "bees",
        "arguments": [
          true,
          42,
          {
            "value": 3.1415,
            "type": "my-neat-float"
          },
          null,
          "how many eggs are you currently holding?"
        ],
        "properties": {
          "how many": "uhhh like 40?",
          "state?": "quite upset"
        }
      },
      {
        "name": "lemon",
        "children": [
          {
            "name": "child",
            "properties": {
              "age": {
                "value": 3,
                "type": "my-super-cool-int"
               }
             }
          },
          {
            "name": "child-eater",
            "arguments": [
              ":^)"
            ],
            "type": null
          }
        ]
      },
      {
        "name": "ohno",
        "type": "ohnono"
      }
    ]"#,
    );

    assert_eq!(
        json_to_kdl(&input).unwrap().to_string(),
        "bees true 42 (my-neat-float)3.1415 null \"how many eggs are you currently holding?\" \"how many\"=\"uhhh like 40?\" state?=\"quite upset\"\nlemon {\n    child age=(my-super-cool-int)3\n    child-eater \":^)\"\n}\n(ohnono)ohno\n"
    );
}

#[test]
fn conversion_of_hand_built_value_gives_the_same_text() {
    let input = Json::Array(vec![
        object(vec![
            ("name", text("bees")),
            (
                "arguments",
                Json::Array(vec![
                    Json::Bool(true),
                    whole(42),
                    object(vec![
                        ("value", Json::Number(serde_json::Number::from_f64(3.1415).unwrap())),
                        ("type", text("my-neat-float")),
                    ]),
                    Json::Null,
                    text("how many eggs are you currently holding?"),
                ]),
            ),
            (
                "properties",
                object(vec![("how many", text("uhhh like 40?")), ("state?", text("quite upset"))]),
            ),
        ]),
        object(vec![
            ("name", text("lemon")),
            (
                "children",
                Json::Array(vec![
                    object(vec![
                        ("name", text("child")),
                        (
                            "properties",
                            object(vec![(
                                "age",
                                object(vec![("value", whole(3)), ("type", text("my-super-cool-int"))]),
                            )]),
                        ),
                    ]),
                    object(vec![
                        ("name", text("child-eater")),
                        ("arguments", Json::Array(vec![text(":^)")])),
                        ("type", Json::Null),
                    ]),
                ]),
            ),
        ]),
        object(vec![("name", text("ohno")), ("type", text("ohnono"))]),
    ]);
    assert_eq!(
        convert(&input).unwrap(),
        "bees true 42 (my-neat-float)3.1415 null \"how many eggs are you currently holding?\" \"how many\"=\"uhhh like 40?\" state?=\"quite upset\"\nlemon {\n    child age=(my-super-cool-int)3\n    child-eater \":^)\"\n}\n(ohnono)ohno\n"
    );
}

#[test]
fn node_keeps_its_name() {
    let node = build_node(&read(r#"{"name": "bees"}"#)).unwrap();
    assert_eq!(node.name().value(), "bees");
    assert!(node.ty().is_none());
    assert!(node.entries().is_empty());
    assert!(node.children().is_none());

    let odd = build_node(&read(r#"{"name": "two words \"quoted\""}"#)).unwrap();
    assert_eq!(odd.name().value(), "two words \"quoted\"");

    let empty = build_node(&read(r#"{"name": ""}"#)).unwrap();
    assert_eq!(empty.name().value(), "");
}

#[test]
fn node_without_a_string_name_is_refused() {
    assert_eq!(build_node(&read(r#"{}"#)).unwrap_err(), SchemaError::MissingName);
    assert_eq!(build_node(&read(r#"{"name": 3}"#)).unwrap_err(), SchemaError::MissingName);
    assert_eq!(build_node(&read(r#"{"name": null}"#)).unwrap_err(), SchemaError::MissingName);
    assert_eq!(build_node(&read(r#"{"name": ["a"]}"#)).unwrap_err(), SchemaError::MissingName);
    assert_eq!(build_node(&read(r#""bees""#)).unwrap_err(), SchemaError::MissingName);
    assert_eq!(build_node(&read(r#"["name"]"#)).unwrap_err(), SchemaError::MissingName);
    assert_eq!(
        build_node(&read(r#"{"arguments": 1, "type": 2}"#)).unwrap_err(),
        SchemaError::MissingName
    );
}

#[test]
fn numbers_are_integers_or_floats() {
    let forty_two = read("42");
    assert_eq!(classify(&forty_two).unwrap().literal, Literal::Integer(42));
    assert_eq!(entry_to_kdl(&forty_two).unwrap().value(), &KdlValue::Base10(42));

    let pi = read("3.1415");
    assert!(matches!(classify(&pi).unwrap().literal, Literal::Float(_)));
    if let Literal::Float(number) = classify(&pi).unwrap().literal {
        assert_eq!(number.as_f64(), Some(3.1415));
    }
    assert_eq!(entry_to_kdl(&pi).unwrap().value(), &KdlValue::Base10Float(3.1415));

    let negative = read("-7");
    assert_eq!(classify(&negative).unwrap().literal, Literal::Integer(-7));

    let exponent = read("1e2");
    assert_eq!(entry_to_kdl(&exponent).unwrap().value(), &KdlValue::Base10Float(100.0));

    let whole_float = read("2.0");
    assert_eq!(entry_to_kdl(&whole_float).unwrap().value(), &KdlValue::Base10Float(2.0));

    let negative_zero = read("-0.0");
    let entry = entry_to_kdl(&negative_zero).unwrap();
    assert!(entry.value().as_f64().unwrap().is_sign_negative());
}

#[test]
fn integers_at_the_ends_of_the_range() {
    assert_eq!(
        entry_to_kdl(&read("9223372036854775807")).unwrap().value(),
        &KdlValue::Base10(i64::MAX)
    );
    assert_eq!(
        entry_to_kdl(&read("-9223372036854775808")).unwrap().value(),
        &KdlValue::Base10(i64::MIN)
    );
    assert_eq!(
        entry_to_kdl(&read("18446744073709551615")).unwrap_err(),
        ClassifyError::NumericRange
    );
    assert_eq!(
        entry_to_kdl(&read(r#"{"value": 18446744073709551615, "type": "big"}"#)).unwrap_err(),
        ClassifyError::NumericRange
    );
}

#[test]
fn whole_number_beyond_the_signed_range_is_a_float_where_a_double_holds_it() {
    let two_to_63 = read("9223372036854775808");
    assert!(matches!(classify(&two_to_63).unwrap().literal, Literal::Float(_)));
    assert_eq!(
        entry_to_kdl(&two_to_63).unwrap().value(),
        &KdlValue::Base10Float(9223372036854775808.0)
    );

    let next = entry_to_kdl(&read("9223372036854777856")).unwrap();
    assert_eq!(next.value(), &KdlValue::Base10Float(9223372036854777856.0));
    assert_eq!(next.value().as_f64().unwrap().to_bits(), 0x43E0_0000_0000_0001);

    let last = entry_to_kdl(&read("18446744073709549568")).unwrap();
    assert_eq!(last.value(), &KdlValue::Base10Float(18446744073709549568.0));
    assert_eq!(last.value().as_f64().unwrap() as u64, 18446744073709549568);

    let annotated = entry_to_kdl(&read(r#"{"value": 9223372036854775808, "type": "wide"}"#)).unwrap();
    assert_eq!(annotated.value(), &KdlValue::Base10Float(9223372036854775808.0));
    assert_eq!(annotated.ty().unwrap().value(), "wide");

    let hand_built = Json::Number(serde_json::Number::from(9223372036854775808u64));
    assert_eq!(
        entry_to_kdl(&hand_built).unwrap().value(),
        &KdlValue::Base10Float(9223372036854775808.0)
    );
}

#[test]
fn whole_number_that_no_double_holds_is_refused() {
    for source in [
        "9223372036854775809",
        "9223372036854777855",
        "9223372036854776832",
        "18446744073709549569",
        "18446744073709551614",
        "18446744073709551615",
    ] {
        assert_eq!(classify(&read(source)).unwrap_err(), ClassifyError::NumericRange);
        assert_eq!(entry_to_kdl(&read(source)).unwrap_err(), ClassifyError::NumericRange);
    }
}

#[test]
fn wide_whole_number_among_arguments() {
    let node = build_node(&read(
        r#"{"name": "n", "arguments": [9223372036854775808, 9223372036854775809, 1]}"#,
    ))
    .unwrap();
    let entries = node.entries();
    assert_eq!(entries.len(), 2);
    assert_eq!(entries[0].value(), &KdlValue::Base10Float(9223372036854775808.0));
    assert_eq!(entries[1].value(), &KdlValue::Base10(1));
}

#[test]
fn scalars_are_classified() {
    assert_eq!(classify(&Json::Null).unwrap().literal, Literal::Null);
    assert_eq!(classify(&Json::Bool(false)).unwrap().literal, Literal::Bool(false));
    assert_eq!(classify(&text("q?")).unwrap().literal, Literal::String("q?"));
    assert_eq!(classify(&text("q?")).unwrap().ty, None);
    assert_eq!(entry_to_kdl(&Json::Null).unwrap().value(), &KdlValue::Null);
    assert_eq!(entry_to_kdl(&Json::Bool(true)).unwrap().value(), &KdlValue::Bool(true));
    assert_eq!(
        entry_to_kdl(&text("q?")).unwrap().value(),
        &KdlValue::String("q?".to_string())
    );
    let plain = entry_to_kdl(&text("q?")).unwrap();
    assert!(plain.name().is_none());
    assert!(plain.ty().is_none());
}

#[test]
fn wrapper_gives_value_and_annotation() {
    let wrapped = read(r#"{"value": 3, "type": "my-super-cool-int"}"#);
    let c = classify(&wrapped).unwrap();
    assert_eq!(c.literal, Literal::Integer(3));
    assert_eq!(c.ty, Some("my-super-cool-int"));
    let entry = entry_to_kdl(&wrapped).unwrap();
    assert_eq!(entry.value(), &KdlValue::Base10(3));
    assert_eq!(entry.ty().unwrap().value(), "my-super-cool-int");
    assert!(entry.name().is_none());
    assert_eq!(entry.to_string(), "(my-super-cool-int)3");

    let bare = read(r#"{"value": "x"}"#);
    let entry = entry_to_kdl(&bare).unwrap();
    assert_eq!(entry.value(), &KdlValue::String("x".to_string()));
    assert!(entry.ty().is_none());

    let null_inside = read(r#"{"value": null, "type": "t"}"#);
    let entry = entry_to_kdl(&null_inside).unwrap();
    assert_eq!(entry.value(), &KdlValue::Null);
    assert_eq!(entry.ty().unwrap().value(), "t");
}

#[test]
fn annotation_that_is_no_string_is_no_annotation() {
    for source in [
        r#"{"value": 1, "type": 5}"#,
        r#"{"value": 1, "type": null}"#,
        r#"{"value": 1, "type": ["t"]}"#,
        r#"{"value": 1, "type": {"value": "t"}}"#,
        r#"{"value": 1}"#,
    ] {
        let entry = entry_to_kdl(&read(source)).unwrap();
        assert_eq!(entry.value(), &KdlValue::Base10(1));
        assert!(entry.ty().is_none());
        assert_eq!(classify(&read(source)).unwrap().ty, None);
    }
}

#[test]
fn values_that_are_no_literal_are_refused() {
    for source in [
        r#"[2, 3]"#,
        r#"[]"#,
        r#"{}"#,
        r#"{"type": "t"}"#,
        r#"{"value": [1]}"#,
        r#"{"value": {"value": 1}}"#,
        r#"{"value": {}, "type": "t"}"#,
    ] {
        assert_eq!(classify(&read(source)).unwrap_err(), ClassifyError::NotALiteral);
        assert_eq!(entry_to_kdl(&read(source)).unwrap_err(), ClassifyError::NotALiteral);
    }
}

#[test]
fn arguments_precede_properties() {
    let node = build_node(&read(
        r#"{"properties": {"k": "v"}, "type": "t", "arguments": ["a", "b"], "name": "n"}"#,
    ))
    .unwrap();
    let entries = node.entries();
    assert_eq!(entries.len(), 3);
    assert!(entries[0].name().is_none());
    assert_eq!(entries[0].value(), &KdlValue::String("a".to_string()));
    assert!(entries[1].name().is_none());
    assert_eq!(entries[1].value(), &KdlValue::String("b".to_string()));
    assert_eq!(entries[2].name().unwrap().value(), "k");
    assert_eq!(entries[2].value(), &KdlValue::String("v".to_string()));
    assert_eq!(node.to_string(), "(t)n \"a\" \"b\" k=\"v\"");
}

#[test]
fn properties_keep_their_order() {
    let node = build_node(&object(vec![
        ("name", text("n")),
        ("properties", object(vec![("z", whole(1)), ("a", whole(2)), ("m", whole(3))])),
    ]))
    .unwrap();
    let names: Vec<&str> = node.entries().iter().map(|e| e.name().unwrap().value()).collect();
    assert_eq!(names, vec!["z", "a", "m"]);
    assert_eq!(node.to_string(), "n z=1 a=2 m=3");
}

#[test]
fn argument_that_is_no_literal_is_dropped() {
    let node = build_node(&read(r#"{"name": "n", "arguments": [1, [2, 3], 4]}"#)).unwrap();
    let entries = node.entries();
    assert_eq!(entries.len(), 2);
    assert_eq!(entries[0].value(), &KdlValue::Base10(1));
    assert_eq!(entries[1].value(), &KdlValue::Base10(4));

    let same = build_node(&read(r#"{"name": "n", "arguments": [1, 4]}"#)).unwrap();
    assert_eq!(node, same);

    let none = build_node(&read(r#"{"name": "n", "arguments": [[1], {}, 18446744073709551615]}"#))
        .unwrap();
    assert!(none.entries().is_empty());
}

#[test]
fn property_that_is_no_literal_is_dropped_with_its_key() {
    let node = build_node(&read(
        r#"{"name": "n", "properties": {"a": 1, "b": [2], "c": {"type": "t"}, "d": "x"}}"#,
    ))
    .unwrap();
    let entries = node.entries();
    assert_eq!(entries.len(), 2);
    assert_eq!(entries[0].name().unwrap().value(), "a");
    assert_eq!(entries[0].value(), &KdlValue::Base10(1));
    assert_eq!(entries[1].name().unwrap().value(), "d");
    assert_eq!(entries[1].value(), &KdlValue::String("x".to_string()));
    assert!(node.get("b").is_none());
    assert!(node.get("c").is_none());
}

#[test]
fn property_with_annotation() {
    let node =
        build_node(&read(r#"{"name": "child", "properties": {"age": {"value": 3, "type": "years"}}}"#))
            .unwrap();
    let entry = &node.entries()[0];
    assert_eq!(entry.name().unwrap().value(), "age");
    assert_eq!(entry.ty().unwrap().value(), "years");
    assert_eq!(entry.value(), &KdlValue::Base10(3));
    assert_eq!(node.to_string(), "child age=(years)3");
}

#[test]
fn later_property_of_the_same_key_takes_the_place_of_the_earlier() {
    let node = build_node(&object(vec![
        ("name", text("n")),
        ("arguments", Json::Array(vec![whole(0)])),
        (
            "properties",
            Json::Object(vec![
                ("k".to_string(), whole(1)),
                ("other".to_string(), whole(2)),
                ("k".to_string(), whole(3)),
            ]),
        ),
    ]))
    .unwrap();
    let entries = node.entries();
    assert_eq!(entries.len(), 3);
    assert!(entries[0].name().is_none());
    assert_eq!(entries[1].name().unwrap().value(), "k");
    assert_eq!(entries[1].value(), &KdlValue::Base10(3));
    assert_eq!(entries[2].name().unwrap().value(), "other");
    assert_eq!(entries[2].value(), &KdlValue::Base10(2));
}

#[test]
fn member_is_found_at_its_first_pair() {
    let value = Json::Object(vec![
        ("name".to_string(), text("first")),
        ("name".to_string(), text("second")),
    ]);
    assert_eq!(value.get("name"), Some(&text("first")));
    assert_eq!(value.get("other"), None);
    assert_eq!(Json::Array(vec![text("name")]).get("name"), None);
    assert_eq!(text("name").get("name"), None);
    assert_eq!(build_node(&value).unwrap().name().value(), "first");
}

#[test]
fn accessors_tell_the_kinds_apart() {
    assert!(Json::Null.is_null());
    assert!(!Json::Bool(false).is_null());
    assert_eq!(text("s").as_str(), Some("s"));
    assert_eq!(Json::Null.as_str(), None);
    assert_eq!(Json::Array(vec![Json::Null]).as_array(), Some(&vec![Json::Null]));
    assert_eq!(text("s").as_array(), None);
    assert_eq!(
        object(vec![("k", Json::Null)]).as_object(),
        Some(&vec![("k".to_string(), Json::Null)])
    );
    assert_eq!(Json::Array(vec![]).as_object(), None);
}

#[test]
fn children_become_a_nested_document() {
    let node = build_node(&read(r#"{"name": "lemon", "children": [{"name": "x"}]}"#)).unwrap();
    let children = node.children().unwrap();
    assert_eq!(children.nodes().len(), 1);
    assert_eq!(children.nodes()[0].name().value(), "x");
    assert_eq!(node.to_string(), "lemon {\n    x\n}");

    let empty = build_node(&read(r#"{"name": "lemon", "children": []}"#)).unwrap();
    assert!(empty.children().unwrap().nodes().is_empty());
}

#[test]
fn invalid_child_fails_the_whole_document() {
    let input = read(
        r#"[{"name": "ok"}, {"name": "lemon", "children": [{"name": "x"}, {"arguments": [1]}]}]"#,
    );
    assert_eq!(json_to_kdl(&input).unwrap_err(), SchemaError::MissingName);
    assert_eq!(convert(&input).unwrap_err(), SchemaError::MissingName);

    let deep = read(
        r#"[{"name": "a", "children": [{"name": "b", "children": [{"name": "c", "type": 1}]}]}]"#,
    );
    assert_eq!(json_to_kdl(&deep).unwrap_err(), SchemaError::BadNodeType);

    let not_a_list = read(r#"[{"name": "a", "children": {"name": "b"}}]"#);
    assert_eq!(json_to_kdl(&not_a_list).unwrap_err(), SchemaError::RootNotArray);
}

#[test]
fn first_wrong_item_gives_the_error() {
    let input = read(r#"[{"name": "a"}, {"name": "b", "arguments": 1}, {"name": 3}]"#);
    assert_eq!(json_to_kdl(&input).unwrap_err(), SchemaError::BadArguments);
}

#[test]
fn members_are_checked_in_order() {
    assert_eq!(
        build_node(&read(r#"{"name": "n", "arguments": {}, "properties": [], "type": 1}"#))
            .unwrap_err(),
        SchemaError::BadArguments
    );
    assert_eq!(
        build_node(&read(r#"{"name": "n", "arguments": [], "properties": [], "type": 1}"#))
            .unwrap_err(),
        SchemaError::BadProperties
    );
    assert_eq!(
        build_node(&read(r#"{"name": "n", "properties": {}, "children": 1, "type": 1}"#))
            .unwrap_err(),
        SchemaError::RootNotArray
    );
    assert_eq!(
        build_node(&read(r#"{"name": "n", "children": [], "type": 1}"#)).unwrap_err(),
        SchemaError::BadNodeType
    );
    assert_eq!(
        build_node(&read(r#"{"name": "n", "arguments": null}"#)).unwrap_err(),
        SchemaError::BadArguments
    );
    assert_eq!(
        build_node(&read(r#"{"name": "n", "properties": null}"#)).unwrap_err(),
        SchemaError::BadProperties
    );
    assert_eq!(
        build_node(&read(r#"{"name": "n", "type": false}"#)).unwrap_err(),
        SchemaError::BadNodeType
    );
}

#[test]
fn root_must_be_an_array() {
    assert_eq!(json_to_kdl(&read(r#"{"name": "n"}"#)).unwrap_err(), SchemaError::RootNotArray);
    assert_eq!(json_to_kdl(&Json::Null).unwrap_err(), SchemaError::RootNotArray);
    assert_eq!(convert(&text("x")).unwrap_err(), SchemaError::RootNotArray);
    let empty = json_to_kdl(&read("[]")).unwrap();
    assert!(empty.nodes().is_empty());
    assert_eq!(convert(&read("[]")).unwrap(), "");
}

#[test]
fn end_to_end_scenario() {
    let out = convert_text(
        r#"[{"name":"bees","arguments":[true,42,{"value":3.1415,"type":"my-neat-float"},null,"q?"],"properties":{"k":"v"}}]"#,
    )
    .unwrap();
    assert_eq!(out, "bees true 42 (my-neat-float)3.1415 null \"q?\" k=\"v\"\n");
    let document = json_to_kdl(&read(
        r#"[{"name":"bees","arguments":[true,42,{"value":3.1415,"type":"my-neat-float"},null,"q?"],"properties":{"k":"v"}}]"#,
    ))
    .unwrap();
    assert_eq!(document.nodes().len(), 1);
    assert_eq!(document.to_string(), out);
}

#[test]
fn null_type_is_no_type() {
    let with_null = read(r#"[{"name": "n", "arguments": [1], "type": null}]"#);
    let without = read(r#"[{"name": "n", "arguments": [1]}]"#);
    let a = json_to_kdl(&with_null).unwrap();
    let b = json_to_kdl(&without).unwrap();
    assert_eq!(a, b);
    assert!(a.nodes()[0].ty().is_none());
    assert_eq!(a.to_string(), "n 1\n");
    assert_eq!(a.to_string(), b.to_string());

    let entry_with_null = entry_to_kdl(&read(r#"{"value": 1, "type": null}"#)).unwrap();
    let entry_without = entry_to_kdl(&read(r#"{"value": 1}"#)).unwrap();
    assert_eq!(entry_with_null, entry_without);
    assert!(entry_with_null.ty().is_none());
    assert_eq!(entry_with_null.to_string(), "1");
}

#[test]
fn node_type_is_attached() {
    let node = build_node(&read(r#"{"name": "ohno", "type": "ohnono"}"#)).unwrap();
    assert_eq!(node.ty().unwrap().value(), "ohnono");
    assert_eq!(node.to_string(), "(ohnono)ohno");
}

#[test]
fn same_input_gives_the_same_text() {
    let source = r#"[{"name": "a", "arguments": [1.5, "x"], "properties": {"p": null},
        "children": [{"name": "b", "type": "t"}]}]"#;
    let first = convert_text(source).unwrap();
    let second = convert_text(source).unwrap();
    assert_eq!(first, second);
    assert_eq!(first, "a 1.5 \"x\" p=null {\n    (t)b\n}\n");
    let value = read(source);
    assert_eq!(convert(&value).unwrap(), convert(&value).unwrap());
    assert_eq!(convert(&value).unwrap(), first);
}

#[test]
fn text_that_is_no_json_is_refused() {
    assert!(parse("[1, 2").is_err());
    assert!(parse("").is_err());
    assert!(matches!(convert_text("{\"name\": }"), Err(ConvertError::Parse(_))));
    assert!(matches!(
        convert_text("{\"name\": \"n\"}"),
        Err(ConvertError::Schema(SchemaError::RootNotArray))
    ));
    assert!(matches!(
        convert_text("[{\"nam\": \"n\"}]"),
        Err(ConvertError::Schema(SchemaError::MissingName))
    ));
}

#[test]
fn value_keeps_its_content() {
    let value = serde_json::Value::Array(vec![
        serde_json::Value::Null,
        serde_json::Value::Bool(true),
        serde_json::Value::Number(serde_json::Number::from(7)),
        serde_json::Value::String("s".to_string()),
    ]);
    assert_eq!(
        from_value(&value),
        Json::Array(vec![Json::Null, Json::Bool(true), whole(7), text("s")])
    );
    let mut map = serde_json::Map::new();
    map.insert("b".to_string(), serde_json::Value::Bool(false));
    map.insert("a".to_string(), value);
    let json = from_value(&serde_json::Value::Object(map));
    assert_eq!(
        json,
        Json::Object(vec![
            ("b".to_string(), Json::Bool(false)),
            (
                "a".to_string(),
                Json::Array(vec![Json::Null, Json::Bool(true), whole(7), text("s")])
            ),
        ])
    );
    assert_eq!(read(r#"{"b": false, "a": [null, true, 7, "s"]}"#), json);
}

#[test]
fn errors_have_messages() {
    assert_eq!(SchemaError::RootNotArray.message(), "Document root must be a JSON array");
    assert_eq!(SchemaError::MissingName.message(), "`name` must exist and be a String");
    assert_eq!(SchemaError::BadArguments.message(), "`arguments` must be an Array");
    assert_eq!(SchemaError::BadProperties.message(), "`properties` must be an Object");
    assert_eq!(SchemaError::BadNodeType.message(), "`type` must be a String");
    assert_eq!(
        ClassifyError::NotALiteral.message(),
        "Type cannot be represented as a KDL value"
    );
    assert_eq!(
        ClassifyError::NumericRange.message(),
        "Number fits neither a 64-bit integer nor a 64-bit float"
    );
}

#[test]
fn names_and_strings_are_quoted_where_needed() {
    let out = convert_text(
        r#"[{"name": "two words", "arguments": ["line\nbreak", "say \"hi\""], "properties": {"a b": true}}]"#,
    )
    .unwrap();
    assert_eq!(out, "\"two words\" \"line\\nbreak\" \"say \\\"hi\\\"\" \"a b\"=true\n");
}
