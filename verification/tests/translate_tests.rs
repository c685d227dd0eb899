use avro2adf::json::{get, same_text, Json, Member};
use avro2adf::translate::{
    handle_any_json_element, handle_avro_array_type, handle_avro_bytes_type,
    handle_avro_record_type, handle_decimal_avro_type, handle_json_array_type,
    handle_json_map_element, handle_json_string_type, handle_record_field, indentation,
    is_null_type, SchemaError,
};

fn text(s: &str) -> Json {
    Json::Text(s.to_string())
}

fn num(n: i64) -> Json {
    Json::Number(Some(n))
}

fn member(key: &str, value: Json) -> Member {
    Member { key: key.to_string(), value }
}

fn field(name: &str, node: Json) -> Json {
    Json::Object(vec![member("name", text(name)), member("type", node)])
}

fn record_entries(fields: Vec<Json>) -> Vec<Member> {
    vec![member("type", text("record")), member("fields", Json::Array(fields))]
}

fn record(fields: Vec<Json>) -> Json {
    Json::Object(record_entries(fields))
}

fn array_of(items: Json) -> Json {
    Json::Object(vec![member("type", text("array")), member("items", items)])
}

fn decimal(precision: Json, scale: Json) -> Vec<Member> {
    vec![
        member("type", text("bytes")),
        member("logicalType", text("decimal")),
        member("precision", precision),
        member("scale", scale),
    ]
}

fn ok(s: &str) -> Result<String, SchemaError> {
    Ok(s.to_string())
}

#[test]
fn primitive_names_map_to_adf_names() {
    let table = [
        ("boolean", "boolean"),
        ("int", "integer"),
        ("long", "long"),
        ("float", "float"),
        ("double", "double"),
        ("string", "string"),
    ];
    for (avro, adf) in table {
        assert_eq!(handle_json_string_type(&avro.to_string()), ok(adf));
        assert_eq!(handle_any_json_element("", &text(avro)), ok(adf));
        assert_eq!(handle_any_json_element("        ", &text(avro)), ok(adf));
    }
}

#[test]
fn unknown_primitive_is_refused() {
    assert_eq!(handle_json_string_type(&"bytes".to_string()), Err(SchemaError::UnknownPrimitive("bytes".to_string())));
    assert_eq!(handle_json_string_type(&"integer".to_string()), Err(SchemaError::UnknownPrimitive("integer".to_string())));
    assert_eq!(handle_json_string_type(&"".to_string()), Err(SchemaError::UnknownPrimitive("".to_string())));
    assert_eq!(handle_json_string_type(&"Int".to_string()), Err(SchemaError::UnknownPrimitive("Int".to_string())));
    assert_eq!(handle_any_json_element("", &text("null")), Err(SchemaError::UnknownPrimitive("null".to_string())));
}

#[test]
fn null_node_renders_nothing() {
    assert_eq!(handle_any_json_element("", &Json::Null), ok(""));
}

#[test]
fn number_and_boolean_are_no_types() {
    assert_eq!(handle_any_json_element("", &num(3)), Err(SchemaError::UnexpectedTypeTag));
    assert_eq!(handle_any_json_element("", &Json::Number(None)), Err(SchemaError::UnexpectedTypeTag));
    assert_eq!(handle_any_json_element("", &Json::Bool(true)), Err(SchemaError::UnexpectedTypeTag));
}

#[test]
fn object_needs_a_known_type() {
    assert_eq!(handle_json_map_element("", &vec![]), Err(SchemaError::UnexpectedObject));
    assert_eq!(
        handle_json_map_element("", &vec![member("type", text("enum"))]),
        Err(SchemaError::UnexpectedObject)
    );
    assert_eq!(
        handle_json_map_element("", &vec![member("type", num(1))]),
        Err(SchemaError::UnexpectedObject)
    );
    assert_eq!(
        handle_any_json_element("", &Json::Object(vec![member("fields", Json::Array(vec![]))])),
        Err(SchemaError::UnexpectedObject)
    );
}

#[test]
fn single_field_record() {
    let r = record(vec![field("id", text("long"))]);
    assert_eq!(handle_any_json_element("", &r), ok("(\n    id as long\n)"));
}

#[test]
fn fields_keep_their_order_and_commas() {
    let r = record_entries(vec![
        field("zeta", text("int")),
        field("alpha", text("string")),
        field("mid", text("double")),
    ]);
    assert_eq!(
        handle_avro_record_type("", &r),
        ok("(\n    zeta as integer,\n    alpha as string,\n    mid as double\n)")
    );
    let out = handle_avro_record_type("", &r).unwrap();
    assert_eq!(out.matches(" as ").count(), 3);
    assert_eq!(out.matches(",\n").count(), 2);
}

#[test]
fn record_without_fields_is_a_pair_of_parentheses() {
    assert_eq!(handle_avro_record_type("", &record_entries(vec![])), ok("(\n)"));
    assert_eq!(handle_avro_record_type("  ", &record_entries(vec![])), ok("(\n  )"));
}

#[test]
fn nested_record_is_indented_one_level_deeper() {
    let inner = record(vec![field("city", text("string"))]);
    let outer = record(vec![field("addr", inner)]);
    assert_eq!(
        handle_any_json_element("", &outer),
        ok("(\n    addr as (\n        city as string\n    )\n)")
    );
}

#[test]
fn three_levels_of_records() {
    let c = record(vec![field("z", text("boolean"))]);
    let b = record(vec![field("y", c), field("w", text("float"))]);
    let a = record(vec![field("x", b)]);
    assert_eq!(
        handle_any_json_element("", &a),
        ok("(\n    x as (\n        y as (\n            z as boolean\n        ),\n        w as float\n    )\n)")
    );
}

#[test]
fn record_at_a_given_indentation() {
    let r = record(vec![field("id", text("long"))]);
    let pad = indentation(4);
    assert_eq!(pad, "    ");
    assert_eq!(handle_any_json_element(&pad, &r), ok("(\n        id as long\n    )"));
}

#[test]
fn indentation_has_the_given_width() {
    assert_eq!(indentation(0), "");
    assert_eq!(indentation(1), " ");
    assert_eq!(indentation(8), "        ");
}

#[test]
fn record_faults() {
    assert_eq!(
        handle_avro_record_type("", &vec![member("type", text("record"))]),
        Err(SchemaError::MissingFields)
    );
    assert_eq!(
        handle_avro_record_type("", &vec![member("fields", text("x"))]),
        Err(SchemaError::FieldsNotArray)
    );
    assert_eq!(
        handle_avro_record_type("", &record_entries(vec![text("long")])),
        Err(SchemaError::FieldNotObject)
    );
    assert_eq!(
        handle_avro_record_type("", &record_entries(vec![Json::Object(vec![member("type", text("long"))])])),
        Err(SchemaError::MissingFieldName)
    );
    assert_eq!(
        handle_avro_record_type("", &record_entries(vec![field_with_name(num(7))])),
        Err(SchemaError::FieldNameNotString)
    );
    assert_eq!(
        handle_avro_record_type("", &record_entries(vec![Json::Object(vec![member("name", text("a"))])])),
        Err(SchemaError::MissingFieldType)
    );
    assert_eq!(
        handle_avro_record_type("", &record_entries(vec![field("a", text("uuid"))])),
        Err(SchemaError::UnknownPrimitive("uuid".to_string()))
    );
}

fn field_with_name(name: Json) -> Json {
    Json::Object(vec![member("name", name), member("type", text("long"))])
}

#[test]
fn first_fault_of_a_record_wins() {
    let r = record_entries(vec![
        field("a", text("long")),
        field("b", text("nope")),
        text("not an object"),
    ]);
    assert_eq!(handle_avro_record_type("", &r), Err(SchemaError::UnknownPrimitive("nope".to_string())));
    let r = record_entries(vec![
        Json::Object(vec![member("name", num(1))]),
        field("b", text("nope")),
    ]);
    assert_eq!(handle_avro_record_type("", &r), Err(SchemaError::FieldNameNotString));
    let r = record_entries(vec![Json::Object(vec![member("type", num(1))])]);
    assert_eq!(handle_avro_record_type("", &r), Err(SchemaError::MissingFieldName));
}

#[test]
fn record_field_line() {
    assert_eq!(handle_record_field("    ", &field("id", text("int")), true), ok("    id as integer\n"));
    assert_eq!(handle_record_field("    ", &field("id", text("int")), false), ok("    id as integer,\n"));
    assert_eq!(handle_record_field("", &field("", Json::Null), true), ok(" as \n"));
    assert_eq!(handle_record_field("", &Json::Array(vec![]), true), Err(SchemaError::FieldNotObject));
}

#[test]
fn array_type_appends_brackets() {
    assert_eq!(handle_any_json_element("", &array_of(text("string"))), ok("string[]"));
    assert_eq!(handle_any_json_element("", &array_of(array_of(text("int")))), ok("integer[][]"));
    assert_eq!(
        handle_avro_array_type("", &vec![member("items", text("long"))]),
        ok("long[]")
    );
    assert_eq!(
        handle_any_json_element("", &array_of(Json::Object(decimal(num(4), num(1))))),
        ok("decimal(4,1)[]")
    );
}

#[test]
fn array_of_records_keeps_the_indentation() {
    let r = record(vec![field("tags", array_of(record(vec![field("k", text("string"))])))]);
    assert_eq!(
        handle_any_json_element("", &r),
        ok("(\n    tags as (\n        k as string\n    )[]\n)")
    );
}

#[test]
fn array_type_faults() {
    assert_eq!(
        handle_avro_array_type("", &vec![member("type", text("array"))]),
        Err(SchemaError::MissingItems)
    );
    assert_eq!(
        handle_any_json_element("", &array_of(text("map"))),
        Err(SchemaError::UnknownPrimitive("map".to_string()))
    );
    assert_eq!(handle_any_json_element("", &array_of(num(1))), Err(SchemaError::UnexpectedTypeTag));
}

#[test]
fn nullable_union_is_its_one_type() {
    let direct = record(vec![field("city", text("string"))]);
    let expected = handle_any_json_element("    ", &direct);
    let union = vec![text("null"), record(vec![field("city", text("string"))])];
    assert_eq!(handle_json_array_type("    ", &union), expected);
    assert_eq!(expected, ok("(\n        city as string\n    )"));
    assert_eq!(handle_json_array_type("", &vec![text("null"), text("int")]), ok("integer"));
    assert_eq!(handle_json_array_type("", &vec![text("int"), text("null")]), ok("integer"));
    assert_eq!(handle_json_array_type("", &vec![text("long")]), ok("long"));
    assert_eq!(
        handle_json_array_type("", &vec![text("null"), text("null"), text("double"), text("null")]),
        ok("double")
    );
    assert_eq!(handle_any_json_element("", &Json::Array(vec![text("null"), text("float")])), ok("float"));
}

#[test]
fn union_with_no_type_or_several_is_refused() {
    assert_eq!(handle_json_array_type("", &vec![]), Err(SchemaError::InvalidUnion));
    assert_eq!(handle_json_array_type("", &vec![text("null")]), Err(SchemaError::InvalidUnion));
    assert_eq!(
        handle_json_array_type("", &vec![text("null"), text("null")]),
        Err(SchemaError::InvalidUnion)
    );
    assert_eq!(
        handle_json_array_type("", &vec![text("int"), text("string")]),
        Err(SchemaError::InvalidUnion)
    );
    assert_eq!(
        handle_json_array_type("", &vec![text("null"), text("int"), text("string")]),
        Err(SchemaError::InvalidUnion)
    );
    assert_eq!(
        handle_json_array_type("", &vec![text("nope"), text("nope")]),
        Err(SchemaError::InvalidUnion)
    );
}

#[test]
fn json_null_in_a_union_counts_as_a_type() {
    assert_eq!(handle_json_array_type("", &vec![Json::Null]), ok(""));
    assert_eq!(handle_json_array_type("", &vec![text("null"), Json::Null]), ok(""));
    assert_eq!(
        handle_json_array_type("", &vec![Json::Null, text("int")]),
        Err(SchemaError::InvalidUnion)
    );
}

#[test]
fn union_with_a_fault_in_its_type() {
    assert_eq!(
        handle_json_array_type("", &vec![text("null"), text("nope")]),
        Err(SchemaError::UnknownPrimitive("nope".to_string()))
    );
    assert_eq!(handle_json_array_type("", &vec![num(1)]), Err(SchemaError::UnexpectedTypeTag));
}

#[test]
fn null_marker_is_the_string_null_only() {
    assert!(is_null_type(&text("null")));
    assert!(!is_null_type(&text("Null")));
    assert!(!is_null_type(&text("")));
    assert!(!is_null_type(&Json::Null));
    assert!(!is_null_type(&Json::Array(vec![text("null")])));
}

#[test]
fn decimal_is_exact() {
    assert_eq!(handle_decimal_avro_type(&decimal(num(10), num(2))), ok("decimal(10,2)"));
    assert_eq!(handle_avro_bytes_type(&decimal(num(10), num(2))), ok("decimal(10,2)"));
    assert_eq!(
        handle_any_json_element("    ", &Json::Object(decimal(num(10), num(2)))),
        ok("decimal(10,2)")
    );
    assert_eq!(handle_decimal_avro_type(&decimal(num(0), num(0))), ok("decimal(0,0)"));
    assert_eq!(handle_decimal_avro_type(&decimal(num(38), num(-5))), ok("decimal(38,-5)"));
    assert_eq!(handle_decimal_avro_type(&decimal(num(100), num(9))), ok("decimal(100,9)"));
}

#[test]
fn decimal_at_the_ends_of_the_range() {
    assert_eq!(
        handle_decimal_avro_type(&decimal(num(i64::MIN), num(i64::MAX))),
        ok("decimal(-9223372036854775808,9223372036854775807)")
    );
    assert_eq!(handle_decimal_avro_type(&decimal(num(-1), num(1234567890))), ok("decimal(-1,1234567890)"));
}

#[test]
fn decimal_faults() {
    let no_precision = vec![member("logicalType", text("decimal")), member("scale", num(2))];
    assert_eq!(handle_decimal_avro_type(&no_precision), Err(SchemaError::MissingPrecision));
    let no_scale = vec![member("logicalType", text("decimal")), member("precision", num(2))];
    assert_eq!(handle_decimal_avro_type(&no_scale), Err(SchemaError::MissingScale));
    assert_eq!(
        handle_decimal_avro_type(&decimal(text("10"), num(2))),
        Err(SchemaError::PrecisionNotInteger)
    );
    assert_eq!(
        handle_decimal_avro_type(&decimal(Json::Number(None), num(2))),
        Err(SchemaError::PrecisionNotInteger)
    );
    assert_eq!(
        handle_decimal_avro_type(&decimal(num(10), Json::Null)),
        Err(SchemaError::ScaleNotInteger)
    );
    assert_eq!(
        handle_decimal_avro_type(&decimal(text("x"), text("y"))),
        Err(SchemaError::PrecisionNotInteger)
    );
    assert_eq!(handle_decimal_avro_type(&vec![]), Err(SchemaError::MissingPrecision));
}

#[test]
fn bytes_faults() {
    assert_eq!(
        handle_avro_bytes_type(&vec![member("type", text("bytes"))]),
        Err(SchemaError::MissingLogicalType)
    );
    assert_eq!(
        handle_avro_bytes_type(&vec![member("logicalType", num(1))]),
        Err(SchemaError::LogicalTypeNotString)
    );
    assert_eq!(
        handle_avro_bytes_type(&vec![member("type", text("bytes")), member("logicalType", text("uuid"))]),
        Err(SchemaError::UnsupportedLogicalType("uuid".to_string()))
    );
    assert_eq!(
        handle_any_json_element(
            "",
            &Json::Object(vec![member("type", text("bytes")), member("logicalType", text("uuid"))])
        ),
        Err(SchemaError::UnsupportedLogicalType("uuid".to_string()))
    );
}

#[test]
fn get_takes_the_first_entry_of_a_key() {
    let entries = vec![member("a", num(1)), member("b", num(2)), member("a", num(3))];
    assert_eq!(get(&entries, "a"), Some(&num(1)));
    assert_eq!(get(&entries, "b"), Some(&num(2)));
    assert_eq!(get(&entries, "c"), None);
    assert_eq!(get(&vec![], "a"), None);
}

#[test]
fn same_text_compares_characters() {
    assert!(same_text(&"type".to_string(), "type"));
    assert!(!same_text(&"type".to_string(), "typ"));
    assert!(!same_text(&"".to_string(), "x"));
    assert!(same_text(&"".to_string(), ""));
}

#[test]
fn accessors_give_what_the_value_holds() {
    let a = Json::Array(vec![num(1)]);
    assert_eq!(a.as_array(), Some(&vec![num(1)]));
    assert_eq!(a.as_object_value(), None);
    assert_eq!(a.as_string(), None);
    assert_eq!(a.as_i64(), None);
    let o = Json::Object(vec![member("k", Json::Null)]);
    assert_eq!(o.as_object_value(), Some(&vec![member("k", Json::Null)]));
    assert_eq!(o.as_array(), None);
    let s = text("abc");
    assert_eq!(s.as_string(), Some(&"abc".to_string()));
    assert_eq!(s.as_object_value(), None);
    assert_eq!(num(-4).as_i64(), Some(-4));
    assert_eq!(Json::Number(None).as_i64(), None);
    assert_eq!(Json::Null.as_array(), None);
    assert_eq!(Json::Bool(false).as_string(), None);
}
