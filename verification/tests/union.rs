use ravro::schema::error::{Error, ErrorCode, JsonErrorKind};
use ravro::schema::{from_str, to_string, JsonValue, Schema, UnionBuilder};

fn name(text: &str) -> Schema {
    Schema::String(String::from(text))
}

fn rule(code: ErrorCode) -> Error {
    Error::SyntaxError(code, 0, 0)
}

fn joined(parts: &[&str]) -> String {
    parts.concat()
}

#[test]
fn is_simple_union() {
    assert!(Schema::Union(vec![name("boolean"), name("int")]).is_union());
}

#[test]
fn is_empty_union() {
    assert!(Schema::Union(vec![]).is_union());
}

#[test]
fn others_are_not_union() {
    assert_eq!(name("boolean").is_union(), false);
    assert_eq!(Schema::Null.is_union(), false);
    assert_eq!(from_str(r#"{"type":"string"}"#).unwrap().is_union(), false);
}

#[test]
fn union_of_primitives() {
    let union = Schema::Union(vec![name("boolean"), name("int")]);
    assert_eq!(to_string(&union).unwrap(), r#"["boolean","int"]"#);
}

#[test]
fn empty_union_is_written_as_empty_brackets() {
    assert_eq!(to_string(&Schema::Union(vec![])).unwrap(), "[]");
}

#[test]
fn union_of_one_has_no_comma() {
    assert_eq!(to_string(&Schema::Union(vec![name("int")])).unwrap(), r#"["int"]"#);
}

#[test]
fn union_is_read_member_by_member() {
    let read = from_str(r#"["int","boolean"]"#).unwrap();
    assert_eq!(read, Schema::Union(vec![name("int"), name("boolean")]));
    assert_eq!(to_string(&read).unwrap(), r#"["int","boolean"]"#);
}

#[test]
fn union_2() {
    let built = UnionBuilder::new().push_schema(name("int")).push_schema(name("boolean")).unwrap();
    assert_eq!(built, from_str("[\"int\",\"boolean\"]").unwrap());
}

#[test]
fn union_1() {
    let built = UnionBuilder::new()
        .push_record(|bld| {
            bld.name(String::from("foo"))
                .namespace(String::from("x.y"))
                .doc(String::from("bar baz"))
                .fields(|fab| {
                    fab.push(|fb| fb.name(String::from("f1")).field_type(name("int")))
                        .push(|fb| fb.name(String::from("f2")).field_type(name("boolean")))
                })
        })
        .unwrap();
    let text = joined(&[
        "[{",
        "\"doc\":\"bar baz\",",
        "\"fields\":[",
        "{\"name\":\"f1\",\"type\":\"int\"},",
        "{\"name\":\"f2\",\"type\":\"boolean\"}],",
        "\"name\":\"foo\",",
        "\"namespace\":\"x.y\",",
        "\"type\":\"record\"",
        "}]"
    ]);
    assert_eq!(built, from_str(&text).unwrap());
    assert_eq!(built.to_string(), text);
}

#[test]
fn union_3() {
    let built = UnionBuilder::new().push_map(|bld| bld.values(name("string"))).unwrap();
    let text = "[{\"type\":\"map\",\"values\":{\"type\":\"string\"}}]";
    assert_eq!(built, from_str(&text).unwrap());
}

#[test]
fn members_that_are_no_strings_are_complex_types() {
    let read = from_str(r#"[1, null, true, {"type":"string"}, "int"]"#).unwrap();
    match read {
        Schema::Union(members) => {
            assert_eq!(members.len(), 5);
            assert_eq!(members[0], Schema::Object(JsonValue::U64(1)));
            assert_eq!(members[1], Schema::Object(JsonValue::Null));
            assert_eq!(members[2], Schema::Object(JsonValue::Bool(true)));
            assert!(members[3].is_object());
            assert_eq!(members[4], name("int"));
        },
        other => panic!("{:?}", other),
    }
}

#[test]
fn cannot_nest_arrays() {
    let text = joined(&[
        "[{",
        "\"type\":\"map\",",
        "\"values\":{\"type\":\"string\"}",
        "},",
        "[\"int\",\"boolean\"],",
        "]"
    ]);
    assert!(from_str(&text).is_err());
}

#[test]
fn nested_union_is_refused_though_the_json_is_fine() {
    assert_eq!(from_str(r#"[["int","boolean"],"string"]"#), Err(rule(ErrorCode::CannotNestArrays)));
    assert_eq!(from_str(r#"["string",["int"]]"#), Err(rule(ErrorCode::CannotNestArrays)));
    assert_eq!(from_str("[[]]"), Err(rule(ErrorCode::CannotNestArrays)));
}

#[test]
fn broken_json_carries_the_place_of_the_failure() {
    assert_eq!(
        from_str("[\"int\",\n  }"),
        Err(Error::SyntaxError(ErrorCode::JsonErrorCode(JsonErrorKind::Syntax), 2, 3))
    );
    assert_eq!(
        from_str("{\"type\":"),
        Err(Error::SyntaxError(ErrorCode::JsonErrorCode(JsonErrorKind::Eof), 1, 8))
    );
}

#[test]
fn builder_starts_an_empty_union() {
    let u = UnionBuilder::new().unwrap();
    assert!(u.is_union());
    assert!(u.fullname().is_err());
}

#[test]
fn has_fixed() {
    let u = UnionBuilder::new()
        .push_fixed(|bld| bld.name(String::from("md5")).namespace(String::from("x.y")).size(16))
        .unwrap();
    assert_eq!(
        u.to_string(),
        "[{\"name\":\"md5\",\"namespace\":\"x.y\",\"size\":16,\"type\":\"fixed\"}]"
    );
}

#[test]
fn has_map() {
    let u = UnionBuilder::new().push_map(|bld| bld.values(name("string"))).unwrap();
    assert_eq!(u.to_string(), "[{\"type\":\"map\",\"values\":{\"type\":\"string\"}}]");
}

#[test]
fn has_array() {
    let u = UnionBuilder::new().push_array(|bld| bld.items(name("string"))).unwrap();
    assert_eq!(u.to_string(), "[{\"items\":{\"type\":\"string\"},\"type\":\"array\"}]");
}

#[test]
fn has_enum() {
    let u = UnionBuilder::new()
        .push_enum(|bld| {
            bld.name(String::from("foo"))
                .namespace(String::from("x.y"))
                .doc(String::from("bar baz"))
                .symbols(|sb| sb.push("A1").push("A2"))
        })
        .unwrap();
    assert_eq!(
        u.to_string(),
        joined(&[
            "[{",
            "\"doc\":\"bar baz\",",
            "\"name\":\"foo\",",
            "\"namespace\":\"x.y\",",
            "\"symbols\":[\"A1\",\"A2\"],",
            "\"type\":\"enum\"",
            "}]"
        ])
    );
}

#[test]
fn has_schema() {
    let u = UnionBuilder::new().push_schema(name("int")).push_schema(name("boolean")).unwrap();
    assert_eq!(u.to_string(), "[\"int\",\"boolean\"]");
}

#[test]
fn union_of_valid_members_is_valid() {
    assert_eq!(Schema::Union(vec![name("null"), name("string")]).is_valid(), Ok(()));
    assert_eq!(Schema::Union(vec![]).is_valid(), Ok(()));
}

#[test]
fn union_fails_with_its_first_bad_member() {
    let u = Schema::Union(vec![name("int"), name("9x"), Schema::Null]);
    assert_eq!(u.is_valid(), Err(rule(ErrorCode::NotWellFormedName)));
    let u = Schema::Union(vec![name("int"), Schema::Null, name("9x")]);
    assert_eq!(u.is_valid(), Err(rule(ErrorCode::Unknown)));
}

#[test]
fn union_inside_a_union_is_not_valid() {
    let u = Schema::Union(vec![name("int"), Schema::Union(vec![])]);
    assert_eq!(u.is_valid(), Err(rule(ErrorCode::CannotNestArrays)));
}

#[test]
fn union_of_two_arrays_is_not_valid() {
    let u = UnionBuilder::new()
        .push_array(|b| b.items(name("int")))
        .push_schema(name("string"))
        .push_array(|b| b.items(name("string")))
        .unwrap();
    assert_eq!(u.is_valid(), Err(rule(ErrorCode::FieldTooManyElementsOfSameType)));
}

#[test]
fn union_of_two_maps_is_not_valid() {
    let u = UnionBuilder::new()
        .push_map(|b| b.values(name("int")))
        .push_map(|b| b.values(name("string")))
        .unwrap();
    assert_eq!(u.is_valid(), Err(rule(ErrorCode::FieldTooManyElementsOfSameType)));
}

#[test]
fn union_of_one_array_and_one_map_is_valid() {
    let u = UnionBuilder::new()
        .push_map(|b| b.values(name("int")))
        .push_array(|b| b.items(name("string")))
        .unwrap();
    assert_eq!(u.is_valid(), Ok(()));
}

#[test]
fn validation_gives_the_same_answer_twice() {
    let good = Schema::Union(vec![name("null"), name("string")]);
    assert_eq!(good.is_valid(), good.is_valid());
    let bad = Schema::Union(vec![name("9x")]);
    assert_eq!(bad.is_valid(), bad.is_valid());
    assert_eq!(bad.clone().is_valid(), bad.is_valid());
}
