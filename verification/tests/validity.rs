use ravro::schema::error::{Error, ErrorCode};
use ravro::schema::validate::{
    does_type_name_match_def_value,
    is_valid_array,
    is_valid_field_default,
    is_valid_field_name,
    is_valid_field_type,
    is_valid_map,
    is_valid_schema_field,
    is_valid_schema_fields,
    is_valid_schema_object,
    is_valid_schema_record,
    is_valid_schema_string,
    is_valid_schema_union,
};
use ravro::schema::{
    from_str,
    ArrayBuilder,
    FieldBuilder,
    JsonFloat,
    JsonValue,
    MapBuilder,
    RecordBuilder,
    Schema,
};

fn name(text: &str) -> Schema {
    Schema::String(String::from(text))
}

fn s(text: &str) -> String {
    String::from(text)
}

fn fails(code: ErrorCode) -> Result<(), Error> {
    Err(Error::SyntaxError(code, 0, 0))
}

fn json(text: &str) -> JsonValue {
    match from_str(&format!("{{\"it\":{}}}", text)).unwrap() {
        Schema::Object(value) => value.find("it").unwrap().clone(),
        other => panic!("{:?}", other),
    }
}

fn float(f: f64) -> JsonValue {
    JsonValue::F64(JsonFloat::new(serde_json::Number::from_f64(f).unwrap()).ok().unwrap())
}

fn record_with_field(field_type: Schema, default: Option<JsonValue>) -> Schema {
    RecordBuilder::new()
        .name(s("foo"))
        .fields(|fab| {
            fab.push(|fb| {
                let fb = fb.name(s("bar")).field_type(field_type);
                match default {
                    Some(d) => fb.default(d),
                    None => fb,
                }
            })
        })
        .unwrap()
}

fn valid(text: &str) -> Result<(), Error> {
    from_str(text).unwrap().is_valid()
}

#[test]
fn missing_name() {
    assert_eq!(RecordBuilder::new().unwrap().is_valid(), fails(ErrorCode::NotWellFormedName));
}

#[test]
fn missing_fields() {
    let r = RecordBuilder::new().name(s("foo")).unwrap();
    assert_eq!(r.is_valid(), fails(ErrorCode::ExpectedFieldDefinition));
    assert_eq!(
        valid(r#"{"type":"record","name":"foo","fields":"none"}"#),
        fails(ErrorCode::ExpectedFieldDefinition)
    );
}

#[test]
fn empty_field_array_ok() {
    let r = RecordBuilder::new().name(s("foo")).fields(|fab| fab).unwrap();
    assert_eq!(r.is_valid(), Ok(()));
    assert_eq!(r.fullname().unwrap(), "foo");
    assert_eq!(valid(r#"{"type":"record","name":"foo","fields":[]}"#), Ok(()));
}

#[test]
fn field_missing_name() {
    let r = RecordBuilder::new()
        .name(s("foo"))
        .fields(|fab| fab.push(|fb| fb.field_type(name("string"))))
        .unwrap();
    assert_eq!(r.is_valid(), fails(ErrorCode::FieldNameNotWellFormed));
}

#[test]
fn field_has_bad_name() {
    let r = RecordBuilder::new()
        .name(s("foo"))
        .fields(|fab| fab.push(|fb| fb.name(s(";;foo;;"))))
        .unwrap();
    assert_eq!(r.is_valid(), fails(ErrorCode::FieldNameNotWellFormed));
}

#[test]
fn field_that_is_no_object_has_no_name() {
    assert_eq!(
        valid(r#"{"type":"record","name":"foo","fields":["bar"]}"#),
        fails(ErrorCode::FieldNameNotWellFormed)
    );
}

#[test]
fn field_missing_type() {
    let r = RecordBuilder::new()
        .name(s("foo"))
        .fields(|fab| fab.push(|fb| fb.name(s("bar"))))
        .unwrap();
    assert_eq!(r.is_valid(), fails(ErrorCode::ExpectedFieldTypeAttribute));
}

#[test]
fn the_first_bad_field_decides() {
    let text = r#"{"type":"record","name":"foo","fields":[
        {"name":"a","type":"int"},
        {"name":"b"},
        {"name":"9c","type":"int"}]}"#;
    assert_eq!(valid(text), fails(ErrorCode::ExpectedFieldTypeAttribute));
    let text = r#"{"type":"record","name":"foo","fields":[
        {"name":"a","type":"int"},
        {"name":"9c","type":"int"},
        {"name":"b"}]}"#;
    assert_eq!(valid(text), fails(ErrorCode::FieldNameNotWellFormed));
}

#[test]
fn field_name_is_checked_inside_the_namespace_of_the_record() {
    let field = json(r#"{"name":"bar","type":"int"}"#);
    assert_eq!(is_valid_field_name(&field, None), Ok(()));
    assert_eq!(is_valid_field_name(&field, Some(&s("x.y"))), Ok(()));
    assert_eq!(is_valid_field_name(&field, Some(&s(""))), Ok(()));
    assert_eq!(is_valid_field_name(&field, Some(&s("x..y"))), fails(ErrorCode::FieldNameNotWellFormed));
    let dotted = json(r#"{"name":"a.bar","type":"int"}"#);
    assert_eq!(is_valid_field_name(&dotted, Some(&s("x..y"))), Ok(()));
    assert_eq!(
        valid(r#"{"type":"record","name":"x.foo","namespace":"9","fields":[{"name":"bar","type":"int"}]}"#),
        fails(ErrorCode::FieldNameNotWellFormed)
    );
}

#[test]
fn bad_default_for_string_field() {
    let r = record_with_field(name("string"), Some(JsonValue::U64(99)));
    assert_eq!(r.is_valid(), fails(ErrorCode::FieldDefaultTypeMismatch));
}

#[test]
fn ok_default_for_string_field() {
    let r = record_with_field(name("string"), Some(JsonValue::String(s("yadda"))));
    assert_eq!(r.is_valid(), Ok(()));
}

#[test]
fn bad_default_for_int_field() {
    let r = record_with_field(name("int"), Some(JsonValue::String(s("yadda"))));
    assert_eq!(r.is_valid(), fails(ErrorCode::FieldDefaultTypeMismatch));
    let r = record_with_field(name("int"), Some(float(1.0)));
    assert_eq!(r.is_valid(), fails(ErrorCode::FieldDefaultTypeMismatch));
}

#[test]
fn ok_default_for_int_field() {
    let r = record_with_field(name("int"), Some(JsonValue::I64(10)));
    assert_eq!(r.is_valid(), Ok(()));
    let r = record_with_field(name("int"), Some(JsonValue::I64(-10)));
    assert_eq!(r.is_valid(), Ok(()));
}

#[test]
fn bad_default_for_null_field() {
    let r = record_with_field(name("null"), Some(JsonValue::String(s("yadda"))));
    assert_eq!(r.is_valid(), fails(ErrorCode::FieldDefaultTypeMismatch));
}

#[test]
fn ok_default_for_null_field() {
    let r = record_with_field(name("null"), Some(JsonValue::Null));
    assert_eq!(r.is_valid(), Ok(()));
}

#[test]
fn bad_default_for_boolean_field() {
    let r = record_with_field(name("boolean"), Some(JsonValue::String(s("yadda"))));
    assert_eq!(r.is_valid(), fails(ErrorCode::FieldDefaultTypeMismatch));
}

#[test]
fn ok_default_for_boolean_field() {
    let r = record_with_field(name("boolean"), Some(JsonValue::Bool(true)));
    assert_eq!(r.is_valid(), Ok(()));
    let r = record_with_field(name("boolean"), Some(JsonValue::Bool(false)));
    assert_eq!(r.is_valid(), Ok(()));
}

#[test]
fn bad_default_for_long_field() {
    let r = record_with_field(name("long"), Some(JsonValue::String(s("yadda"))));
    assert_eq!(r.is_valid(), fails(ErrorCode::FieldDefaultTypeMismatch));
}

#[test]
fn ok_default_for_long_field() {
    let r = record_with_field(name("long"), Some(JsonValue::U64(1_000_000_000)));
    assert_eq!(r.is_valid(), Ok(()));
}

#[test]
fn bad_default_for_float_field() {
    let r = record_with_field(name("float"), Some(JsonValue::String(s("yadda"))));
    assert_eq!(r.is_valid(), fails(ErrorCode::FieldDefaultTypeMismatch));
    let r = record_with_field(name("double"), Some(JsonValue::U64(1)));
    assert_eq!(r.is_valid(), fails(ErrorCode::FieldDefaultTypeMismatch));
}

#[test]
fn ok_default_for_float_field() {
    let r = record_with_field(name("float"), Some(float(1.1)));
    assert_eq!(r.is_valid(), Ok(()));
    let r = record_with_field(name("double"), Some(float(-0.0)));
    assert_eq!(r.is_valid(), Ok(()));
}

#[test]
fn bad_default_for_bytes_field() {
    let r = record_with_field(name("bytes"), Some(float(1.1)));
    assert_eq!(r.is_valid(), fails(ErrorCode::FieldDefaultTypeMismatch));
}

#[test]
fn ok_default_for_bytes_field() {
    let r = record_with_field(name("bytes"), Some(JsonValue::String(s("\\u00FF"))));
    assert_eq!(r.is_valid(), Ok(()));
}

#[test]
fn named_type_admits_any_default() {
    let r = record_with_field(name("LongList"), Some(JsonValue::String(s("blah"))));
    assert_eq!(r.is_valid(), Ok(()));
    let r = record_with_field(name("LongList"), Some(float(1.1)));
    assert_eq!(r.is_valid(), Ok(()));
    let r = record_with_field(name("LongList"), Some(JsonValue::Null));
    assert_eq!(r.is_valid(), Ok(()));
}

#[test]
fn type_given_as_an_object_admits_no_default() {
    let inner = RecordBuilder::new()
        .name(s("bar"))
        .fields(|fab| fab.push(|fb| fb.name(s("yadda")).field_type(name("string"))))
        .unwrap();
    let r = record_with_field(inner.clone(), Some(JsonValue::String(s("broken"))));
    assert_eq!(r.is_valid(), fails(ErrorCode::FieldDefaultTypeMismatch));
    let r = record_with_field(inner.clone(), Some(json(r#"{"yadda":"blah"}"#)));
    assert_eq!(r.is_valid(), fails(ErrorCode::FieldDefaultTypeMismatch));
    let r = record_with_field(inner, None);
    assert_eq!(r.is_valid(), Ok(()));
}

#[test]
fn bad_default_for_union_type_field() {
    let u = Schema::Union(vec![name("null"), name("string")]);
    let r = record_with_field(u, Some(float(1.1)));
    assert_eq!(r.is_valid(), fails(ErrorCode::FieldDefaultTypeMismatch));
}

#[test]
fn ok_default_for_union_type_field() {
    let u = Schema::Union(vec![name("null"), name("string")]);
    let r = record_with_field(u, Some(JsonValue::Null));
    assert_eq!(r.is_valid(), Ok(()));
}

#[test]
fn default_is_held_against_the_first_member_only() {
    let u = Schema::Union(vec![name("null"), name("string")]);
    let r = record_with_field(u, Some(JsonValue::String(s("x"))));
    assert_eq!(r.is_valid(), fails(ErrorCode::FieldDefaultTypeMismatch));
    let u = Schema::Union(vec![name("string"), name("null")]);
    let r = record_with_field(u, Some(JsonValue::String(s("x"))));
    assert_eq!(r.is_valid(), Ok(()));
}

#[test]
fn default_rules_for_odd_types() {
    let with_default = json(r#"{"default":1}"#);
    let without = json(r#"{"name":"x"}"#);
    assert_eq!(is_valid_field_default(&without, &json("7")), Ok(()));
    assert_eq!(is_valid_field_default(&with_default, &json("7")), fails(ErrorCode::NotValidType));
    assert_eq!(is_valid_field_default(&with_default, &json("null")), fails(ErrorCode::NotValidType));
    assert_eq!(
        is_valid_field_default(&with_default, &json("[]")),
        fails(ErrorCode::FieldDefaultTypeMismatch)
    );
    assert_eq!(
        is_valid_field_default(&with_default, &json(r#"[["int"]]"#)),
        fails(ErrorCode::CannotNestArrays)
    );
    assert_eq!(is_valid_field_default(&with_default, &json("[7]")), fails(ErrorCode::NotValidType));
    assert_eq!(
        is_valid_field_default(&with_default, &json(r#"[{"type":"int"}]"#)),
        fails(ErrorCode::FieldDefaultTypeMismatch)
    );
    assert_eq!(is_valid_field_default(&with_default, &json(r#"["int","string"]"#)), Ok(()));
    assert_eq!(is_valid_field_default(&with_default, &json(r#""long""#)), Ok(()));
}

#[test]
fn defaults_by_name_of_the_type() {
    let text = JsonValue::String(s("x"));
    assert!(does_type_name_match_def_value("string", &text));
    assert!(does_type_name_match_def_value("bytes", &text));
    assert!(!does_type_name_match_def_value("int", &text));
    assert!(does_type_name_match_def_value("int", &JsonValue::U64(1)));
    assert!(does_type_name_match_def_value("long", &JsonValue::I64(-1)));
    assert!(!does_type_name_match_def_value("long", &float(1.5)));
    assert!(does_type_name_match_def_value("float", &float(1.5)));
    assert!(does_type_name_match_def_value("double", &float(1.5)));
    assert!(!does_type_name_match_def_value("double", &JsonValue::U64(1)));
    assert!(does_type_name_match_def_value("boolean", &JsonValue::Bool(false)));
    assert!(!does_type_name_match_def_value("boolean", &JsonValue::Null));
    assert!(does_type_name_match_def_value("null", &JsonValue::Null));
    assert!(!does_type_name_match_def_value("null", &JsonValue::Bool(false)));
    assert!(does_type_name_match_def_value("Other", &JsonValue::Array(vec![])));
}

#[test]
fn cannot_have_two_array_types_in_union_type_field() {
    let a1 = ArrayBuilder::new().items(name("int")).unwrap();
    let a2 = ArrayBuilder::new().items(name("string")).unwrap();
    let r = record_with_field(Schema::Union(vec![a1, a2]), None);
    assert_eq!(r.is_valid(), fails(ErrorCode::FieldTooManyElementsOfSameType));
}

#[test]
fn cannot_have_two_map_types_in_union_type_field() {
    let a1 = MapBuilder::new().values(name("int")).unwrap();
    let a2 = MapBuilder::new().values(name("string")).unwrap();
    let r = record_with_field(Schema::Union(vec![a1, a2]), None);
    assert_eq!(r.is_valid(), fails(ErrorCode::FieldTooManyElementsOfSameType));
}

#[test]
fn one_array_one_map_in_union_type_field() {
    let a1 = MapBuilder::new().values(name("int")).unwrap();
    let a2 = ArrayBuilder::new().items(name("string")).unwrap();
    let r = record_with_field(Schema::Union(vec![a1, a2]), None);
    assert_eq!(r.is_valid(), Ok(()));
}

#[test]
fn field_types() {
    assert_eq!(is_valid_field_type(&json(r#""int""#)), Ok(()));
    assert_eq!(is_valid_field_type(&json(r#""x.Y""#)), Ok(()));
    assert_eq!(is_valid_field_type(&json(r#""9""#)), fails(ErrorCode::NotWellFormedName));
    assert_eq!(is_valid_field_type(&json("9")), fails(ErrorCode::UnknownFieldType));
    assert_eq!(is_valid_field_type(&json("null")), fails(ErrorCode::UnknownFieldType));
    assert_eq!(is_valid_field_type(&json("true")), fails(ErrorCode::UnknownFieldType));
    assert_eq!(is_valid_field_type(&json("[]")), Ok(()));
    assert_eq!(is_valid_field_type(&json(r#"["int",["string"]]"#)), fails(ErrorCode::CannotNestArrays));
    assert_eq!(is_valid_field_type(&json(r#"["int",7]"#)), fails(ErrorCode::UnknownFieldType));
    assert_eq!(is_valid_field_type(&json(r#"["int",{"type":"array"}]"#)), fails(ErrorCode::ExpectedItemsAttribute));
    assert_eq!(is_valid_field_type(&json(r#"{"type":"map","values":"int"}"#)), Ok(()));
    assert_eq!(is_valid_field_type(&json(r#"{"name":"x"}"#)), fails(ErrorCode::ExpectedTypeAttribute));
}

#[test]
fn a_bad_member_comes_before_the_count() {
    let text = r#"[{"type":"array","items":"int"},{"type":"array","items":"int"},"9"]"#;
    assert_eq!(is_valid_field_type(&json(text)), fails(ErrorCode::NotWellFormedName));
}

#[test]
fn objects_need_a_type() {
    assert_eq!(valid(r#"{"name":"foo"}"#), fails(ErrorCode::ExpectedTypeAttribute));
    assert_eq!(valid(r#"{"type":7}"#), fails(ErrorCode::ExpectedTypeAttribute));
    assert_eq!(valid("{}"), fails(ErrorCode::ExpectedTypeAttribute));
    assert_eq!(Schema::Object(JsonValue::Null).is_valid(), fails(ErrorCode::ExpectedTypeAttribute));
    assert_eq!(is_valid_schema_object(&json("[1]")), fails(ErrorCode::ExpectedTypeAttribute));
}

#[test]
fn object_with_the_name_of_a_type() {
    assert_eq!(valid(r#"{"type":"string"}"#), Ok(()));
    assert_eq!(valid(r#"{"type":"x.Named"}"#), Ok(()));
    assert_eq!(valid(r#"{"type":"enum"}"#), Ok(()));
    assert_eq!(valid(r#"{"type":"fixed"}"#), Ok(()));
    assert_eq!(valid(r#"{"type":"not a name"}"#), fails(ErrorCode::NotValidComplexType));
    assert_eq!(valid(r#"{"type":""}"#), fails(ErrorCode::NotValidComplexType));
}

#[test]
fn arrays_need_items() {
    assert_eq!(ArrayBuilder::new().unwrap().is_valid(), fails(ErrorCode::ExpectedItemsAttribute));
    assert_eq!(valid(r#"{"type":"array","items":"string"}"#), Ok(()));
    assert_eq!(valid(r#"{"type":"array","items":{"type":"string"}}"#), Ok(()));
    assert_eq!(valid(r#"{"type":"array","items":"9"}"#), fails(ErrorCode::NotWellFormedName));
    assert_eq!(valid(r#"{"type":"array","items":7}"#), fails(ErrorCode::NotValidArrayItemsType));
    assert_eq!(valid(r#"{"type":"array","items":["int"]}"#), fails(ErrorCode::NotValidArrayItemsType));
    assert_eq!(
        valid(r#"{"type":"array","items":{"type":"array"}}"#),
        fails(ErrorCode::ExpectedItemsAttribute)
    );
    assert_eq!(is_valid_array(&json(r#"{"items":"int"}"#)), Ok(()));
    assert_eq!(is_valid_array(&json(r#"{"values":"int"}"#)), fails(ErrorCode::ExpectedItemsAttribute));
}

#[test]
fn maps_need_values() {
    assert_eq!(MapBuilder::new().unwrap().is_valid(), fails(ErrorCode::ExpectedValuesAttribute));
    assert_eq!(valid(r#"{"type":"map","values":"string"}"#), Ok(()));
    assert_eq!(valid(r#"{"type":"map","values":{"type":"map","values":"int"}}"#), Ok(()));
    assert_eq!(valid(r#"{"type":"map","values":null}"#), fails(ErrorCode::NotValidArrayItemsType));
    assert_eq!(valid(r#"{"type":"map","items":"int"}"#), fails(ErrorCode::ExpectedValuesAttribute));
    assert_eq!(is_valid_map(&json(r#"{"values":"int"}"#)), Ok(()));
    assert_eq!(is_valid_map(&json(r#"{"items":"int"}"#)), fails(ErrorCode::ExpectedValuesAttribute));
}

#[test]
fn the_parts_of_the_check_can_be_called_alone() {
    assert_eq!(is_valid_schema_string("int"), Ok(()));
    assert_eq!(is_valid_schema_string("a.b"), Ok(()));
    assert_eq!(is_valid_schema_string("a..b"), fails(ErrorCode::NotWellFormedName));
    assert_eq!(is_valid_schema_union(&vec![name("int"), name("string")]), Ok(()));
    assert_eq!(is_valid_schema_union(&vec![Schema::Null]), fails(ErrorCode::Unknown));
    let record = json(r#"{"name":"foo","fields":[]}"#);
    assert_eq!(is_valid_schema_record(&record), Ok(()));
    let fields = vec![json(r#"{"name":"a","type":"int","default":1}"#)];
    assert_eq!(is_valid_schema_fields(&fields, None), Ok(()));
    assert_eq!(is_valid_schema_fields(&vec![], None), Ok(()));
    assert_eq!(
        is_valid_schema_field(&json(r#"{"name":"a","type":"int","default":"1"}"#), None),
        fails(ErrorCode::FieldDefaultTypeMismatch)
    );
    let built = FieldBuilder::new().name(s("a")).field_type(name("int")).unwrap();
    assert_eq!(is_valid_schema_field(&built, Some(&s("x"))), Ok(()));
}

#[test]
fn the_last_of_two_members_of_one_name_counts() {
    let twice = Schema::Object(JsonValue::Object(vec![
        (s("type"), JsonValue::String(s("9"))),
        (s("type"), JsonValue::String(s("string"))),
    ]));
    assert_eq!(twice.is_valid(), Ok(()));
    assert_eq!(twice.to_string(), "{\"type\":\"string\"}");
    assert_eq!(twice.is_complex_type("string"), true);
}
