use ravro::schema::error::{Error, ErrorCode};
use ravro::schema::{from_str, to_string, JsonValue, Schema};

fn name(text: &str) -> Schema {
    Schema::String(String::from(text))
}

fn simple_object() -> Schema {
    from_str(r#"{"type":"string"}"#).unwrap()
}

const PRIMITIVES: [&str; 8] = ["null", "boolean", "int", "long", "float", "double", "bytes", "string"];

#[test]
fn the_eight_names_are_primitive() {
    for p in PRIMITIVES {
        assert!(name(p).is_primitive(), "{}", p);
    }
}

#[test]
fn is_not_primitive_string() {
    assert_eq!(name("bogus").is_primitive(), false);
}

#[test]
fn union_is_not_primitive() {
    assert_eq!(Schema::Union(vec![]).is_primitive(), false);
}

#[test]
fn object_is_not_primitive() {
    assert_eq!(simple_object().is_primitive(), false);
}

#[test]
fn null_is_not_primitive() {
    assert_eq!(Schema::Null.is_primitive(), false);
}

#[test]
fn primitives_are_written_between_quotes() {
    for p in PRIMITIVES {
        assert_eq!(to_string(&name(p)).unwrap(), format!("\"{}\"", p));
    }
}

#[test]
fn primitives_are_read_from_quoted_text() {
    for p in PRIMITIVES {
        assert_eq!(from_str(&format!("\"{}\"", p)).unwrap(), name(p));
    }
}

#[test]
fn primitives_survive_the_round_trip() {
    for p in PRIMITIVES {
        let written = to_string(&name(p)).unwrap();
        assert_eq!(from_str(&written).unwrap(), name(p));
    }
}

#[test]
fn int_is_read_and_written_back() {
    let schema = from_str("\"int\"").unwrap();
    assert_eq!(schema, name("int"));
    assert_eq!(to_string(&schema).unwrap(), "\"int\"");
}

#[test]
fn white_space_round_the_text_is_ignored() {
    assert_eq!(from_str("  \t\"int\"\n ").unwrap(), name("int"));
    assert_eq!(from_str("\u{a0}\u{2003}\"long\"\u{3000}").unwrap(), name("long"));
}

#[test]
fn white_space_inside_the_quotes_stays() {
    assert_eq!(from_str("\" int \"").unwrap(), name(" int "));
}

#[test]
fn every_quote_at_the_ends_comes_off() {
    assert_eq!(from_str("\"\"foo\"\"").unwrap(), name("foo"));
    assert_eq!(from_str("\"").unwrap(), name(""));
    assert_eq!(from_str("\"\"").unwrap(), name(""));
    assert_eq!(from_str("\"a\"b\"").unwrap(), name("a\"b"));
}

#[test]
fn text_without_quotes_is_no_primitive() {
    let expected = Err(Error::SyntaxError(ErrorCode::NotValidPrimitiveType, 1, 0));
    assert_eq!(from_str("int"), expected);
    assert_eq!(from_str(""), expected);
    assert_eq!(from_str("   "), expected);
    assert_eq!(from_str("\"int"), expected);
    assert_eq!(from_str("int\""), expected);
    assert_eq!(from_str("12"), expected);
}

#[test]
fn null_marker_is_written_as_the_name_null() {
    assert_eq!(to_string(&Schema::Null).unwrap(), "\"null\"");
}

#[test]
fn the_name_null_is_never_read_as_the_marker() {
    let read = from_str(&to_string(&Schema::Null).unwrap()).unwrap();
    assert_eq!(read, name("null"));
    assert!(!read.is_null());
}

#[test]
fn primitive_name_is_valid() {
    assert!(name("null").is_valid().is_ok());
}

#[test]
fn good_name_is_valid() {
    assert!(name("foobar").is_valid().is_ok());
    assert!(name("x.y.Foo_1").is_valid().is_ok());
}

#[test]
fn bad_name_is_not_valid() {
    assert_eq!(
        name(";;foobar;;").is_valid(),
        Err(Error::SyntaxError(ErrorCode::NotWellFormedName, 0, 0))
    );
}

#[test]
fn null_marker_is_not_valid() {
    assert_eq!(Schema::Null.is_valid(), Err(Error::SyntaxError(ErrorCode::Unknown, 0, 0)));
}

#[test]
fn is_null() {
    assert!(Schema::Null.is_null());
}

#[test]
fn primitive_is_not_null() {
    assert_eq!(name("boolean").is_null(), false);
}

#[test]
fn union_is_not_null() {
    assert_eq!(Schema::Union(vec![]).is_null(), false);
}

#[test]
fn object_is_not_null() {
    assert_eq!(simple_object().is_null(), false);
}

#[test]
fn is_object() {
    assert!(simple_object().is_object());
    assert!(Schema::Object(JsonValue::Null).is_object());
}

#[test]
fn others_are_not_object() {
    assert_eq!(name("boolean").is_object(), false);
    assert_eq!(Schema::Union(vec![]).is_object(), false);
    assert_eq!(Schema::Null.is_object(), false);
}

#[test]
fn shown_text_is_the_written_text() {
    assert_eq!(name("int").to_string(), "\"int\"");
    assert_eq!(String::from(&name("int")), "\"int\"");
    assert_eq!(Schema::Null.to_string(), "\"null\"");
}
