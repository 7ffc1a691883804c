use ravro::schema::error::{Error, ErrorCode};
use ravro::schema::name::{check_name_segments, is_well_formed_name, name_char, name_start, qualify};

fn rejected() -> Result<String, Error> {
    Err(Error::SyntaxError(ErrorCode::NotWellFormedName, 0, 0))
}

fn checked(name: &str) -> Result<String, Error> {
    check_name_segments(String::from(name))
}

#[test]
fn plain_name_is_handed_back() {
    assert_eq!(checked("foo"), Ok(String::from("foo")));
}

#[test]
fn names_of_segments_are_handed_back_unchanged() {
    for name in ["a", "_", "A9", "x.y", "x.y.foo", "Yadda_.FooBar12_34.blah_blah_blah", "_1._2._3"] {
        assert_eq!(checked(name), Ok(String::from(name)), "{}", name);
    }
}

#[test]
fn name_starting_with_digit_is_rejected() {
    assert_eq!(checked("9foo"), rejected());
    assert_eq!(checked("x.9foo"), rejected());
    assert_eq!(checked("9.x"), rejected());
}

#[test]
fn name_with_other_characters_is_rejected() {
    for name in [";;foo;;", "a-b", "a b", "a.b c", "foo\n", "\u{e9}t\u{e9}", "a.\u{430}", "a/b", "a$"] {
        assert_eq!(checked(name), rejected(), "{:?}", name);
    }
}

#[test]
fn name_with_an_empty_segment_is_rejected() {
    for name in ["", ".", "..", ".foo", "foo.", "a..b"] {
        assert_eq!(checked(name), rejected(), "{:?}", name);
    }
}

#[test]
fn names_are_judged_as_the_pattern_judges_their_segments() {
    let pattern = regex::Regex::new(r#"^[A-Za-z_][A-Za-z0-9_]*$"#).unwrap();
    let alphabet = ['a', 'Z', '_', '0', '9', '.', '-', ' ', '\n', '\u{e9}'];
    let mut names = vec![String::new()];
    let mut last = vec![String::new()];
    for _ in 0..4 {
        let mut next = Vec::new();
        for name in &last {
            for c in alphabet {
                let mut longer = name.clone();
                longer.push(c);
                next.push(longer);
            }
        }
        names.extend(next.iter().cloned());
        last = next;
    }
    assert_eq!(names.len(), 11111);
    for name in names {
        let expected = name.split('.').all(|segment| pattern.is_match(segment));
        assert_eq!(is_well_formed_name(&name), expected, "{:?}", name);
    }
}

#[test]
fn characters_of_names() {
    for c in ['a', 'z', 'A', 'Z', '_'] {
        assert!(name_start(c) && name_char(c));
    }
    for c in ['0', '9'] {
        assert!(!name_start(c) && name_char(c));
    }
    for c in ['.', '-', ' ', '@', '[', '`', '{', '/', ':', '\u{e9}'] {
        assert!(!name_start(c) && !name_char(c));
    }
}

#[test]
fn a_name_with_a_dot_stands_for_itself() {
    assert_eq!(qualify("x.y", "foo"), "x.y.foo");
    assert_eq!(qualify("x.y", "a.foo"), "a.foo");
    assert_eq!(qualify("", "foo"), ".foo");
    assert_eq!(qualify("x", ""), "x.");
}
