//! The JSON library behind the schemas: `serde_json` reads and writes the
//! text, and its values are turned into the library's own and back.
//!
//! What is stated here of `serde_json` is taken on trust. The conversions
//! between its values and `JsonValue` are proved from those statements.

use vstd::prelude::*;
use crate::schema::error::{JsonErrorKind, JsonFailure};
use crate::schema::json::{
    contents_of,
    last_index_of,
    lemma_array_content,
    lemma_member_is_found,
    lemma_members_lookup,
    lemma_members_push,
    members_of,
    no_members,
    Json,
    JsonFloat,
    JsonValue,
};

verus! {

/// `serde_json::Value`, a JSON document as `serde_json` keeps it.
#[verifier::external_type_specification]
#[verifier::external_body]
pub struct ExJsonDocument(serde_json::Value);

/// `serde_json::Map`, the members of a JSON object as `serde_json` keeps them.
#[verifier::external_type_specification]
#[verifier::external_body]
#[verifier::reject_recursive_types(K)]
#[verifier::reject_recursive_types(V)]
pub struct ExJsonMembers<K, V>(serde_json::Map<K, V>);

/// `serde_json::Number`, a JSON number as `serde_json` keeps it.
#[verifier::external_type_specification]
#[verifier::external_body]
pub struct ExJsonNumber(serde_json::Number);

/// The content of a `serde_json::Number`: `Int` where it holds a whole
/// number, `Float`, by the bits of the double, where it holds a double.
pub uninterp spec fn json_number(number: serde_json::Number) -> Json;

/// The content of a `serde_json::Value`: `Null`, `Bool` and `String` as they
/// stand; a `Number` by `json_number`; an `Array` item by item; an `Object`
/// by `json_members` of its map.
pub uninterp spec fn json_tree(value: serde_json::Value) -> Json;

/// The content of a `serde_json::Map`: the content of the value under each
/// key.
pub uninterp spec fn json_members(map: serde_json::Map<String, serde_json::Value>) -> Map<
    Seq<char>,
    Json,
>;

/// What `serde_json::from_str` makes of a text when it reads a
/// `serde_json::Value`: the content of the value, or the failure.
pub uninterp spec fn json_read(text: Seq<char>) -> Result<Json, JsonFailure>;

/// What `serde_json::to_string` makes of a `serde_json::Value` of the given
/// content: the text, or `None` where it fails.
pub uninterp spec fn json_written(tree: Json) -> Option<Seq<char>>;

/// `serde_json::Value::as_bool`: the boolean of a `Bool`, `None` for anything
/// else.
pub assume_specification[ serde_json::Value::as_bool ](value: &serde_json::Value) -> (r: Option<
    bool,
>)
    ensures
        r == (match json_tree(*value) {
            Json::Bool(b) => Some(b),
            _ => None,
        }),
;

/// `serde_json::Value::as_u64`: the number where it is a whole number from 0
/// to `u64::MAX`, `None` for anything else.
pub assume_specification[ serde_json::Value::as_u64 ](value: &serde_json::Value) -> (r: Option<
    u64,
>)
    ensures
        r == (match json_tree(*value) {
            Json::Int(n) => if 0 <= n <= u64::MAX {
                Some(n as u64)
            } else {
                None
            },
            _ => None,
        }),
;

/// `serde_json::Value::as_i64`: the number where it is a whole number from
/// `i64::MIN` to `i64::MAX`, `None` for anything else. A whole number that
/// `serde_json` holds lies between `i64::MIN` and `u64::MAX`.
pub assume_specification[ serde_json::Value::as_i64 ](value: &serde_json::Value) -> (r: Option<
    i64,
>)
    ensures
        match json_tree(*value) {
            Json::Int(n) => i64::MIN <= n <= u64::MAX && r == (if n <= i64::MAX {
                Some(n as i64)
            } else {
                None
            }),
            _ => r is None,
        },
;

/// `serde_json::Value::as_str`: the text of a `String`, `None` for anything
/// else.
pub assume_specification[ serde_json::Value::as_str ](value: &serde_json::Value) -> (r: Option<
    &str,
>)
    ensures
        match r {
            Some(text) => json_tree(*value) == Json::String(text@),
            None => !(json_tree(*value) is String),
        },
;

/// `serde_json::Value::as_array`: the items of an `Array`, `None` for
/// anything else.
pub assume_specification[ serde_json::Value::as_array ](value: &serde_json::Value) -> (r: Option<
    &Vec<serde_json::Value>,
>)
    ensures
        match r {
            Some(items) => json_tree(*value) == Json::Array(
                Seq::new(items@.len(), |i: int| json_tree(items@[i])),
            ),
            None => !(json_tree(*value) is Array),
        },
;

/// `serde_json::Value::as_object`: the map of an `Object`, `None` for
/// anything else.
pub assume_specification[ serde_json::Value::as_object ](value: &serde_json::Value) -> (r: Option<
    &serde_json::Map<String, serde_json::Value>,
>)
    ensures
        match r {
            Some(map) => json_tree(*value) == Json::Object(json_members(*map)),
            None => !(json_tree(*value) is Object),
        },
;

/// `serde_json::Map::new`: a map without members.
#[verifier::external_body]
fn new_members() -> (r: serde_json::Map<String, serde_json::Value>)
    ensures
        json_members(r) == no_members(),
{
    serde_json::Map::new()
}

/// `serde_json::Map::insert`: the value stands under the key afterwards,
/// whether or not the key was there before; the other members stay.
#[verifier::external_body]
fn insert_member(
    map: &mut serde_json::Map<String, serde_json::Value>,
    key: String,
    value: serde_json::Value,
)
    ensures
        json_members(*final(map)) == json_members(*old(map)).insert(key@, json_tree(value)),
{
    map.insert(key, value);
}

/// `serde_json::Value::as_number`: the number of a `Number`, `None` for
/// anything else.
pub assume_specification[ serde_json::Value::as_number ](value: &serde_json::Value) -> (r: Option<
    &serde_json::Number,
>)
    ensures
        match r {
            Some(number) => json_tree(*value) == json_number(*number),
            None => !(json_tree(*value) is Int) && !(json_tree(*value) is Float),
        },
;

/// `serde_json::Number::is_f64`: whether the number holds a double; where it
/// does not, it holds a whole number.
pub assume_specification[ serde_json::Number::is_f64 ](number: &serde_json::Number) -> (r: bool)
    ensures
        r == (json_number(*number) is Float),
        !r ==> json_number(*number) is Int,
;

/// `Clone::clone` of a `serde_json::Number`: a number of the same content.
#[verifier::external_body]
pub(crate) fn copy_number(number: &serde_json::Number) -> (r: serde_json::Number)
    ensures
        json_number(r) == json_number(*number),
{
    number.clone()
}

/// `serde_json::Value::Number`.
#[verifier::external_body]
fn json_of_number(number: serde_json::Number) -> (r: serde_json::Value)
    ensures
        json_tree(r) == json_number(number),
{
    serde_json::Value::Number(number)
}

/// `serde_json::Map::iter`, collected: each member of the map once, as its
/// key and its value.
#[verifier::external_body]
fn map_entries(map: &serde_json::Map<String, serde_json::Value>) -> (r: Vec<
    (&String, &serde_json::Value),
>)
    ensures
        forall|i: int|
            0 <= i < r@.len() ==> json_members(*map).contains_key((#[trigger] r@[i]).0@)
                && json_members(*map)[r@[i].0@] == json_tree(*r@[i].1),
        forall|key: Seq<char>| #[trigger]
            json_members(*map).contains_key(key) ==> exists|i: int|
                0 <= i < r@.len() && (#[trigger] r@[i]).0@ == key,
{
    map.iter().collect()
}

/// `serde_json::Value::Null`.
#[verifier::external_body]
fn json_null() -> (r: serde_json::Value)
    ensures
        json_tree(r) == Json::Null,
{
    serde_json::Value::Null
}

/// `serde_json::Value::Bool`.
#[verifier::external_body]
fn json_bool(b: bool) -> (r: serde_json::Value)
    ensures
        json_tree(r) == Json::Bool(b),
{
    serde_json::Value::Bool(b)
}

/// `serde_json::Value::from` on a `u64`: the whole number.
#[verifier::external_body]
fn json_u64(n: u64) -> (r: serde_json::Value)
    ensures
        json_tree(r) == Json::Int(n as int),
{
    serde_json::Value::from(n)
}

/// `serde_json::Value::from` on an `i64`: the whole number.
#[verifier::external_body]
fn json_i64(n: i64) -> (r: serde_json::Value)
    ensures
        json_tree(r) == Json::Int(n as int),
{
    serde_json::Value::from(n)
}

/// `serde_json::Value::String`.
#[verifier::external_body]
fn json_string(text: String) -> (r: serde_json::Value)
    ensures
        json_tree(r) == Json::String(text@),
{
    serde_json::Value::String(text)
}

/// `serde_json::Value::Array`.
#[verifier::external_body]
fn json_array(items: Vec<serde_json::Value>) -> (r: serde_json::Value)
    ensures
        json_tree(r) == Json::Array(Seq::new(items@.len(), |i: int| json_tree(items@[i]))),
{
    serde_json::Value::Array(items)
}

/// `serde_json::Value::Object`.
#[verifier::external_body]
fn json_object(map: serde_json::Map<String, serde_json::Value>) -> (r: serde_json::Value)
    ensures
        json_tree(r) == Json::Object(json_members(map)),
{
    serde_json::Value::Object(map)
}

/// `serde_json::from_str` at the type `serde_json::Value`: the value read, or
/// the class of the failure (`serde_json::Error::classify`) with its line and
/// its column (`line`, `column`). The same text gives the same result.
#[verifier::external_body]
fn read_document(text: &str) -> (r: Result<serde_json::Value, JsonFailure>)
    ensures
        match r {
            Ok(value) => json_read(text@) == Ok::<Json, JsonFailure>(json_tree(value)),
            Err(failure) => json_read(text@) == Err::<Json, JsonFailure>(failure),
        },
{
    match serde_json::from_str::<serde_json::Value>(text) {
        Ok(value) => Ok(value),
        Err(e) => Err(JsonFailure {
            kind: match e.classify() {
                serde_json::error::Category::Io => JsonErrorKind::Io,
                serde_json::error::Category::Syntax => JsonErrorKind::Syntax,
                serde_json::error::Category::Data => JsonErrorKind::Data,
                serde_json::error::Category::Eof => JsonErrorKind::Eof,
            },
            line: e.line(),
            column: e.column(),
        }),
    }
}

/// `serde_json::to_string` on a `serde_json::Value`: the text, or `None`
/// where it fails. Values of the same content give the same text.
#[verifier::external_body]
fn write_document(value: &serde_json::Value) -> (r: Option<String>)
    ensures
        match r {
            Some(text) => json_written(json_tree(*value)) == Some(text@),
            None => json_written(json_tree(*value)) is None,
        },
{
    serde_json::to_string(value).ok()
}

/// Turns a value of the JSON library into one of this library, with the same
/// content.
pub fn value_from_json(value: &serde_json::Value) -> (r: JsonValue)
    ensures
        r@ == json_tree(*value),
    decreases json_tree(*value),
{
    if let Some(b) = value.as_bool() {
        return JsonValue::Bool(b);
    }
    if let Some(n) = value.as_u64() {
        return JsonValue::U64(n);
    }
    if let Some(n) = value.as_i64() {
        return JsonValue::I64(n);
    }
    if let Some(number) = value.as_number() {
        match JsonFloat::new(copy_number(number)) {
            Ok(float) => {
                return JsonValue::F64(float);
            },
            Err(_) => {},
        }
    }
    if let Some(text) = value.as_str() {
        return JsonValue::String(text.to_owned());
    }
    if let Some(items) = value.as_array() {
        let ghost all = json_tree(*value)->Array_0;
        let mut out: Vec<JsonValue> = Vec::new();
        let mut i: usize = 0;
        while i < items.len()
            invariant
                json_tree(*value) == Json::Array(all),
                all == Seq::new(items@.len(), |i: int| json_tree(items@[i])),
                i <= items.len(),
                out@.len() == i,
                forall|k: int| 0 <= k < i ==> (#[trigger] out@[k])@ == all[k],
            decreases items.len() - i,
        {
            proof {
                assert(all[i as int] == json_tree(items@[i as int]));
                assert(decreases_to!(json_tree(*value) => json_tree(*value)->Array_0));
                assert(decreases_to!(all => all[i as int]));
            }
            let item = value_from_json(&items[i]);
            out.push(item);
            i += 1;
        }
        proof {
            lemma_array_content(out);
            assert(contents_of(out@) =~= all);
        }
        return JsonValue::Array(out);
    }
    if let Some(map) = value.as_object() {
        let ghost members = json_members(*map);
        let entries = map_entries(map);
        let mut out: Vec<(String, JsonValue)> = Vec::new();
        let mut i: usize = 0;
        while i < entries.len()
            invariant
                json_tree(*value) == Json::Object(members),
                members == json_members(*map),
                forall|k: int|
                    0 <= k < entries@.len() ==> members.contains_key((#[trigger] entries@[k]).0@)
                        && members[entries@[k].0@] == json_tree(*entries@[k].1),
                forall|key: Seq<char>| #[trigger]
                    members.contains_key(key) ==> exists|k: int|
                        0 <= k < entries@.len() && (#[trigger] entries@[k]).0@ == key,
                i <= entries.len(),
                out@.len() == i,
                forall|k: int|
                    0 <= k < i ==> (#[trigger] out@[k]).0@ == entries@[k].0@ && out@[k].1@
                        == members[entries@[k].0@],
            decreases entries.len() - i,
        {
            proof {
                let key = entries@[i as int].0@;
                assert(members.contains_key(key));
                assert(members[key] == json_tree(*entries@[i as int].1));
                assert(decreases_to!(json_tree(*value) => json_tree(*value)->Object_0));
                assert(decreases_to!(json_tree(*value) => members[key]));
            }
            let key = entries[i].0.clone();
            let member = value_from_json(entries[i].1);
            out.push((key, member));
            i += 1;
        }
        proof {
            let built = members_of(out@);
            assert forall|key: Seq<char>| #[trigger]
                built.dom().contains(key) <==> members.dom().contains(key) by {
                lemma_members_lookup(out@, key);
                let last = last_index_of(out@, key);
                if last >= 0 {
                    assert(out@[last].0@ == entries@[last].0@);
                    assert(members.contains_key(entries@[last].0@));
                }
                if members.contains_key(key) {
                    let k = choose|k: int| 0 <= k < entries@.len() && (#[trigger] entries@[k]).0@ == key;
                    assert(out@[k].0@ == key);
                    lemma_member_is_found(out@, k);
                }
            }
            assert forall|key: Seq<char>| #[trigger] built.dom().contains(key) implies built[key]
                == members[key] by {
                lemma_members_lookup(out@, key);
                let last = last_index_of(out@, key);
                assert(out@[last].0@ == entries@[last].0@);
            }
            assert(built.dom() =~= members.dom());
            assert(members_of(out@) =~= members);
        }
        return JsonValue::Object(out);
    }
    JsonValue::Null
}

/// Turns a value of this library into one of the JSON library, with the same
/// content.
pub fn json_from_value(value: &JsonValue) -> (r: serde_json::Value)
    ensures
        json_tree(r) == value@,
    decreases *value,
{
    match value {
        JsonValue::Null => json_null(),
        JsonValue::Bool(b) => json_bool(*b),
        JsonValue::I64(n) => json_i64(*n),
        JsonValue::U64(n) => json_u64(*n),
        JsonValue::F64(float) => json_of_number(copy_number(float.number())),
        JsonValue::String(text) => json_string(text.clone()),
        JsonValue::Array(items) => {
            let mut out: Vec<serde_json::Value> = Vec::new();
            let mut i: usize = 0;
            while i < items.len()
                invariant
                    *value == JsonValue::Array(*items),
                    i <= items.len(),
                    out@.len() == i,
                    forall|k: int| 0 <= k < i ==> json_tree(#[trigger] out@[k]) == items@[k]@,
                decreases items.len() - i,
            {
                proof {
                    assert(decreases_to!(*value => value->Array_0));
                    assert(value->Array_0 == *items);
                    assert(decreases_to!(*items => items[i as int]));
                }
                let item = json_from_value(&items[i]);
                out.push(item);
                i += 1;
            }
            proof {
                lemma_array_content(*items);
                assert(Seq::new(out@.len(), |i: int| json_tree(out@[i])) =~= contents_of(items@));
            }
            json_array(out)
        },
        JsonValue::Object(entries) => {
            let mut map = new_members();
            let mut i: usize = 0;
            assert(entries@.take(0) == Seq::<(String, JsonValue)>::empty());
            while i < entries.len()
                invariant
                    *value == JsonValue::Object(*entries),
                    i <= entries.len(),
                    json_members(map) == members_of(entries@.take(i as int)),
                decreases entries.len() - i,
            {
                proof {
                    assert(decreases_to!(*value => value->Object_0));
                    assert(value->Object_0 == *entries);
                    assert(decreases_to!(*entries => entries[i as int]));
                    assert(decreases_to!(entries[i as int] => entries[i as int].1));
                    lemma_members_push(
                        entries@.take(i as int),
                        entries@[i as int].0,
                        entries@[i as int].1,
                    );
                    assert(entries@.take(i + 1) == entries@.take(i as int).push(entries@[i as int]));
                }
                let key = entries[i].0.clone();
                let member = json_from_value(&entries[i].1);
                insert_member(&mut map, key, member);
                i += 1;
            }
            assert(entries@.take(entries@.len() as int) == entries@);
            json_object(map)
        },
    }
}

/// Reads a JSON document from a text. The content of the value is what
/// `serde_json` reads from the text.
pub fn parse_json(text: &str) -> (r: Result<JsonValue, JsonFailure>)
    ensures
        match r {
            Ok(value) => json_read(text@) == Ok::<Json, JsonFailure>(value@),
            Err(failure) => json_read(text@) == Err::<Json, JsonFailure>(failure),
        },
{
    match read_document(text) {
        Ok(document) => Ok(value_from_json(&document)),
        Err(failure) => Err(failure),
    }
}

/// Writes a JSON document as text, in the way of `serde_json`; `None` where
/// `serde_json` fails.
pub fn encode_json(value: &JsonValue) -> (r: Option<String>)
    ensures
        match r {
            Some(text) => json_written(value@) == Some(text@),
            None => json_written(value@) is None,
        },
{
    let document = json_from_value(value);
    write_document(&document)
}

} // verus!
