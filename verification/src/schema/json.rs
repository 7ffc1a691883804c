//! JSON documents: the mathematical content of one, and the value that holds
//! it in memory.

use vstd::prelude::*;
use crate::schema::adapter::{copy_number, json_number};
use crate::schema::text::str_eq;

verus! {

/// The content of a JSON document.
///
/// A whole number is an `Int`, whatever its sign. A number with a fraction or
/// an exponent is a `Float`, kept as the 64 bits of its IEEE 754 double. The
/// members of an object form a map: a name occurs once, and no order is kept.
pub enum Json {
    Null,
    Bool(bool),
    Int(int),
    Float(u64),
    String(Seq<char>),
    Array(Seq<Json>),
    Object(Map<Seq<char>, Json>),
}

/// The kinds of JSON document.
#[derive(Clone, Copy, Debug, PartialEq, Eq, Structural)]
pub enum JsonKind {
    Null,
    Bool,
    Int,
    Float,
    String,
    Array,
    Object,
}

impl Json {
    /// The kind of the document.
    pub open spec fn kind(self) -> JsonKind {
        match self {
            Json::Null => JsonKind::Null,
            Json::Bool(_) => JsonKind::Bool,
            Json::Int(_) => JsonKind::Int,
            Json::Float(_) => JsonKind::Float,
            Json::String(_) => JsonKind::String,
            Json::Array(_) => JsonKind::Array,
            Json::Object(_) => JsonKind::Object,
        }
    }

    /// The member `key` of an object; `None` for a missing member and for
    /// anything that is no object.
    pub open spec fn get(self, key: Seq<char>) -> Option<Json> {
        match self {
            Json::Object(members) => if members.contains_key(key) {
                Some(members[key])
            } else {
                None
            },
            _ => None,
        }
    }

    /// The member `key` where it is a string.
    pub open spec fn get_string(self, key: Seq<char>) -> Option<Seq<char>> {
        match self.get(key) {
            Some(Json::String(s)) => Some(s),
            _ => None,
        }
    }

    /// The member `key` where it is an array.
    pub open spec fn get_array(self, key: Seq<char>) -> Option<Seq<Json>> {
        match self.get(key) {
            Some(Json::Array(items)) => Some(items),
            _ => None,
        }
    }

    /// The strings among the items, in their order.
    pub open spec fn strings_of(items: Seq<Json>) -> Seq<Seq<char>>
        decreases items.len(),
    {
        if items.len() == 0 {
            Seq::empty()
        } else {
            match items.last() {
                Json::String(s) => Json::strings_of(items.drop_last()).push(s),
                _ => Json::strings_of(items.drop_last()),
            }
        }
    }
}

/// A JSON number with a fraction or an exponent: a double, kept as the JSON
/// library holds it. Only that library looks inside.
#[derive(Debug, PartialEq)]
pub struct JsonFloat {
    number: serde_json::Number,
}

impl JsonFloat {
    /// The number inside is a double, never a whole number.
    #[verifier::type_invariant]
    spec fn holds_a_double(self) -> bool {
        json_number(self.number) is Float
    }

    /// The 64 bits of the double.
    pub closed spec fn bits(self) -> u64 {
        json_number(self.number)->Float_0
    }

    /// Takes a number of the JSON library where it is a double; a whole
    /// number is handed back as it came.
    pub fn new(number: serde_json::Number) -> (r: Result<JsonFloat, serde_json::Number>)
        ensures
            match r {
                Ok(float) => json_number(number) == Json::Float(float.bits()),
                Err(same) => json_number(number) is Int && same == number,
            },
    {
        if number.is_f64() {
            Ok(JsonFloat { number })
        } else {
            Err(number)
        }
    }

    /// The number as the JSON library holds it.
    pub fn number(&self) -> (r: &serde_json::Number)
        ensures
            json_number(*r) == Json::Float(self.bits()),
    {
        proof {
            use_type_invariant(self);
        }
        &self.number
    }

    /// A copy of the same double.
    pub fn copy(&self) -> (r: JsonFloat)
        ensures
            r.bits() == self.bits(),
    {
        proof {
            use_type_invariant(self);
        }
        JsonFloat { number: copy_number(&self.number) }
    }
}

/// A JSON document in memory.
///
/// The members of an object are kept as a list. Where a name occurs more than
/// once, the last occurrence is the member and the others are dead. A whole
/// number is kept as an integer; any other number is kept as the JSON library
/// holds it, and only that library looks inside.
#[derive(Debug, PartialEq)]
pub enum JsonValue {
    Null,
    Bool(bool),
    I64(i64),
    U64(u64),
    /// A number with a fraction or an exponent.
    F64(JsonFloat),
    String(String),
    Array(Vec<JsonValue>),
    Object(Vec<(String, JsonValue)>),
}

/// The members of an object without members.
pub open spec fn no_members() -> Map<Seq<char>, Json> {
    Map::empty()
}

/// The map that a list of members stands for: a later member replaces an
/// earlier one of the same name.
pub open spec fn members_of(entries: Seq<(String, JsonValue)>) -> Map<Seq<char>, Json>
    decreases entries, 0int,
{
    if entries.len() == 0 {
        Map::empty()
    } else {
        members_of(entries.drop_last()).insert(entries.last().0@, content_of(entries.last().1))
    }
}

/// The content of a value.
pub open spec fn content_of(value: JsonValue) -> Json
    decreases value, 1int,
{
    match value {
        JsonValue::Null => Json::Null,
        JsonValue::Bool(b) => Json::Bool(b),
        JsonValue::I64(n) => Json::Int(n as int),
        JsonValue::U64(n) => Json::Int(n as int),
        JsonValue::F64(float) => Json::Float(float.bits()),
        JsonValue::String(s) => Json::String(s@),
        JsonValue::Array(items) => Json::Array(
            Seq::new(
                items@.len(),
                |i: int|
                    if 0 <= i < items@.len() {
                        content_of(items@[i])
                    } else {
                        Json::Null
                    },
            ),
        ),
        JsonValue::Object(entries) => Json::Object(members_of(entries@)),
    }
}

/// The contents of a list of values, item by item.
pub open spec fn contents_of(items: Seq<JsonValue>) -> Seq<Json> {
    Seq::new(items.len(), |i: int| content_of(items[i]))
}

impl View for JsonValue {
    type V = Json;

    open spec fn view(&self) -> Json {
        content_of(*self)
    }
}

/// The content of an array is the contents of its items.
pub proof fn lemma_array_content(items: Vec<JsonValue>)
    ensures
        JsonValue::Array(items)@ == Json::Array(contents_of(items@)),
{
    assert(JsonValue::Array(items)@->Array_0 =~= contents_of(items@));
}

/// Adding a member at the end of the list puts it into the map.
pub proof fn lemma_members_push(entries: Seq<(String, JsonValue)>, key: String, value: JsonValue)
    ensures
        members_of(entries.push((key, value))) == members_of(entries).insert(key@, value@),
{
    assert(entries.push((key, value)).drop_last() == entries);
}

/// The place of the last member of the list with the name `key`, or -1.
pub open spec fn last_index_of(entries: Seq<(String, JsonValue)>, key: Seq<char>) -> int
    decreases entries.len(),
{
    if entries.len() == 0 {
        -1
    } else if entries.last().0@ == key {
        entries.len() - 1
    } else {
        last_index_of(entries.drop_last(), key)
    }
}

/// A name is in the map exactly when some member of the list has it, and the
/// map then holds the content of the last such member.
pub proof fn lemma_members_lookup(entries: Seq<(String, JsonValue)>, key: Seq<char>)
    ensures
        -1 <= last_index_of(entries, key) < entries.len(),
        last_index_of(entries, key) < 0 ==> !members_of(entries).contains_key(key),
        last_index_of(entries, key) >= 0 ==> {
            &&& entries[last_index_of(entries, key)].0@ == key
            &&& members_of(entries).contains_key(key)
            &&& members_of(entries)[key] == entries[last_index_of(entries, key)].1@
        },
    decreases entries.len(),
{
    if entries.len() > 0 {
        lemma_members_lookup(entries.drop_last(), key);
    }
}

/// A member of the list has its name in the map.
pub proof fn lemma_member_is_found(entries: Seq<(String, JsonValue)>, i: int)
    requires
        0 <= i < entries.len(),
    ensures
        last_index_of(entries, entries[i].0@) >= i,
    decreases entries.len(),
{
    if i < entries.len() - 1 && entries.last().0@ != entries[i].0@ {
        lemma_member_is_found(entries.drop_last(), i);
    }
}

impl JsonValue {
    /// The kind of the document.
    pub fn kind(&self) -> (r: JsonKind)
        ensures
            r == self@.kind(),
    {
        match self {
            JsonValue::Null => JsonKind::Null,
            JsonValue::Bool(_) => JsonKind::Bool,
            JsonValue::I64(_) => JsonKind::Int,
            JsonValue::U64(_) => JsonKind::Int,
            JsonValue::F64(_) => JsonKind::Float,
            JsonValue::String(_) => JsonKind::String,
            JsonValue::Array(_) => JsonKind::Array,
            JsonValue::Object(_) => JsonKind::Object,
        }
    }

    /// The member `key` of an object; `None` for a missing member and for
    /// anything that is no object.
    pub fn find(&self, key: &str) -> (r: Option<&JsonValue>)
        ensures
            match r {
                Some(v) => self@.get(key@) == Some(v@),
                None => self@.get(key@) is None,
            },
    {
        match self {
            JsonValue::Object(entries) => {
                let mut i: usize = entries.len();
                proof {
                    lemma_members_lookup(entries@, key@);
                    assert(entries@.take(entries@.len() as int) == entries@);
                }
                while i > 0
                    invariant
                        *self == JsonValue::Object(*entries),
                        i <= entries.len(),
                        last_index_of(entries@, key@) == last_index_of(entries@.take(i as int), key@),
                    decreases i,
                {
                    i -= 1;
                    proof {
                        lemma_members_lookup(entries@, key@);
                        assert(entries@.take(i + 1).drop_last() == entries@.take(i as int));
                    }
                    if str_eq(entries[i].0.as_str(), key) {
                        return Some(&entries[i].1);
                    }
                }
                None
            },
            _ => None,
        }
    }

    /// The member `key` where it is a string.
    pub fn find_string(&self, key: &str) -> (r: Option<&String>)
        ensures
            match r {
                Some(s) => self@.get_string(key@) == Some(s@),
                None => self@.get_string(key@) is None,
            },
    {
        match self.find(key) {
            Some(JsonValue::String(s)) => Some(s),
            _ => None,
        }
    }

    /// The member `key` where it is an array.
    pub fn find_array(&self, key: &str) -> (r: Option<&Vec<JsonValue>>)
        ensures
            match r {
                Some(items) => self@.get_array(key@) == Some(contents_of(items@)),
                None => self@.get_array(key@) is None,
            },
    {
        match self.find(key) {
            Some(JsonValue::Array(items)) => {
                proof {
                    lemma_array_content(*items);
                }
                Some(items)
            },
            _ => None,
        }
    }

    /// An object of one member.
    pub fn singleton(key: String, value: JsonValue) -> (r: JsonValue)
        ensures
            r@ == Json::Object(Map::<Seq<char>, Json>::empty().insert(key@, value@)),
    {
        let mut entries: Vec<(String, JsonValue)> = Vec::new();
        proof {
            lemma_members_push(entries@, key, value);
        }
        entries.push((key, value));
        JsonValue::Object(entries)
    }
}

impl JsonValue {
    /// A copy with the same content, made item by item.
    pub fn copy(&self) -> (r: JsonValue)
        ensures
            r@ == self@,
        decreases *self,
    {
        match self {
            JsonValue::Null => JsonValue::Null,
            JsonValue::Bool(b) => JsonValue::Bool(*b),
            JsonValue::I64(n) => JsonValue::I64(*n),
            JsonValue::U64(n) => JsonValue::U64(*n),
            JsonValue::F64(float) => JsonValue::F64(float.copy()),
            JsonValue::String(s) => JsonValue::String(s.clone()),
            JsonValue::Array(items) => {
                let mut out: Vec<JsonValue> = Vec::new();
                let mut i: usize = 0;
                while i < items.len()
                    invariant
                        *self == JsonValue::Array(*items),
                        i <= items.len(),
                        out@.len() == i,
                        forall|k: int| 0 <= k < i ==> (#[trigger] out@[k])@ == items@[k]@,
                    decreases items.len() - i,
                {
                    proof {
                        assert(decreases_to!(*items => items[i as int]));
                        assert(decreases_to!(*self => self->Array_0));
                        assert(self->Array_0 == *items);
                    }
                    let item = items[i].copy();
                    out.push(item);
                    i += 1;
                }
                proof {
                    lemma_array_content(*items);
                    lemma_array_content(out);
                    assert(contents_of(out@) =~= contents_of(items@));
                }
                JsonValue::Array(out)
            },
            JsonValue::Object(entries) => {
                let mut out: Vec<(String, JsonValue)> = Vec::new();
                let mut i: usize = 0;
                while i < entries.len()
                    invariant
                        *self == JsonValue::Object(*entries),
                        i <= entries.len(),
                        members_of(out@) == members_of(entries@.take(i as int)),
                    decreases entries.len() - i,
                {
                    let key = entries[i].0.clone();
                    proof {
                        assert(decreases_to!(*entries => entries[i as int]));
                        assert(decreases_to!(*self => self->Object_0));
                        assert(self->Object_0 == *entries);
                        assert(decreases_to!(entries[i as int] => entries[i as int].1));
                    }
                    let value = entries[i].1.copy();
                    proof {
                        lemma_members_push(out@, key, value);
                        lemma_members_push(entries@.take(i as int), entries@[i as int].0, entries@[i as int].1);
                        assert(entries@.take(i + 1) == entries@.take(i as int).push(entries@[i as int]));
                    }
                    out.push((key, value));
                    i += 1;
                }
                assert(entries@.take(entries@.len() as int) == entries@);
                JsonValue::Object(out)
            },
        }
    }
}

impl Clone for JsonValue {
    fn clone(&self) -> (r: JsonValue)
        ensures
            r@ == self@,
    {
        self.copy()
    }
}

} // verus!
