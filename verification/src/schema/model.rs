//! The schema itself and what can be read off it.

use vstd::prelude::*;
use crate::schema::error::{Error, ErrorCode};
use crate::schema::json::{contents_of, lemma_array_content, Json, JsonValue};
use crate::schema::name::{declared_name, is_well_formed_name, qualify, well_formed_name};
use crate::schema::text::str_eq;

verus! {

/// Whether a name is one of the eight primitive type names.
pub open spec fn is_primitive_name(name: Seq<char>) -> bool {
    ||| name == "null"@
    ||| name == "boolean"@
    ||| name == "int"@
    ||| name == "long"@
    ||| name == "float"@
    ||| name == "double"@
    ||| name == "bytes"@
    ||| name == "string"@
}

/// The content of a schema.
pub enum SchemaModel {
    /// The marker of an absent schema.
    Null,
    /// A bare name: a primitive type, or a named type declared elsewhere.
    Name(Seq<char>),
    /// The members of a union, in their order.
    Union(Seq<SchemaModel>),
    /// A complex type, as the JSON document that describes it.
    Object(Json),
}

impl SchemaModel {
    /// The `type` attribute of a complex type.
    pub open spec fn tag(self) -> Option<Seq<char>> {
        match self {
            SchemaModel::Object(json) => json.get_string("type"@),
            _ => None,
        }
    }

    /// Whether this is a complex type with the given `type` attribute.
    pub open spec fn has_tag(self, tag: Seq<char>) -> bool {
        self.tag() == Some(tag)
    }

    /// The attribute `key` of a complex type where it is a string.
    pub open spec fn string_attribute(self, key: Seq<char>) -> Option<Seq<char>> {
        match self {
            SchemaModel::Object(json) => json.get_string(key),
            _ => None,
        }
    }

    /// The attribute `key` of a complex type where it is an array.
    pub open spec fn array_attribute(self, key: Seq<char>) -> Option<Seq<Json>> {
        match self {
            SchemaModel::Object(json) => json.get_array(key),
            _ => None,
        }
    }

    /// The strings of the attribute `key` of a complex type where it is an
    /// array; what is no string in it is passed over.
    pub open spec fn strings_attribute(self, key: Seq<char>) -> Option<Seq<Seq<char>>> {
        match self.array_attribute(key) {
            Some(items) => Some(Json::strings_of(items)),
            None => None,
        }
    }

    /// The `size` attribute of a complex type where it is a whole number
    /// that is not negative.
    pub open spec fn size(self) -> Option<u64> {
        match self {
            SchemaModel::Object(json) => match json.get("size"@) {
                Some(Json::Int(n)) => if 0 <= n <= u64::MAX {
                    Some(n as u64)
                } else {
                    None
                },
                _ => None,
            },
            _ => None,
        }
    }

    /// The schema as a JSON document in the long form: a bare name `n`
    /// becomes the object with the one attribute `type` of value `n`, the
    /// marker of an absent schema the one of value `null`, a union the array
    /// of its members in the long form.
    pub open spec fn long_form(self) -> Json
        decreases self,
    {
        match self {
            SchemaModel::Null => Json::Object(
                Map::<Seq<char>, Json>::empty().insert("type"@, Json::String("null"@)),
            ),
            SchemaModel::Name(name) => Json::Object(
                Map::<Seq<char>, Json>::empty().insert("type"@, Json::String(name)),
            ),
            SchemaModel::Union(members) => Json::Array(
                Seq::new(
                    members.len(),
                    |i: int|
                        if 0 <= i < members.len() {
                            members[i].long_form()
                        } else {
                            Json::Null
                        },
                ),
            ),
            SchemaModel::Object(json) => json,
        }
    }

    /// The schema as a JSON document in the short form: a bare name is a
    /// string, the marker of an absent schema the string `null`, a union the
    /// array of its members in the short form.
    pub open spec fn short_form(self) -> Json
        decreases self,
    {
        match self {
            SchemaModel::Null => Json::String("null"@),
            SchemaModel::Name(name) => Json::String(name),
            SchemaModel::Union(members) => Json::Array(
                Seq::new(
                    members.len(),
                    |i: int|
                        if 0 <= i < members.len() {
                            members[i].short_form()
                        } else {
                            Json::Null
                        },
                ),
            ),
            SchemaModel::Object(json) => json,
        }
    }

    /// The full name of a complex type, where it has one that is well formed.
    pub open spec fn fullname(self) -> Result<Seq<char>, Error> {
        match self {
            SchemaModel::Object(json) => if well_formed_name(declared_name(json)) {
                Ok(declared_name(json))
            } else {
                Err(Error::rule(ErrorCode::NotWellFormedName))
            },
            _ => Err(Error::rule(ErrorCode::NotValidComplexType)),
        }
    }
}

/// A schema.
#[derive(Debug, PartialEq)]
pub enum Schema {
    /// The marker of an absent schema. It is not the primitive type `null`.
    Null,
    /// A bare name: a primitive type, or a named type declared elsewhere.
    String(String),
    /// A union of schemas.
    Union(Vec<Schema>),
    /// A complex type (record, enum, array, map, fixed), as the JSON document
    /// that describes it.
    Object(JsonValue),
}

/// The order in which the values of a field sort.
#[derive(Clone, Copy, Debug, PartialEq, Eq, Structural)]
pub enum FieldSortOrder {
    Ascending,
    Descending,
    Ignore,
}

impl FieldSortOrder {
    /// The word that stands for the order in a schema.
    pub open spec fn text(self) -> Seq<char> {
        match self {
            FieldSortOrder::Ascending => "ascending"@,
            FieldSortOrder::Descending => "descending"@,
            FieldSortOrder::Ignore => "ignore"@,
        }
    }

    /// The word that stands for the order in a schema.
    pub fn to_string(&self) -> (r: String)
        ensures
            r@ == self.text(),
    {
        match *self {
            FieldSortOrder::Ascending => "ascending".to_owned(),
            FieldSortOrder::Descending => "descending".to_owned(),
            FieldSortOrder::Ignore => "ignore".to_owned(),
        }
    }
}

impl<'a> From<&'a FieldSortOrder> for String {
    fn from(order: &'a FieldSortOrder) -> (r: String)
        ensures
            r@ == order.text(),
    {
        order.to_string()
    }
}

impl<'a> vstd::std_specs::convert::FromSpecImpl<&'a FieldSortOrder> for String {
    open spec fn obeys_from_spec() -> bool {
        false
    }

    open spec fn from_spec(order: &'a FieldSortOrder) -> String {
        arbitrary()
    }
}

/// The content of a schema.
pub open spec fn model_of(schema: Schema) -> SchemaModel
    decreases schema,
{
    match schema {
        Schema::Null => SchemaModel::Null,
        Schema::String(name) => SchemaModel::Name(name@),
        Schema::Union(members) => SchemaModel::Union(
            Seq::new(
                members@.len(),
                |i: int|
                    if 0 <= i < members@.len() {
                        model_of(members@[i])
                    } else {
                        SchemaModel::Null
                    },
            ),
        ),
        Schema::Object(value) => SchemaModel::Object(value@),
    }
}

/// The contents of a list of schemas, item by item.
pub open spec fn models_of(members: Seq<Schema>) -> Seq<SchemaModel> {
    Seq::new(members.len(), |i: int| model_of(members[i]))
}

impl View for Schema {
    type V = SchemaModel;

    open spec fn view(&self) -> SchemaModel {
        model_of(*self)
    }
}

/// The content of a union is the contents of its members.
pub proof fn lemma_union_content(members: Vec<Schema>)
    ensures
        Schema::Union(members)@ == SchemaModel::Union(models_of(members@)),
{
    assert(Schema::Union(members)@->Union_0 =~= models_of(members@));
}

/// The texts of a list of strings, item by item.
pub open spec fn texts_of(strings: Seq<String>) -> Seq<Seq<char>> {
    Seq::new(strings.len(), |i: int| strings[i]@)
}

/// Whether a name is one of the eight primitive type names.
pub fn is_primitive_type_name(name: &str) -> (r: bool)
    ensures
        r == is_primitive_name(name@),
{
    str_eq(name, "null") || str_eq(name, "boolean") || str_eq(name, "int") || str_eq(name, "long")
        || str_eq(name, "float") || str_eq(name, "double") || str_eq(name, "bytes") || str_eq(
        name,
        "string",
    )
}

/// The strings among the items of an array, in their order.
pub fn strings_in(items: &Vec<JsonValue>) -> (r: Vec<String>)
    ensures
        texts_of(r@) == Json::strings_of(contents_of(items@)),
{
    let mut out: Vec<String> = Vec::new();
    let mut i: usize = 0;
    assert(contents_of(items@).take(0) == Seq::<Json>::empty());
    assert(texts_of(out@) == Seq::<Seq<char>>::empty());
    while i < items.len()
        invariant
            i <= items.len(),
            texts_of(out@) == Json::strings_of(contents_of(items@).take(i as int)),
        decreases items.len() - i,
    {
        proof {
            let all = contents_of(items@);
            assert(all.take(i + 1).drop_last() == all.take(i as int));
            assert(all.take(i + 1).last() == items@[i as int]@);
        }
        match &items[i] {
            JsonValue::String(s) => {
                let copy = s.clone();
                proof {
                    assert(texts_of(out@.push(copy)) == texts_of(out@).push(s@));
                }
                out.push(copy);
            },
            _ => {},
        }
        i += 1;
    }
    assert(contents_of(items@).take(items@.len() as int) == contents_of(items@));
    out
}

impl Schema {
    /// Whether the schema is the bare name of a primitive type.
    pub fn is_primitive(&self) -> (r: bool)
        ensures
            r == (self@ matches SchemaModel::Name(name) && is_primitive_name(name)),
    {
        match self {
            Schema::String(name) => is_primitive_type_name(name.as_str()),
            _ => false,
        }
    }

    /// Whether the schema is a complex type.
    pub fn is_object(&self) -> (r: bool)
        ensures
            r == (self@ is Object),
    {
        match self {
            Schema::Object(_) => true,
            _ => false,
        }
    }

    /// Whether the schema is the marker of an absent schema.
    pub fn is_null(&self) -> (r: bool)
        ensures
            r == (self@ is Null),
    {
        match self {
            Schema::Null => true,
            _ => false,
        }
    }

    /// Whether the schema is a union.
    pub fn is_union(&self) -> (r: bool)
        ensures
            r == (self@ is Union),
    {
        match self {
            Schema::Union(_) => true,
            _ => false,
        }
    }

    /// Whether the schema is a complex type whose `type` attribute is `array`.
    pub fn is_array(&self) -> (r: bool)
        ensures
            r == self@.has_tag("array"@),
    {
        self.is_complex_type("array")
    }

    /// Whether the schema is a complex type whose `type` attribute is `record`.
    pub fn is_record(&self) -> (r: bool)
        ensures
            r == self@.has_tag("record"@),
    {
        self.is_complex_type("record")
    }

    /// Whether the schema is a complex type whose `type` attribute is `enum`.
    pub fn is_enum(&self) -> (r: bool)
        ensures
            r == self@.has_tag("enum"@),
    {
        self.is_complex_type("enum")
    }

    /// Whether the schema is a complex type whose `type` attribute is `map`.
    pub fn is_map(&self) -> (r: bool)
        ensures
            r == self@.has_tag("map"@),
    {
        self.is_complex_type("map")
    }

    /// Whether the schema is a complex type whose `type` attribute is `fixed`.
    pub fn is_fixed(&self) -> (r: bool)
        ensures
            r == self@.has_tag("fixed"@),
    {
        self.is_complex_type("fixed")
    }

    /// Whether the schema is a complex type with the given `type` attribute.
    pub fn is_complex_type(&self, wanted: &str) -> (r: bool)
        ensures
            r == self@.has_tag(wanted@),
    {
        match self {
            Schema::Object(value) => match value.find_string("type") {
                Some(tag) => str_eq(tag.as_str(), wanted),
                None => false,
            },
            _ => false,
        }
    }

    /// The schema as a complex type: a complex type is copied, anything else
    /// is written in the long form.
    pub fn as_object(&self) -> (r: Option<Schema>)
        ensures
            r matches Some(object) && object@ == SchemaModel::Object(self@.long_form()),
    {
        Some(Schema::Object(self.to_long_form()))
    }

    /// The schema as a JSON document in the long form.
    pub fn to_long_form(&self) -> (r: JsonValue)
        ensures
            r@ == self@.long_form(),
        decreases *self,
    {
        match self {
            Schema::Object(value) => value.copy(),
            Schema::String(name) => JsonValue::singleton(
                "type".to_owned(),
                JsonValue::String(name.clone()),
            ),
            Schema::Null => JsonValue::singleton(
                "type".to_owned(),
                JsonValue::String("null".to_owned()),
            ),
            Schema::Union(members) => {
                let mut out: Vec<JsonValue> = Vec::new();
                let mut i: usize = 0;
                while i < members.len()
                    invariant
                        *self == Schema::Union(*members),
                        i <= members.len(),
                        out@.len() == i,
                        forall|k: int|
                            0 <= k < i ==> (#[trigger] out@[k])@ == model_of(members@[k]).long_form(),
                    decreases members.len() - i,
                {
                    proof {
                        assert(decreases_to!(*self => self->Union_0));
                        assert(self->Union_0 == *members);
                        assert(decreases_to!(*members => members[i as int]));
                    }
                    let item = members[i].to_long_form();
                    out.push(item);
                    i += 1;
                }
                proof {
                    lemma_array_content(out);
                    assert(contents_of(out@) =~= self@.long_form()->Array_0);
                }
                JsonValue::Array(out)
            },
        }
    }

    /// The schema as a JSON document in the short form.
    pub fn to_short_form(&self) -> (r: JsonValue)
        ensures
            r@ == self@.short_form(),
        decreases *self,
    {
        match self {
            Schema::Object(value) => value.copy(),
            Schema::String(name) => JsonValue::String(name.clone()),
            Schema::Null => JsonValue::String("null".to_owned()),
            Schema::Union(members) => {
                let mut out: Vec<JsonValue> = Vec::new();
                let mut i: usize = 0;
                while i < members.len()
                    invariant
                        *self == Schema::Union(*members),
                        i <= members.len(),
                        out@.len() == i,
                        forall|k: int|
                            0 <= k < i ==> (#[trigger] out@[k])@ == model_of(
                                members@[k],
                            ).short_form(),
                    decreases members.len() - i,
                {
                    proof {
                        assert(decreases_to!(*self => self->Union_0));
                        assert(self->Union_0 == *members);
                        assert(decreases_to!(*members => members[i as int]));
                    }
                    let item = members[i].to_short_form();
                    out.push(item);
                    i += 1;
                }
                proof {
                    lemma_array_content(out);
                    assert(contents_of(out@) =~= self@.short_form()->Array_0);
                }
                JsonValue::Array(out)
            },
        }
    }

    /// The full name of a complex type: its `name`, inside its `namespace`
    /// unless the name holds a dot. Anything but a complex type has none.
    pub fn fullname(&self) -> (r: Result<String, Error>)
        ensures
            match r {
                Ok(name) => self@.fullname() == Ok::<Seq<char>, Error>(name@),
                Err(e) => self@.fullname() == Err::<Seq<char>, Error>(e),
            },
    {
        match self {
            Schema::Object(value) => {
                let name = object_fullname(value);
                if is_well_formed_name(name.as_str()) {
                    Ok(name)
                } else {
                    Err(Error::from_code(ErrorCode::NotWellFormedName))
                }
            },
            _ => Err(Error::from_code(ErrorCode::NotValidComplexType)),
        }
    }

    /// The `doc` attribute of a complex type.
    pub fn doc(&self) -> (r: Option<&String>)
        ensures
            match r {
                Some(doc) => self@.string_attribute("doc"@) == Some(doc@),
                None => self@.string_attribute("doc"@) is None,
            },
    {
        match self {
            Schema::Object(value) => value.find_string("doc"),
            _ => None,
        }
    }

    /// The strings of the `aliases` attribute of a complex type.
    pub fn aliases(&self) -> (r: Option<Vec<String>>)
        ensures
            match r {
                Some(names) => self@.strings_attribute("aliases"@) == Some(texts_of(names@)),
                None => self@.strings_attribute("aliases"@) is None,
            },
    {
        match self {
            Schema::Object(value) => match value.find_array("aliases") {
                Some(items) => Some(strings_in(items)),
                None => None,
            },
            _ => None,
        }
    }

    /// The strings of the `symbols` attribute of a complex type.
    pub fn symbols(&self) -> (r: Option<Vec<String>>)
        ensures
            match r {
                Some(names) => self@.strings_attribute("symbols"@) == Some(texts_of(names@)),
                None => self@.strings_attribute("symbols"@) is None,
            },
    {
        match self {
            Schema::Object(value) => match value.find_array("symbols") {
                Some(items) => Some(strings_in(items)),
                None => None,
            },
            _ => None,
        }
    }

    /// The fields of a record, as they stand in its `fields` attribute.
    pub fn fields(&self) -> (r: Option<&Vec<JsonValue>>)
        ensures
            match r {
                Some(fields) => self@.array_attribute("fields"@) == Some(contents_of(fields@)),
                None => self@.array_attribute("fields"@) is None,
            },
    {
        match self {
            Schema::Object(value) => value.find_array("fields"),
            _ => None,
        }
    }

    /// The `size` attribute of a complex type.
    pub fn size(&self) -> (r: Option<u64>)
        ensures
            r == self@.size(),
    {
        match self {
            Schema::Object(value) => match value.find("size") {
                Some(JsonValue::U64(n)) => Some(*n),
                Some(JsonValue::I64(n)) => if *n >= 0 {
                    Some(*n as u64)
                } else {
                    None
                },
                _ => None,
            },
            _ => None,
        }
    }
}

/// The full name that an object declares.
pub fn object_fullname(value: &JsonValue) -> (r: String)
    ensures
        r@ == declared_name(value@),
{
    match value.find_string("name") {
        Some(name) => match value.find_string("namespace") {
            Some(namespace) => qualify(namespace.as_str(), name.as_str()),
            None => name.clone(),
        },
        None => String::new(),
    }
}

impl Clone for Schema {
    fn clone(&self) -> (r: Schema)
        ensures
            r@ == self@,
    {
        self.copy()
    }
}

impl Schema {
    /// A copy with the same content, made member by member.
    pub fn copy(&self) -> (r: Schema)
        ensures
            r@ == self@,
        decreases *self,
    {
        match self {
            Schema::Null => Schema::Null,
            Schema::String(name) => Schema::String(name.clone()),
            Schema::Object(value) => Schema::Object(value.copy()),
            Schema::Union(members) => {
                let mut out: Vec<Schema> = Vec::new();
                let mut i: usize = 0;
                while i < members.len()
                    invariant
                        *self == Schema::Union(*members),
                        i <= members.len(),
                        out@.len() == i,
                        forall|k: int| 0 <= k < i ==> (#[trigger] out@[k])@ == members@[k]@,
                    decreases members.len() - i,
                {
                    proof {
                        assert(decreases_to!(*self => self->Union_0));
                        assert(self->Union_0 == *members);
                        assert(decreases_to!(*members => members[i as int]));
                    }
                    let item = members[i].copy();
                    out.push(item);
                    i += 1;
                }
                proof {
                    lemma_union_content(out);
                    lemma_union_content(*members);
                    assert(models_of(out@) =~= models_of(members@));
                }
                Schema::Union(out)
            },
        }
    }
}

} // verus!
