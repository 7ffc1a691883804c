//! The rules that decide whether a schema is valid.
//!
//! Each rule is a function from the content of a schema, or of a part of one,
//! to `Ok` or to the first failure met when the parts are taken in their
//! order. The functions that run on values in memory return what the rules say.

use vstd::prelude::*;
use crate::schema::error::{Error, ErrorCode};
use crate::schema::json::{contents_of, lemma_array_content, Json, JsonKind, JsonValue};
use crate::schema::model::{
    is_primitive_name,
    is_primitive_type_name,
    lemma_union_content,
    models_of,
    Schema,
    SchemaModel,
};
use crate::schema::name::{declared_name, field_name, is_well_formed_name, qualify, well_formed_name};
use crate::schema::text::str_eq;

verus! {

/// The text of a namespace, where there is one.
pub open spec fn namespace_text(namespace: Option<&String>) -> Option<Seq<char>> {
    match namespace {
        Some(ns) => Some(ns@),
        None => None,
    }
}

/// The failure of a rule.
pub open spec fn failed(code: ErrorCode) -> Result<(), Error> {
    Err(Error::rule(code))
}

/// A bare name is valid when it names a primitive type, or is well formed and
/// so may name a type declared elsewhere.
pub open spec fn name_outcome(name: Seq<char>) -> Result<(), Error> {
    if is_primitive_name(name) || well_formed_name(name) {
        Ok(())
    } else {
        failed(ErrorCode::NotWellFormedName)
    }
}

/// How often `wanted` occurs among the `type` attributes.
pub open spec fn occurrences(tags: Seq<Option<Seq<char>>>, wanted: Seq<char>) -> nat
    decreases tags.len(),
{
    if tags.len() == 0 {
        0
    } else {
        occurrences(tags.drop_last(), wanted) + if tags.last() == Some(wanted) {
            1nat
        } else {
            0nat
        }
    }
}

/// A union may hold one array and one map, not more of either.
pub open spec fn crowded(tags: Seq<Option<Seq<char>>>) -> bool {
    occurrences(tags, "array"@) > 1 || occurrences(tags, "map"@) > 1
}

/// The `type` attributes of the items of an array, item by item.
pub open spec fn item_tags(items: Seq<Json>) -> Seq<Option<Seq<char>>> {
    Seq::new(items.len(), |i: int| items[i].get_string("type"@))
}

/// The `type` attributes of the members of a union, member by member.
pub open spec fn member_tags(members: Seq<SchemaModel>) -> Seq<Option<Seq<char>>> {
    Seq::new(members.len(), |i: int| members[i].tag())
}

/// Whether a default value suits a field whose type is the bare name
/// `declared`. The name of a type declared elsewhere admits any value.
pub open spec fn default_matches(declared: Seq<char>, default: Json) -> bool {
    if declared == "string"@ || declared == "bytes"@ {
        default is String
    } else if declared == "int"@ || declared == "long"@ {
        default is Int
    } else if declared == "float"@ || declared == "double"@ {
        default is Float
    } else if declared == "boolean"@ {
        default is Bool
    } else if declared == "null"@ {
        default is Null
    } else {
        true
    }
}

/// The rule for the default value of a field, given the field's type. A field
/// without a default passes. A default is held against a bare name, or
/// against the first member of a union where that is a bare name; a type
/// given as an object admits no default.
pub open spec fn default_outcome(default: Option<Json>, declared: Json) -> Result<(), Error> {
    match default {
        None => Ok(()),
        Some(value) => match declared {
            Json::String(name) => if default_matches(name, value) {
                Ok(())
            } else {
                failed(ErrorCode::FieldDefaultTypeMismatch)
            },
            Json::Object(_) => failed(ErrorCode::FieldDefaultTypeMismatch),
            Json::Array(members) => if members.len() == 0 {
                failed(ErrorCode::FieldDefaultTypeMismatch)
            } else {
                match members[0] {
                    Json::Array(_) => failed(ErrorCode::CannotNestArrays),
                    Json::Object(_) => failed(ErrorCode::FieldDefaultTypeMismatch),
                    Json::String(name) => if default_matches(name, value) {
                        Ok(())
                    } else {
                        failed(ErrorCode::FieldDefaultTypeMismatch)
                    },
                    _ => failed(ErrorCode::NotValidType),
                }
            },
            _ => failed(ErrorCode::NotValidType),
        },
    }
}

/// The rule for the name of a field of a record with the namespace
/// `namespace`.
pub open spec fn field_name_outcome(field: Json, namespace: Option<Seq<char>>) -> Result<
    (),
    Error,
> {
    match field.get_string("name"@) {
        Some(name) => if well_formed_name(field_name(namespace, name)) {
            Ok(())
        } else {
            failed(ErrorCode::FieldNameNotWellFormed)
        },
        None => failed(ErrorCode::FieldNameNotWellFormed),
    }
}

/// The rule for a complex type.
pub open spec fn object_outcome(json: Json) -> Result<(), Error>
    decreases json, 2int,
{
    match json.get_string("type"@) {
        None => failed(ErrorCode::ExpectedTypeAttribute),
        Some(tag) => if tag == "record"@ {
            record_outcome(json)
        } else if tag == "array"@ {
            element_outcome(json, "items"@, ErrorCode::ExpectedItemsAttribute)
        } else if tag == "map"@ {
            element_outcome(json, "values"@, ErrorCode::ExpectedValuesAttribute)
        } else if name_outcome(tag) is Ok {
            Ok(())
        } else {
            failed(ErrorCode::NotValidComplexType)
        },
    }
}

/// The rule for the element type of an array (`items`) or of a map
/// (`values`): the attribute is there, and is a valid bare name or a valid
/// complex type.
pub open spec fn element_outcome(json: Json, key: Seq<char>, missing: ErrorCode) -> Result<
    (),
    Error,
>
    decreases json, 1int,
{
    match json.get(key) {
        None => failed(missing),
        Some(Json::String(name)) => name_outcome(name),
        Some(Json::Object(members)) => object_outcome(Json::Object(members)),
        Some(_) => failed(ErrorCode::NotValidArrayItemsType),
    }
}

/// The rule for a record: a well-formed full name, and an array of valid
/// fields.
pub open spec fn record_outcome(json: Json) -> Result<(), Error>
    decreases json, 1int,
{
    if !well_formed_name(declared_name(json)) {
        failed(ErrorCode::NotWellFormedName)
    } else {
        match json.get_array("fields"@) {
            None => failed(ErrorCode::ExpectedFieldDefinition),
            Some(fields) => fields_outcome(fields, json.get_string("namespace"@), fields.len()),
        }
    }
}

/// The rule for the first `n` fields of a record: the first failure among
/// them, in their order.
pub open spec fn fields_outcome(fields: Seq<Json>, namespace: Option<Seq<char>>, n: nat) -> Result<
    (),
    Error,
>
    decreases fields, n,
{
    if n == 0 || n > fields.len() {
        Ok(())
    } else {
        match fields_outcome(fields, namespace, (n - 1) as nat) {
            Err(e) => Err(e),
            Ok(_) => field_outcome(fields[n - 1], namespace),
        }
    }
}

/// The rule for one field: its name, then its type, then its default.
pub open spec fn field_outcome(field: Json, namespace: Option<Seq<char>>) -> Result<(), Error>
    decreases field, 3int,
{
    match field_name_outcome(field, namespace) {
        Err(e) => Err(e),
        Ok(_) => match field.get("type"@) {
            None => failed(ErrorCode::ExpectedFieldTypeAttribute),
            Some(declared) => match field_type_outcome(declared) {
                Err(e) => Err(e),
                Ok(_) => default_outcome(field.get("default"@), declared),
            },
        },
    }
}

/// The rule for the type of a field: a valid bare name, a valid complex type,
/// or a union written as an array.
pub open spec fn field_type_outcome(declared: Json) -> Result<(), Error>
    decreases declared, 3int,
{
    match declared {
        Json::String(name) => name_outcome(name),
        Json::Array(members) => match inline_members_outcome(members, members.len()) {
            Err(e) => Err(e),
            Ok(_) => if crowded(item_tags(members)) {
                failed(ErrorCode::FieldTooManyElementsOfSameType)
            } else {
                Ok(())
            },
        },
        Json::Object(_) => object_outcome(declared),
        _ => failed(ErrorCode::UnknownFieldType),
    }
}

/// The rule for the first `n` members of a union written as an array: the
/// first failure among them, in their order. A member that is an array
/// itself is a nested union, and fails.
pub open spec fn inline_members_outcome(members: Seq<Json>, n: nat) -> Result<(), Error>
    decreases members, n,
{
    if n == 0 || n > members.len() {
        Ok(())
    } else {
        match inline_members_outcome(members, (n - 1) as nat) {
            Err(e) => Err(e),
            Ok(_) => if members[n - 1] is Array {
                failed(ErrorCode::CannotNestArrays)
            } else {
                field_type_outcome(members[n - 1])
            },
        }
    }
}

/// The rule for a schema that is no union. As the member of a union, a union
/// fails.
pub open spec fn single_outcome(schema: SchemaModel) -> Result<(), Error> {
    match schema {
        SchemaModel::Null => failed(ErrorCode::Unknown),
        SchemaModel::Name(name) => name_outcome(name),
        SchemaModel::Union(_) => failed(ErrorCode::CannotNestArrays),
        SchemaModel::Object(json) => object_outcome(json),
    }
}

/// The rule for the first `n` members of a union: the first failure among
/// them, in their order.
pub open spec fn members_outcome(members: Seq<SchemaModel>, n: nat) -> Result<(), Error>
    decreases n,
{
    if n == 0 || n > members.len() {
        Ok(())
    } else {
        match members_outcome(members, (n - 1) as nat) {
            Err(e) => Err(e),
            Ok(_) => single_outcome(members[n - 1]),
        }
    }
}

/// The rule for a union: each member is valid and no union, and at most one
/// member is an array and at most one a map.
pub open spec fn union_outcome(members: Seq<SchemaModel>) -> Result<(), Error> {
    match members_outcome(members, members.len()) {
        Err(e) => Err(e),
        Ok(_) => if crowded(member_tags(members)) {
            failed(ErrorCode::FieldTooManyElementsOfSameType)
        } else {
            Ok(())
        },
    }
}

/// The rule for a schema: `Ok`, or the first failure.
pub open spec fn validate(schema: SchemaModel) -> Result<(), Error> {
    match schema {
        SchemaModel::Union(members) => union_outcome(members),
        _ => single_outcome(schema),
    }
}

/// Whether `result` is what validation makes of `schema`.
pub open spec fn is_outcome_of(schema: SchemaModel, result: Result<(), Error>) -> bool {
    result == validate(schema)
}

/// Validation is a function of the schema's content: two runs on one schema,
/// or on two schemas of the same content, end the same way.
pub proof fn lemma_validation_repeats(
    first: Schema,
    second: Schema,
    first_result: Result<(), Error>,
    second_result: Result<(), Error>,
)
    requires
        first@ == second@,
        is_outcome_of(first@, first_result),
        is_outcome_of(second@, second_result),
    ensures
        first_result == second_result,
{
}

/// A failure among the first fields is the failure of the whole list.
pub proof fn lemma_fields_failure_stays(
    fields: Seq<Json>,
    namespace: Option<Seq<char>>,
    i: nat,
    n: nat,
)
    requires
        i <= n <= fields.len(),
        fields_outcome(fields, namespace, i) is Err,
    ensures
        fields_outcome(fields, namespace, n) == fields_outcome(fields, namespace, i),
    decreases n,
{
    if i < n {
        lemma_fields_failure_stays(fields, namespace, i, (n - 1) as nat);
    }
}

/// A failure among the first members of a union written as an array is the
/// failure of the whole list.
pub proof fn lemma_inline_failure_stays(members: Seq<Json>, i: nat, n: nat)
    requires
        i <= n <= members.len(),
        inline_members_outcome(members, i) is Err,
    ensures
        inline_members_outcome(members, n) == inline_members_outcome(members, i),
    decreases n,
{
    if i < n {
        lemma_inline_failure_stays(members, i, (n - 1) as nat);
    }
}

/// A failure among the first members of a union is the failure of the whole
/// list.
pub proof fn lemma_members_failure_stays(members: Seq<SchemaModel>, i: nat, n: nat)
    requires
        i <= n <= members.len(),
        members_outcome(members, i) is Err,
    ensures
        members_outcome(members, n) == members_outcome(members, i),
    decreases n,
{
    if i < n {
        lemma_members_failure_stays(members, i, (n - 1) as nat);
    }
}

/// The count of a `type` attribute never falls as more members are counted.
pub proof fn lemma_occurrences_grow(tags: Seq<Option<Seq<char>>>, i: int, j: int, wanted: Seq<char>)
    requires
        0 <= i <= j <= tags.len(),
    ensures
        occurrences(tags.take(i), wanted) <= occurrences(tags.take(j), wanted),
    decreases j - i,
{
    if i < j {
        lemma_occurrences_step(tags, j - 1, wanted);
        lemma_occurrences_grow(tags, i, j - 1, wanted);
    }
}

/// Two members with the same `type` attribute, be it `array` or `map`, are
/// one too many: a union that holds two arrays, or two maps, is refused.
pub proof fn lemma_two_of_a_kind_crowd(tags: Seq<Option<Seq<char>>>, i: int, j: int)
    requires
        0 <= i < j < tags.len(),
        tags[i] == tags[j],
        tags[i] == Some("array"@) || tags[i] == Some("map"@),
    ensures
        crowded(tags),
{
    let wanted = tags[i]->Some_0;
    lemma_occurrences_step(tags, i, wanted);
    lemma_occurrences_grow(tags, i + 1, j, wanted);
    lemma_occurrences_step(tags, j, wanted);
    lemma_occurrences_grow(tags, j + 1, tags.len() as int, wanted);
    assert(tags.take(tags.len() as int) == tags);
}

/// A union of valid members that holds two arrays, or two maps, fails with
/// `FieldTooManyElementsOfSameType`, as the type of a field too.
pub proof fn lemma_crowded_union_fails(members: Seq<SchemaModel>, i: int, j: int)
    requires
        0 <= i < j < members.len(),
        members[i].tag() == members[j].tag(),
        members[i].has_tag("array"@) || members[i].has_tag("map"@),
        members_outcome(members, members.len()) is Ok,
    ensures
        validate(SchemaModel::Union(members)) == failed(ErrorCode::FieldTooManyElementsOfSameType),
{
    lemma_two_of_a_kind_crowd(member_tags(members), i, j);
}

/// The same for a union written as an array in the type of a field.
pub proof fn lemma_crowded_field_type_fails(members: Seq<Json>, i: int, j: int)
    requires
        0 <= i < j < members.len(),
        members[i].get_string("type"@) == members[j].get_string("type"@),
        members[i].get_string("type"@) == Some("array"@) || members[i].get_string("type"@) == Some(
            "map"@,
        ),
        inline_members_outcome(members, members.len()) is Ok,
    ensures
        field_type_outcome(Json::Array(members)) == failed(
            ErrorCode::FieldTooManyElementsOfSameType,
        ),
{
    lemma_two_of_a_kind_crowd(item_tags(members), i, j);
}

/// The default of a field whose type is a union is held against the first
/// member of the union alone.
pub proof fn lemma_default_looks_at_first_member(default: Json, members: Seq<Json>)
    requires
        members.len() > 0,
    ensures
        default_outcome(Some(default), Json::Array(members)) == default_outcome(
            Some(default),
            Json::Array(seq![members[0]]),
        ),
{
    assert(seq![members[0]][0] == members[0]);
}

/// One more `type` attribute counts when it is the wanted one.
pub proof fn lemma_occurrences_step(tags: Seq<Option<Seq<char>>>, i: int, wanted: Seq<char>)
    requires
        0 <= i < tags.len(),
    ensures
        occurrences(tags.take(i + 1), wanted) == occurrences(tags.take(i), wanted) + if tags[i]
            == Some(wanted) {
            1nat
        } else {
            0nat
        },
        occurrences(tags.take(i), wanted) <= i,
    decreases i,
{
    assert(tags.take(i + 1).drop_last() == tags.take(i));
    if i > 0 {
        lemma_occurrences_step(tags, i - 1, wanted);
    }
}

/// Whether a name is a valid bare type name.
pub fn is_valid_schema_string(name: &str) -> (r: Result<(), Error>)
    ensures
        r == name_outcome(name@),
{
    if is_primitive_type_name(name) || is_well_formed_name(name) {
        Ok(())
    } else {
        Err(Error::from_code(ErrorCode::NotWellFormedName))
    }
}

/// Whether a default value suits a field whose type is the bare name
/// `declared`.
pub fn does_type_name_match_def_value(declared: &str, default: &JsonValue) -> (r: bool)
    ensures
        r == default_matches(declared@, default@),
{
    let kind = default.kind();
    if str_eq(declared, "string") || str_eq(declared, "bytes") {
        kind == JsonKind::String
    } else if str_eq(declared, "int") || str_eq(declared, "long") {
        kind == JsonKind::Int
    } else if str_eq(declared, "float") || str_eq(declared, "double") {
        kind == JsonKind::Float
    } else if str_eq(declared, "boolean") {
        kind == JsonKind::Bool
    } else if str_eq(declared, "null") {
        kind == JsonKind::Null
    } else {
        true
    }
}

/// Checks the default value of a field against the field's type.
pub fn is_valid_field_default(field: &JsonValue, declared: &JsonValue) -> (r: Result<(), Error>)
    ensures
        r == default_outcome(field@.get("default"@), declared@),
{
    match field.find("default") {
        None => Ok(()),
        Some(default) => {
            let matches = match declared {
                JsonValue::String(name) => does_type_name_match_def_value(name.as_str(), default),
                JsonValue::Object(_) => false,
                JsonValue::Array(members) => {
                    proof {
                        lemma_array_content(*members);
                    }
                    if members.len() == 0 {
                        false
                    } else {
                        match &members[0] {
                            JsonValue::Array(_) => {
                                return Err(Error::from_code(ErrorCode::CannotNestArrays));
                            },
                            JsonValue::Object(_) => false,
                            JsonValue::String(name) => does_type_name_match_def_value(
                                name.as_str(),
                                default,
                            ),
                            _ => {
                                return Err(Error::from_code(ErrorCode::NotValidType));
                            },
                        }
                    }
                },
                _ => {
                    return Err(Error::from_code(ErrorCode::NotValidType));
                },
            };
            if matches {
                Ok(())
            } else {
                Err(Error::from_code(ErrorCode::FieldDefaultTypeMismatch))
            }
        },
    }
}

/// Checks the name of a field of a record with the namespace `namespace`.
pub fn is_valid_field_name(field: &JsonValue, namespace: Option<&String>) -> (r: Result<(), Error>)
    ensures
        r == field_name_outcome(field@, namespace_text(namespace)),
{
    match field.find_string("name") {
        None => Err(Error::from_code(ErrorCode::FieldNameNotWellFormed)),
        Some(name) => {
            let well_formed = match namespace {
                Some(ns) => if ns.as_str().is_empty() {
                    is_well_formed_name(name.as_str())
                } else {
                    let full = qualify(ns.as_str(), name.as_str());
                    is_well_formed_name(full.as_str())
                },
                None => is_well_formed_name(name.as_str()),
            };
            if well_formed {
                Ok(())
            } else {
                Err(Error::from_code(ErrorCode::FieldNameNotWellFormed))
            }
        },
    }
}

/// Checks a complex type.
pub fn is_valid_schema_object(value: &JsonValue) -> (r: Result<(), Error>)
    ensures
        r == object_outcome(value@),
    decreases value@, 2int,
{
    match value.find_string("type") {
        None => Err(Error::from_code(ErrorCode::ExpectedTypeAttribute)),
        Some(tag) => {
            if str_eq(tag.as_str(), "record") {
                is_valid_schema_record(value)
            } else if str_eq(tag.as_str(), "array") {
                is_valid_array(value)
            } else if str_eq(tag.as_str(), "map") {
                is_valid_map(value)
            } else {
                match is_valid_schema_string(tag.as_str()) {
                    Ok(_) => Ok(()),
                    Err(_) => Err(Error::from_code(ErrorCode::NotValidComplexType)),
                }
            }
        },
    }
}

/// Checks the element type of an array or of a map, found under `key`.
fn is_valid_element(value: &JsonValue, key: &str, missing: ErrorCode) -> (r: Result<(), Error>)
    ensures
        r == element_outcome(value@, key@, missing),
    decreases value@, 0int,
{
    match value.find(key) {
        None => Err(Error::from_code(missing)),
        Some(element) => match element {
            JsonValue::String(name) => is_valid_schema_string(name.as_str()),
            JsonValue::Object(_) => {
                proof {
                    assert(decreases_to!(value@ => element@));
                }
                is_valid_schema_object(element)
            },
            _ => Err(Error::from_code(ErrorCode::NotValidArrayItemsType)),
        },
    }
}

/// Checks a map: its `values` attribute is there and is a valid type.
pub fn is_valid_map(value: &JsonValue) -> (r: Result<(), Error>)
    ensures
        r == element_outcome(value@, "values"@, ErrorCode::ExpectedValuesAttribute),
    decreases value@, 1int,
{
    is_valid_element(value, "values", ErrorCode::ExpectedValuesAttribute)
}

/// Checks an array: its `items` attribute is there and is a valid type.
pub fn is_valid_array(value: &JsonValue) -> (r: Result<(), Error>)
    ensures
        r == element_outcome(value@, "items"@, ErrorCode::ExpectedItemsAttribute),
    decreases value@, 1int,
{
    is_valid_element(value, "items", ErrorCode::ExpectedItemsAttribute)
}

/// Checks a record: its full name, then its fields.
pub fn is_valid_schema_record(value: &JsonValue) -> (r: Result<(), Error>)
    ensures
        r == record_outcome(value@),
    decreases value@, 1int,
{
    let name = crate::schema::model::object_fullname(value);
    if !is_well_formed_name(name.as_str()) {
        return Err(Error::from_code(ErrorCode::NotWellFormedName));
    }
    match value.find_array("fields") {
        None => Err(Error::from_code(ErrorCode::ExpectedFieldDefinition)),
        Some(fields) => {
            proof {
                assert(decreases_to!(value@ => contents_of(fields@)));
            }
            is_valid_schema_fields(fields, value.find_string("namespace"))
        },
    }
}

/// Checks the fields of a record, in their order.
pub fn is_valid_schema_fields(fields: &Vec<JsonValue>, namespace: Option<&String>) -> (r: Result<
    (),
    Error,
>)
    ensures
        r == fields_outcome(contents_of(fields@), namespace_text(namespace), fields@.len()),
    decreases contents_of(fields@), 0int,
{
    let ghost all = contents_of(fields@);
    let ghost ns = namespace_text(namespace);
    let mut i: usize = 0;
    while i < fields.len()
        invariant
            i <= fields.len(),
            all == contents_of(fields@),
            ns == namespace_text(namespace),
            fields_outcome(all, ns, i as nat) is Ok,
        decreases fields.len() - i,
    {
        proof {
            assert(all[i as int] == fields@[i as int]@);
        }
        match is_valid_schema_field(&fields[i], namespace) {
            Err(e) => {
                proof {
                    lemma_fields_failure_stays(all, ns, (i + 1) as nat, all.len());
                }
                return Err(e);
            },
            Ok(_) => {},
        }
        i += 1;
    }
    proof {
        let whole = fields_outcome(all, ns, all.len());
        assert(whole->Ok_0 == ());
    }
    Ok(())
}

/// Checks one field of a record: its name, then its type, then its default.
pub fn is_valid_schema_field(field: &JsonValue, namespace: Option<&String>) -> (r: Result<
    (),
    Error,
>)
    ensures
        r == field_outcome(field@, namespace_text(namespace)),
    decreases field@, 3int,
{
    match is_valid_field_name(field, namespace) {
        Err(e) => {
            return Err(e);
        },
        Ok(_) => {},
    }
    match field.find("type") {
        None => Err(Error::from_code(ErrorCode::ExpectedFieldTypeAttribute)),
        Some(declared) => {
            proof {
                assert(decreases_to!(field@ => declared@));
            }
            match is_valid_field_type(declared) {
                Err(e) => Err(e),
                Ok(_) => is_valid_field_default(field, declared),
            }
        },
    }
}

/// Checks the type of a field.
pub fn is_valid_field_type(declared: &JsonValue) -> (r: Result<(), Error>)
    ensures
        r == field_type_outcome(declared@),
    decreases declared@, 3int,
{
    match declared {
        JsonValue::String(name) => is_valid_schema_string(name.as_str()),
        JsonValue::Array(members) => {
            proof {
                lemma_array_content(*members);
            }
            let ghost all = contents_of(members@);
            let ghost tags = item_tags(all);
            let mut arrays: usize = 0;
            let mut maps: usize = 0;
            let mut i: usize = 0;
            assert(tags.take(0).len() == 0);
            while i < members.len()
                invariant
                    declared@ == Json::Array(all),
                    all == contents_of(members@),
                    tags == item_tags(all),
                    i <= members.len(),
                    inline_members_outcome(all, i as nat) is Ok,
                    arrays == occurrences(tags.take(i as int), "array"@),
                    maps == occurrences(tags.take(i as int), "map"@),
                decreases members.len() - i,
            {
                proof {
                    assert(all[i as int] == members@[i as int]@);
                    lemma_occurrences_step(tags, i as int, "array"@);
                    lemma_occurrences_step(tags, i as int, "map"@);
                }
                match &members[i] {
                    JsonValue::Array(_) => {
                        proof {
                            lemma_inline_failure_stays(all, (i + 1) as nat, all.len());
                        }
                        return Err(Error::from_code(ErrorCode::CannotNestArrays));
                    },
                    _ => {},
                }
                match is_valid_field_type(&members[i]) {
                    Err(e) => {
                        proof {
                            lemma_inline_failure_stays(all, (i + 1) as nat, all.len());
                        }
                        return Err(e);
                    },
                    Ok(_) => {},
                }
                match members[i].find_string("type") {
                    Some(tag) => {
                        if str_eq(tag.as_str(), "array") {
                            arrays += 1;
                        }
                        if str_eq(tag.as_str(), "map") {
                            maps += 1;
                        }
                    },
                    None => {},
                }
                i += 1;
            }
            assert(tags.take(tags.len() as int) == tags);
            if arrays > 1 || maps > 1 {
                Err(Error::from_code(ErrorCode::FieldTooManyElementsOfSameType))
            } else {
                Ok(())
            }
        },
        JsonValue::Object(_) => is_valid_schema_object(declared),
        _ => Err(Error::from_code(ErrorCode::UnknownFieldType)),
    }
}

/// Checks a schema that stands alone or as a member of a union.
fn is_valid_single(schema: &Schema) -> (r: Result<(), Error>)
    ensures
        r == single_outcome(schema@),
{
    match schema {
        Schema::Null => Err(Error::from_code(ErrorCode::Unknown)),
        Schema::String(name) => is_valid_schema_string(name.as_str()),
        Schema::Union(_) => Err(Error::from_code(ErrorCode::CannotNestArrays)),
        Schema::Object(value) => is_valid_schema_object(value),
    }
}

/// Checks a union: its members in their order, then how many of them are
/// arrays and how many maps.
pub fn is_valid_schema_union(members: &Vec<Schema>) -> (r: Result<(), Error>)
    ensures
        r == union_outcome(models_of(members@)),
{
    let ghost all = models_of(members@);
    let ghost tags = member_tags(all);
    let mut arrays: usize = 0;
    let mut maps: usize = 0;
    let mut i: usize = 0;
    assert(tags.take(0).len() == 0);
    while i < members.len()
        invariant
            all == models_of(members@),
            tags == member_tags(all),
            i <= members.len(),
            members_outcome(all, i as nat) is Ok,
            arrays == occurrences(tags.take(i as int), "array"@),
            maps == occurrences(tags.take(i as int), "map"@),
        decreases members.len() - i,
    {
        proof {
            assert(all[i as int] == members@[i as int]@);
            lemma_occurrences_step(tags, i as int, "array"@);
            lemma_occurrences_step(tags, i as int, "map"@);
        }
        match is_valid_single(&members[i]) {
            Err(e) => {
                proof {
                    lemma_members_failure_stays(all, (i + 1) as nat, all.len());
                }
                return Err(e);
            },
            Ok(_) => {},
        }
        if members[i].is_array() {
            arrays += 1;
        }
        if members[i].is_map() {
            maps += 1;
        }
        i += 1;
    }
    assert(tags.take(tags.len() as int) == tags);
    if arrays > 1 || maps > 1 {
        Err(Error::from_code(ErrorCode::FieldTooManyElementsOfSameType))
    } else {
        Ok(())
    }
}

impl Schema {
    /// Checks the schema against the rules: `Ok`, or the first failure met.
    pub fn is_valid(&self) -> (r: Result<(), Error>)
        ensures
            is_outcome_of(self@, r),
    {
        match self {
            Schema::Union(members) => {
                proof {
                    lemma_union_content(*members);
                }
                is_valid_schema_union(members)
            },
            _ => is_valid_single(self),
        }
    }
}

} // verus!
