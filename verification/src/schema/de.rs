//! Reading a schema from its text.

use vstd::prelude::*;
use crate::schema::adapter::{json_read, parse_json};
use crate::schema::error::{Error, ErrorCode, JsonFailure};
use crate::schema::json::{contents_of, lemma_array_content, Json, JsonValue};
use crate::schema::model::{lemma_union_content, models_of, Schema, SchemaModel};
use crate::schema::text::{chars_of, strip, stripped, trim};

verus! {

/// What a member of a union written as a JSON array stands for: a string is
/// a bare name, anything else a complex type.
pub open spec fn member_of(json: Json) -> SchemaModel {
    match json {
        Json::String(name) => SchemaModel::Name(name),
        _ => SchemaModel::Object(json),
    }
}

/// The union that a JSON array stands for. An array inside the array would
/// be a union inside a union, and is refused.
pub open spec fn union_of(items: Seq<Json>) -> Result<SchemaModel, Error> {
    if exists|i: int| 0 <= i < items.len() && (#[trigger] items[i]) is Array {
        Err(Error::rule(ErrorCode::CannotNestArrays))
    } else {
        Ok(SchemaModel::Union(Seq::new(items.len(), |i: int| member_of(items[i]))))
    }
}

/// The schema that a JSON document stands for, given what the JSON reader
/// made of the text and whether the text opens an object (or else an array).
pub open spec fn document_outcome(opens_object: bool, parsed: Result<Json, JsonFailure>) -> Result<
    SchemaModel,
    Error,
> {
    match parsed {
        Err(failure) => Err(Error::of_json(failure)),
        Ok(tree) => if opens_object {
            Ok(SchemaModel::Object(tree))
        } else {
            match tree {
                Json::Array(items) => union_of(items),
                _ => Err(Error::rule(ErrorCode::Unknown)),
            }
        },
    }
}

/// The schema that a text between double quotes stands for: the bare name
/// between the quotes. Any other text is refused.
pub open spec fn name_outcome_of(text: Seq<char>) -> Result<SchemaModel, Error> {
    if text.len() > 0 && text[0] == '"' && text.last() == '"' {
        Ok(SchemaModel::Name(stripped(text, true)))
    } else {
        Err(Error::SyntaxError(ErrorCode::NotValidPrimitiveType, 1, 0))
    }
}

/// Whether a text, free of white space at its ends, opens a JSON object or a
/// JSON array.
pub open spec fn opens_document(text: Seq<char>) -> bool {
    text.len() > 0 && (text[0] == '{' || text[0] == '[')
}

/// The schema that a text stands for: a JSON object is a complex type, a
/// JSON array a union, a name between double quotes a bare name.
pub open spec fn parse_outcome(text: Seq<char>) -> Result<SchemaModel, Error> {
    let inner = stripped(text, false);
    if opens_document(inner) {
        document_outcome(inner[0] == '{', json_read(inner))
    } else {
        name_outcome_of(inner)
    }
}

/// Whether a result holds the schema, or the error, that was expected.
pub open spec fn agrees(result: Result<Schema, Error>, expected: Result<SchemaModel, Error>) -> bool {
    match result {
        Ok(schema) => expected == Ok::<SchemaModel, Error>(schema@),
        Err(e) => expected == Err::<SchemaModel, Error>(e),
    }
}

/// The content of a document read by the JSON reader.
pub open spec fn content_read(parsed: Result<JsonValue, JsonFailure>) -> Result<Json, JsonFailure> {
    match parsed {
        Ok(value) => Ok(value@),
        Err(failure) => Err(failure),
    }
}

/// A text that opens an array whose items hold an array of their own is
/// refused as a nested union, though the JSON reader accepts it.
pub proof fn lemma_nested_union_is_refused(text: Seq<char>, items: Seq<Json>, i: int)
    requires
        opens_document(stripped(text, false)),
        stripped(text, false)[0] == '[',
        json_read(stripped(text, false)) == Ok::<Json, JsonFailure>(Json::Array(items)),
        0 <= i < items.len(),
        items[i] is Array,
    ensures
        parse_outcome(text) == Err::<SchemaModel, Error>(Error::rule(ErrorCode::CannotNestArrays)),
{
}

/// Makes a union of the items of a JSON array.
pub fn union_from_items(items: &Vec<JsonValue>) -> (r: Result<Schema, Error>)
    ensures
        agrees(r, union_of(contents_of(items@))),
{
    let ghost all = contents_of(items@);
    let mut members: Vec<Schema> = Vec::new();
    let mut i: usize = 0;
    while i < items.len()
        invariant
            all == contents_of(items@),
            i <= items.len(),
            members@.len() == i,
            forall|k: int| 0 <= k < i ==> !((#[trigger] all[k]) is Array),
            forall|k: int| 0 <= k < i ==> (#[trigger] members@[k])@ == member_of(all[k]),
        decreases items.len() - i,
    {
        proof {
            assert(all[i as int] == items@[i as int]@);
        }
        match &items[i] {
            JsonValue::String(name) => {
                members.push(Schema::String(name.clone()));
            },
            JsonValue::Array(_) => {
                proof {
                    lemma_array_content(items@[i as int]->Array_0);
                }
                return Err(Error::from_code(ErrorCode::CannotNestArrays));
            },
            other => {
                members.push(Schema::Object(other.copy()));
            },
        }
        i += 1;
    }
    proof {
        lemma_union_content(members);
        assert(models_of(members@) =~= Seq::new(all.len(), |i: int| member_of(all[i])));
    }
    Ok(Schema::Union(members))
}

/// Makes a schema of what the JSON reader made of a text that opens an
/// object (`opens_object`) or an array.
pub fn schema_from_document(opens_object: bool, parsed: Result<JsonValue, JsonFailure>) -> (r: Result<
    Schema,
    Error,
>)
    ensures
        agrees(r, document_outcome(opens_object, content_read(parsed))),
{
    match parsed {
        Err(failure) => Err(Error::from_json(failure)),
        Ok(value) => {
            if opens_object {
                Ok(Schema::Object(value))
            } else {
                match &value {
                    JsonValue::Array(items) => {
                        proof {
                            lemma_array_content(*items);
                        }
                        union_from_items(items)
                    },
                    _ => Err(Error::from_code(ErrorCode::Unknown)),
                }
            }
        },
    }
}

/// Makes a bare name of a text between double quotes.
pub fn schema_from_quoted(text: &str) -> (r: Result<Schema, Error>)
    ensures
        agrees(r, name_outcome_of(text@)),
{
    let chars = chars_of(text);
    let n = chars.len();
    if n > 0 && chars[0] == '"' && chars[n - 1] == '"' {
        let name = strip(text, true);
        Ok(Schema::String(name.to_owned()))
    } else {
        Err(Error::SyntaxError(ErrorCode::NotValidPrimitiveType, 1, 0))
    }
}

/// The first character of a text, where it has one.
pub fn first_char(text: &str) -> (r: Option<char>)
    ensures
        match r {
            Some(c) => text@.len() > 0 && c == text@[0],
            None => text@.len() == 0,
        },
{
    let mut chars = text.chars();
    let first = chars.next();
    first
}

/// Reads a schema from its text. Nothing is checked but the form: whether
/// the schema is valid is for `is_valid` to say.
pub fn from_str(s: &str) -> (r: Result<Schema, Error>)
    ensures
        agrees(r, parse_outcome(s@)),
{
    let inner = trim(s);
    match first_char(inner) {
        Some(c) => {
            if c == '{' || c == '[' {
                let parsed = parse_json(inner);
                schema_from_document(c == '{', parsed)
            } else {
                schema_from_quoted(inner)
            }
        },
        None => schema_from_quoted(inner),
    }
}

} // verus!
