//! Writing a schema as text.

use vstd::prelude::*;
use crate::schema::adapter::{encode_json, json_written};
use crate::schema::error::{Error, ErrorCode};
use crate::schema::model::{lemma_union_content, models_of, Schema, SchemaModel};

verus! {

/// A name between double quotes. Nothing in the name is escaped.
pub open spec fn quoted(name: Seq<char>) -> Seq<char> {
    seq!['"'] + name + seq!['"']
}

/// The text of a schema, or `None` where the JSON writer fails on a complex
/// type in it. A bare name stands between double quotes, and the marker of an
/// absent schema is written as the name `null`; a union is its members
/// between square brackets, with commas between them; a complex type is what
/// the JSON writer makes of its document.
pub open spec fn written(schema: SchemaModel) -> Option<Seq<char>>
    decreases schema, 1int,
{
    match schema {
        SchemaModel::Null => Some(quoted("null"@)),
        SchemaModel::Name(name) => Some(quoted(name)),
        SchemaModel::Union(members) => match members_written(members, members.len()) {
            Some(inner) => Some(seq!['['] + inner + seq![']']),
            None => None,
        },
        SchemaModel::Object(json) => json_written(json),
    }
}

/// The texts of the first `n` members of a union, with commas between them.
pub open spec fn members_written(members: Seq<SchemaModel>, n: nat) -> Option<Seq<char>>
    decreases members, n,
{
    if n == 0 || n > members.len() {
        Some(Seq::empty())
    } else {
        match (members_written(members, (n - 1) as nat), written(members[n - 1])) {
            (Some(before), Some(last)) => Some(
                if n == 1 {
                    last
                } else {
                    before + seq![','] + last
                },
            ),
            _ => None,
        }
    }
}

/// The text of a schema as it is shown: empty where the JSON writer fails.
pub open spec fn shown(schema: SchemaModel) -> Seq<char> {
    match written(schema) {
        Some(text) => text,
        None => Seq::empty(),
    }
}

/// Once a member cannot be written, the union cannot.
pub proof fn lemma_unwritable_stays(members: Seq<SchemaModel>, i: nat, n: nat)
    requires
        i <= n <= members.len(),
        members_written(members, i) is None,
    ensures
        members_written(members, n) is None,
    decreases n,
{
    if i < n {
        lemma_unwritable_stays(members, i, (n - 1) as nat);
    }
}

/// Puts a name between double quotes.
pub fn quote(name: &str) -> (r: String)
    ensures
        r@ == quoted(name@),
{
    let mut text = String::new();
    text.append("\"");
    text.append(name);
    text.append("\"");
    proof {
        reveal_strlit("\"");
        assert("\""@ == seq!['"']);
        assert(Seq::<char>::empty() + seq!['"'] == seq!['"']);
    }
    text
}

/// Writes a schema as text.
pub fn to_string(schema: &Schema) -> (r: Result<String, Error>)
    ensures
        match r {
            Ok(text) => written(schema@) == Some(text@),
            Err(e) => written(schema@) is None && e == Error::rule(ErrorCode::Unknown),
        },
    decreases *schema, 1int,
{
    match schema {
        Schema::Null => Ok(quote("null")),
        Schema::String(name) => Ok(quote(name.as_str())),
        Schema::Union(members) => {
            proof {
                lemma_union_content(*members);
                assert(decreases_to!(*schema => schema->Union_0));
            }
            vec_to_string(members)
        },
        Schema::Object(value) => match encode_json(value) {
            Some(text) => Ok(text),
            None => Err(Error::from_code(ErrorCode::Unknown)),
        },
    }
}

/// Writes the members of a union between square brackets, with commas
/// between them.
pub fn vec_to_string(schemas: &Vec<Schema>) -> (r: Result<String, Error>)
    ensures
        match r {
            Ok(text) => written(SchemaModel::Union(models_of(schemas@))) == Some(text@),
            Err(e) => written(SchemaModel::Union(models_of(schemas@))) is None && e == Error::rule(
                ErrorCode::Unknown,
            ),
        },
    decreases *schemas, 0int,
{
    let ghost all = models_of(schemas@);
    let mut text = String::new();
    text.append("[");
    let mut i: usize = 0;
    proof {
        reveal_strlit("[");
        assert("["@ == seq!['[']);
        assert(Seq::<char>::empty() + seq!['['] == seq!['[']);
        assert(seq!['['] + Seq::<char>::empty() == seq!['[']);
    }
    while i < schemas.len()
        invariant
            all == models_of(schemas@),
            i <= schemas.len(),
            members_written(all, i as nat) is Some,
            text@ == seq!['['] + members_written(all, i as nat)->Some_0,
        decreases schemas.len() - i,
    {
        proof {
            assert(all[i as int] == schemas@[i as int]@);
            assert(decreases_to!(*schemas => schemas[i as int]));
        }
        match to_string(&schemas[i]) {
            Err(e) => {
                proof {
                    lemma_unwritable_stays(all, (i + 1) as nat, all.len());
                }
                return Err(e);
            },
            Ok(member) => {
                let ghost before = text@;
                if i > 0 {
                    text.append(",");
                }
                text.append(member.as_str());
                proof {
                    reveal_strlit(",");
                    assert(","@ == seq![',']);
                    let inner = members_written(all, i as nat)->Some_0;
                    if i > 0 {
                        assert(text@ == seq!['['] + (inner + seq![','] + member@));
                    } else {
                        assert(inner == Seq::<char>::empty());
                        assert(text@ == seq!['['] + member@);
                    }
                }
            },
        }
        i += 1;
    }
    text.append("]");
    proof {
        reveal_strlit("]");
        assert("]"@ == seq![']']);
    }
    Ok(text)
}

impl Schema {
    /// The text of the schema as it is shown: empty where the JSON writer
    /// fails.
    pub fn to_string(&self) -> (r: String)
        ensures
            r@ == shown(self@),
    {
        match to_string(self) {
            Ok(text) => text,
            Err(_) => String::new(),
        }
    }
}

impl<'a> From<&'a Schema> for String {
    fn from(schema: &'a Schema) -> (r: String)
        ensures
            r@ == shown(schema@),
    {
        schema.to_string()
    }
}

impl<'a> vstd::std_specs::convert::FromSpecImpl<&'a Schema> for String {
    open spec fn obeys_from_spec() -> bool {
        false
    }

    open spec fn from_spec(schema: &'a Schema) -> String {
        arbitrary()
    }
}

} // verus!
