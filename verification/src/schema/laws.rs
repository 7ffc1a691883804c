//! What holds of reading and writing together.

use vstd::prelude::*;
use crate::schema::de::{name_outcome_of, opens_document, parse_outcome};
use crate::schema::error::Error;
use crate::schema::model::{is_primitive_name, SchemaModel};
use crate::schema::ser::{quoted, written};
use crate::schema::text::{leading, lemma_strip_keeps, stripped, trailing};

verus! {

/// The quotes round a name that neither starts nor ends with a double quote
/// come off again.
pub proof fn lemma_quotes_come_off(name: Seq<char>)
    requires
        name.len() == 0 || (name[0] != '"' && name.last() != '"'),
    ensures
        stripped(quoted(name), true) == name,
{
    let text = quoted(name);
    let tail = name + seq!['"'];
    assert(text.drop_first() == tail);
    assert(text[0] == '"');
    if name.len() == 0 {
        assert(tail.drop_first() == Seq::<char>::empty());
        assert(tail[0] == '"');
        assert(leading(Seq::<char>::empty(), true) == 0);
        assert(leading(tail, true) == 1);
        assert(leading(text, true) == 2);
        assert(text.skip(2) == Seq::<char>::empty());
        assert(stripped(text, true) == Seq::<char>::empty());
    } else {
        assert(tail[0] == name[0]);
        assert(leading(tail, true) == 0);
        assert(leading(text, true) == 1);
        let rest = text.skip(1);
        assert(rest == tail);
        assert(rest.last() == '"');
        assert(rest.drop_last() == name);
        assert(trailing(name, true) == 0);
        assert(trailing(rest, true) == 1);
        assert(rest.take(rest.len() - 1) == name);
    }
}

/// A bare name that neither starts nor ends with a double quote is read from
/// its own text as the same bare name.
pub proof fn lemma_name_round_trip(name: Seq<char>)
    requires
        name.len() == 0 || (name[0] != '"' && name.last() != '"'),
    ensures
        written(SchemaModel::Name(name)) == Some(quoted(name)),
        parse_outcome(quoted(name)) == Ok::<SchemaModel, Error>(SchemaModel::Name(name)),
{
    let text = quoted(name);
    assert(text[0] == '"');
    assert(text.last() == '"');
    lemma_strip_keeps(text, false);
    assert(!opens_document(text));
    lemma_quotes_come_off(name);
    assert(name_outcome_of(text) == Ok::<SchemaModel, Error>(SchemaModel::Name(name)));
}

/// Each of the eight primitive type names is read from its own text as the
/// same primitive type name.
pub proof fn lemma_primitive_round_trip(name: Seq<char>)
    requires
        is_primitive_name(name),
    ensures
        written(SchemaModel::Name(name)) == Some(quoted(name)),
        parse_outcome(quoted(name)) == Ok::<SchemaModel, Error>(SchemaModel::Name(name)),
{
    reveal_strlit("null");
    reveal_strlit("boolean");
    reveal_strlit("int");
    reveal_strlit("long");
    reveal_strlit("float");
    reveal_strlit("double");
    reveal_strlit("bytes");
    reveal_strlit("string");
    lemma_name_round_trip(name);
}

} // verus!
