//! Builders that put a schema together attribute by attribute.
//!
//! A builder writes the attributes of its document in the order of their
//! names, so that a schema built here and the same schema read from text are
//! equal member by member.

use vstd::prelude::*;
use crate::schema::json::{
    contents_of,
    lemma_array_content,
    lemma_members_push,
    members_of,
    no_members,
    Json,
    JsonValue,
};
use crate::schema::model::{lemma_union_content, models_of, FieldSortOrder, Schema, SchemaModel};

verus! {

/// The members with `value` under `key`, where there is a value.
pub open spec fn with(members: Map<Seq<char>, Json>, key: Seq<char>, value: Option<JsonValue>) -> Map<
    Seq<char>,
    Json,
> {
    match value {
        Some(v) => members.insert(key, v@),
        None => members,
    }
}

/// The JSON array of the given strings.
pub open spec fn string_array(names: Seq<String>) -> Json {
    Json::Array(Seq::new(names.len(), |i: int| Json::String(names[i]@)))
}

/// The names of the attributes differ from one another.
pub proof fn lemma_keys_differ()
    ensures
        "aliases"@.len() == 7 && "aliases"@[0] == 'a',
        "default"@.len() == 7 && "default"@[0] == 'd',
        "symbols"@.len() == 7 && "symbols"@[0] == 's',
        "doc"@.len() == 3,
        "fields"@.len() == 6 && "fields"@[0] == 'f',
        "values"@.len() == 6 && "values"@[0] == 'v',
        "items"@.len() == 5 && "items"@[0] == 'i',
        "order"@.len() == 5 && "order"@[0] == 'o',
        "name"@.len() == 4 && "name"@[0] == 'n',
        "size"@.len() == 4 && "size"@[0] == 's',
        "type"@.len() == 4 && "type"@[0] == 't',
        "namespace"@.len() == 9,
{
    reveal_strlit("aliases");
    reveal_strlit("default");
    reveal_strlit("symbols");
    reveal_strlit("doc");
    reveal_strlit("fields");
    reveal_strlit("values");
    reveal_strlit("items");
    reveal_strlit("order");
    reveal_strlit("name");
    reveal_strlit("size");
    reveal_strlit("type");
    reveal_strlit("namespace");
}

/// Adds a member to a list of members, where there is a value for it.
fn put(entries: &mut Vec<(String, JsonValue)>, key: &str, value: Option<JsonValue>)
    ensures
        members_of(final(entries)@) == with(members_of(old(entries)@), key@, value),
{
    match value {
        Some(v) => {
            let k = key.to_owned();
            proof {
                lemma_members_push(entries@, k, v);
            }
            entries.push((k, v));
        },
        None => {},
    }
}

/// The JSON array of the given strings.
pub fn strings_value(names: Vec<String>) -> (r: JsonValue)
    ensures
        r@ == string_array(names@),
{
    let mut out: Vec<JsonValue> = Vec::new();
    let mut i: usize = 0;
    while i < names.len()
        invariant
            i <= names.len(),
            out@.len() == i,
            forall|k: int| 0 <= k < i ==> (#[trigger] out@[k])@ == Json::String(names@[k]@),
        decreases names.len() - i,
    {
        out.push(JsonValue::String(names[i].clone()));
        i += 1;
    }
    proof {
        lemma_array_content(out);
        assert(contents_of(out@) =~= string_array(names@)->Array_0);
    }
    JsonValue::Array(out)
}

/// Builds a field of a record.
pub struct FieldBuilder {
    aliases: Option<JsonValue>,
    default: Option<JsonValue>,
    doc: Option<JsonValue>,
    name: Option<JsonValue>,
    order: Option<JsonValue>,
    field_type: Option<JsonValue>,
}

impl FieldBuilder {
    /// The attributes set so far.
    pub closed spec fn attributes(self) -> Map<Seq<char>, Json> {
        with(
            with(
                with(
                    with(
                        with(with(no_members(), "aliases"@, self.aliases), "default"@, self.default),
                        "doc"@,
                        self.doc,
                    ),
                    "name"@,
                    self.name,
                ),
                "order"@,
                self.order,
            ),
            "type"@,
            self.field_type,
        )
    }

    /// A field without attributes.
    pub closed spec fn fresh() -> FieldBuilder {
        FieldBuilder {
            aliases: None,
            default: None,
            doc: None,
            name: None,
            order: None,
            field_type: None,
        }
    }

    /// Before any attribute is set there is none.
    pub proof fn lemma_fresh_attributes()
        ensures
            FieldBuilder::fresh().attributes() == no_members(),
    {
    }

    /// Starts a field without attributes.
    pub fn new() -> (r: FieldBuilder)
        ensures
            r == FieldBuilder::fresh(),
            r.attributes() == no_members(),
    {
        FieldBuilder {
            aliases: None,
            default: None,
            doc: None,
            name: None,
            order: None,
            field_type: None,
        }
    }

    /// The field as a JSON document.
    pub fn unwrap(self) -> (r: JsonValue)
        ensures
            r@ == Json::Object(self.attributes()),
    {
        let mut entries: Vec<(String, JsonValue)> = Vec::new();
        put(&mut entries, "aliases", self.aliases);
        put(&mut entries, "default", self.default);
        put(&mut entries, "doc", self.doc);
        put(&mut entries, "name", self.name);
        put(&mut entries, "order", self.order);
        put(&mut entries, "type", self.field_type);
        JsonValue::Object(entries)
    }

    /// Sets the type of the field, written in the short form.
    pub fn field_type(self, field_type: Schema) -> (r: FieldBuilder)
        ensures
            r.attributes() == self.attributes().insert("type"@, field_type@.short_form()),
    {
        let mut r = self;
        r.field_type = Some(field_type.to_short_form());
        proof {
            lemma_keys_differ();
            assert(r.attributes() =~= self.attributes().insert("type"@, field_type@.short_form()));
        }
        r
    }

    /// Sets the name of the field.
    pub fn name(self, n: String) -> (r: FieldBuilder)
        ensures
            r.attributes() == self.attributes().insert("name"@, Json::String(n@)),
    {
        let mut r = self;
        r.name = Some(JsonValue::String(n));
        proof {
            lemma_keys_differ();
            assert(r.attributes() =~= self.attributes().insert("name"@, Json::String(n@)));
        }
        r
    }

    /// Sets the documentation of the field.
    pub fn doc(self, doc: String) -> (r: FieldBuilder)
        ensures
            r.attributes() == self.attributes().insert("doc"@, Json::String(doc@)),
    {
        let mut r = self;
        r.doc = Some(JsonValue::String(doc));
        proof {
            lemma_keys_differ();
            assert(r.attributes() =~= self.attributes().insert("doc"@, Json::String(doc@)));
        }
        r
    }

    /// Sets the other names of the field.
    pub fn aliases(self, aliases: Vec<String>) -> (r: FieldBuilder)
        ensures
            r.attributes() == self.attributes().insert("aliases"@, string_array(aliases@)),
    {
        let mut r = self;
        r.aliases = Some(strings_value(aliases));
        proof {
            lemma_keys_differ();
            assert(r.attributes() =~= self.attributes().insert("aliases"@, string_array(aliases@)));
        }
        r
    }

    /// Sets the order in which the values of the field sort.
    pub fn order(self, order: FieldSortOrder) -> (r: FieldBuilder)
        ensures
            r.attributes() == self.attributes().insert("order"@, Json::String(order.text())),
    {
        let mut r = self;
        r.order = Some(JsonValue::String(order.to_string()));
        proof {
            lemma_keys_differ();
            assert(r.attributes() =~= self.attributes().insert("order"@, Json::String(order.text())));
        }
        r
    }

    /// Sets the default value of the field.
    pub fn default(self, default: JsonValue) -> (r: FieldBuilder)
        ensures
            r.attributes() == self.attributes().insert("default"@, default@),
    {
        let mut r = self;
        r.default = Some(default);
        proof {
            lemma_keys_differ();
            assert(r.attributes() =~= self.attributes().insert("default"@, default@));
        }
        r
    }
}

/// Builds the fields of a record.
pub struct FieldArrayBuilder {
    array: Vec<JsonValue>,
}

impl FieldArrayBuilder {
    /// The fields added so far.
    pub closed spec fn items(self) -> Seq<Json> {
        contents_of(self.array@)
    }

    /// Starts without fields.
    pub fn new() -> (r: FieldArrayBuilder)
        ensures
            r.items() == Seq::<Json>::empty(),
    {
        let r = FieldArrayBuilder { array: Vec::new() };
        assert(r.items() =~= Seq::<Json>::empty());
        r
    }

    /// The fields as a JSON array.
    pub fn unwrap(self) -> (r: JsonValue)
        ensures
            r@ == Json::Array(self.items()),
    {
        proof {
            lemma_array_content(self.array);
        }
        JsonValue::Array(self.array)
    }

    /// Adds the field that `f` makes of a field without attributes.
    pub fn push<F>(self, f: F) -> (r: FieldArrayBuilder) where
        F: FnOnce(FieldBuilder) -> FieldBuilder,

        requires
            f.requires((FieldBuilder::fresh(),)),
        ensures
            exists|made: FieldBuilder|
                f.ensures((FieldBuilder::fresh(),), made) && r.items() == self.items().push(
                    Json::Object(made.attributes()),
                ),
    {
        let made = f(FieldBuilder::new());
        let ghost attributes = made.attributes();
        let field = made.unwrap();
        let mut r = self;
        r.array.push(field);
        proof {
            assert(r.items() =~= self.items().push(Json::Object(attributes)));
        }
        r
    }
}

/// Builds a record.
pub struct RecordBuilder {
    aliases: Option<JsonValue>,
    doc: Option<JsonValue>,
    fields: Option<JsonValue>,
    name: Option<JsonValue>,
    namespace: Option<JsonValue>,
}

impl RecordBuilder {
    /// The attributes set so far.
    pub closed spec fn attributes(self) -> Map<Seq<char>, Json> {
        with(with(with(with(with(no_members(), "aliases"@, self.aliases), "doc"@, self.doc), "fields"@, self.fields), "name"@, self.name), "namespace"@, self.namespace).insert("type"@, Json::String("record"@))
    }

    /// The builder before any attribute is set.
    pub closed spec fn fresh() -> RecordBuilder {
        RecordBuilder {
            aliases: None,
            doc: None,
            fields: None,
            name: None,
            namespace: None,
        }
    }

    /// Before any attribute is set there is the `type` attribute alone.
    pub proof fn lemma_fresh_attributes()
        ensures
            RecordBuilder::fresh().attributes() == no_members().insert("type"@, Json::String("record"@)),
    {
    }

    /// Starts with the `type` attribute alone.
    pub fn new() -> (r: RecordBuilder)
        ensures
            r == RecordBuilder::fresh(),
            r.attributes() == no_members().insert("type"@, Json::String("record"@)),
    {
        RecordBuilder {
            aliases: None,
            doc: None,
            fields: None,
            name: None,
            namespace: None,
        }
    }

    /// The schema built.
    pub fn unwrap(self) -> (r: Schema)
        ensures
            r@ == SchemaModel::Object(Json::Object(self.attributes())),
    {
        let mut entries: Vec<(String, JsonValue)> = Vec::new();
        put(&mut entries, "aliases", self.aliases);
        put(&mut entries, "doc", self.doc);
        put(&mut entries, "fields", self.fields);
        put(&mut entries, "name", self.name);
        put(&mut entries, "namespace", self.namespace);
        put(&mut entries, "type", Some(JsonValue::String("record".to_owned())));
        Schema::Object(JsonValue::Object(entries))
    }

    /// Sets the name.
    pub fn name(self, n: String) -> (r: RecordBuilder)
        ensures
            r.attributes() == self.attributes().insert("name"@, Json::String(n@)),
    {
        let mut r = self;
        r.name = Some(JsonValue::String(n));
        proof {
            lemma_keys_differ();
            assert(r.attributes() =~= self.attributes().insert("name"@, Json::String(n@)));
        }
        r
    }
    /// Sets the namespace.
    pub fn namespace(self, ns: String) -> (r: RecordBuilder)
        ensures
            r.attributes() == self.attributes().insert("namespace"@, Json::String(ns@)),
    {
        let mut r = self;
        r.namespace = Some(JsonValue::String(ns));
        proof {
            lemma_keys_differ();
            assert(r.attributes() =~= self.attributes().insert("namespace"@, Json::String(ns@)));
        }
        r
    }
    /// Sets the documentation.
    pub fn doc(self, doc: String) -> (r: RecordBuilder)
        ensures
            r.attributes() == self.attributes().insert("doc"@, Json::String(doc@)),
    {
        let mut r = self;
        r.doc = Some(JsonValue::String(doc));
        proof {
            lemma_keys_differ();
            assert(r.attributes() =~= self.attributes().insert("doc"@, Json::String(doc@)));
        }
        r
    }
    /// Sets the other names.
    pub fn aliases(self, aliases: Vec<String>) -> (r: RecordBuilder)
        ensures
            r.attributes() == self.attributes().insert("aliases"@, string_array(aliases@)),
    {
        let mut r = self;
        r.aliases = Some(strings_value(aliases));
        proof {
            lemma_keys_differ();
            assert(r.attributes() =~= self.attributes().insert("aliases"@, string_array(aliases@)));
        }
        r
    }
    /// Sets the fields to those that `f` adds to an empty list.
    pub fn fields<F>(self, f: F) -> (r: RecordBuilder) where
        F: FnOnce(FieldArrayBuilder) -> FieldArrayBuilder,

        requires
            forall|b: FieldArrayBuilder| b.items().len() == 0 ==> #[trigger] f.requires((b,)),
        ensures
            exists|b: FieldArrayBuilder, made: FieldArrayBuilder|
                b.items().len() == 0 && #[trigger] f.ensures((b,), made) && r.attributes()
                    == self.attributes().insert("fields"@, Json::Array(made.items())),
    {
        let start = FieldArrayBuilder::new();
        let ghost b = start;
        let made = f(start);
        let ghost items = made.items();
        let mut r = self;
        r.fields = Some(made.unwrap());
        proof {
            lemma_keys_differ();
            assert(r.attributes() =~= self.attributes().insert("fields"@, Json::Array(items)));
            assert(f.ensures((b,), made));
        }
        r
    }
}

/// Builds the symbols of an enum.
pub struct SymbolBuilder {
    array: Vec<JsonValue>,
}

impl SymbolBuilder {
    /// The symbols added so far.
    pub closed spec fn items(self) -> Seq<Json> {
        contents_of(self.array@)
    }

    /// Starts without symbols.
    pub fn new() -> (r: SymbolBuilder)
        ensures
            r.items() == Seq::<Json>::empty(),
    {
        let r = SymbolBuilder { array: Vec::new() };
        assert(r.items() =~= Seq::<Json>::empty());
        r
    }

    /// The symbols as a JSON array.
    pub fn unwrap(self) -> (r: JsonValue)
        ensures
            r@ == Json::Array(self.items()),
    {
        proof {
            lemma_array_content(self.array);
        }
        JsonValue::Array(self.array)
    }

    /// Adds a symbol.
    pub fn push(self, symbol: &str) -> (r: SymbolBuilder)
        ensures
            r.items() == self.items().push(Json::String(symbol@)),
    {
        let mut r = self;
        r.array.push(JsonValue::String(symbol.to_owned()));
        proof {
            assert(r.items() =~= self.items().push(Json::String(symbol@)));
        }
        r
    }
}

/// Builds an enum.
pub struct EnumBuilder {
    aliases: Option<JsonValue>,
    doc: Option<JsonValue>,
    name: Option<JsonValue>,
    namespace: Option<JsonValue>,
    symbols: Option<JsonValue>,
}

impl EnumBuilder {
    /// The attributes set so far.
    pub closed spec fn attributes(self) -> Map<Seq<char>, Json> {
        with(with(with(with(with(no_members(), "aliases"@, self.aliases), "doc"@, self.doc), "name"@, self.name), "namespace"@, self.namespace), "symbols"@, self.symbols).insert("type"@, Json::String("enum"@))
    }

    /// The builder before any attribute is set.
    pub closed spec fn fresh() -> EnumBuilder {
        EnumBuilder {
            aliases: None,
            doc: None,
            name: None,
            namespace: None,
            symbols: None,
        }
    }

    /// Before any attribute is set there is the `type` attribute alone.
    pub proof fn lemma_fresh_attributes()
        ensures
            EnumBuilder::fresh().attributes() == no_members().insert("type"@, Json::String("enum"@)),
    {
    }

    /// Starts with the `type` attribute alone.
    pub fn new() -> (r: EnumBuilder)
        ensures
            r == EnumBuilder::fresh(),
            r.attributes() == no_members().insert("type"@, Json::String("enum"@)),
    {
        EnumBuilder {
            aliases: None,
            doc: None,
            name: None,
            namespace: None,
            symbols: None,
        }
    }

    /// The schema built.
    pub fn unwrap(self) -> (r: Schema)
        ensures
            r@ == SchemaModel::Object(Json::Object(self.attributes())),
    {
        let mut entries: Vec<(String, JsonValue)> = Vec::new();
        put(&mut entries, "aliases", self.aliases);
        put(&mut entries, "doc", self.doc);
        put(&mut entries, "name", self.name);
        put(&mut entries, "namespace", self.namespace);
        put(&mut entries, "symbols", self.symbols);
        put(&mut entries, "type", Some(JsonValue::String("enum".to_owned())));
        Schema::Object(JsonValue::Object(entries))
    }

    /// Sets the name.
    pub fn name(self, n: String) -> (r: EnumBuilder)
        ensures
            r.attributes() == self.attributes().insert("name"@, Json::String(n@)),
    {
        let mut r = self;
        r.name = Some(JsonValue::String(n));
        proof {
            lemma_keys_differ();
            assert(r.attributes() =~= self.attributes().insert("name"@, Json::String(n@)));
        }
        r
    }
    /// Sets the namespace.
    pub fn namespace(self, ns: String) -> (r: EnumBuilder)
        ensures
            r.attributes() == self.attributes().insert("namespace"@, Json::String(ns@)),
    {
        let mut r = self;
        r.namespace = Some(JsonValue::String(ns));
        proof {
            lemma_keys_differ();
            assert(r.attributes() =~= self.attributes().insert("namespace"@, Json::String(ns@)));
        }
        r
    }
    /// Sets the documentation.
    pub fn doc(self, doc: String) -> (r: EnumBuilder)
        ensures
            r.attributes() == self.attributes().insert("doc"@, Json::String(doc@)),
    {
        let mut r = self;
        r.doc = Some(JsonValue::String(doc));
        proof {
            lemma_keys_differ();
            assert(r.attributes() =~= self.attributes().insert("doc"@, Json::String(doc@)));
        }
        r
    }
    /// Sets the other names.
    pub fn aliases(self, aliases: Vec<String>) -> (r: EnumBuilder)
        ensures
            r.attributes() == self.attributes().insert("aliases"@, string_array(aliases@)),
    {
        let mut r = self;
        r.aliases = Some(strings_value(aliases));
        proof {
            lemma_keys_differ();
            assert(r.attributes() =~= self.attributes().insert("aliases"@, string_array(aliases@)));
        }
        r
    }
    /// Sets the symbols to those that `f` adds to an empty list.
    pub fn symbols<F>(self, f: F) -> (r: EnumBuilder) where
        F: FnOnce(SymbolBuilder) -> SymbolBuilder,

        requires
            forall|b: SymbolBuilder| b.items().len() == 0 ==> #[trigger] f.requires((b,)),
        ensures
            exists|b: SymbolBuilder, made: SymbolBuilder|
                b.items().len() == 0 && #[trigger] f.ensures((b,), made) && r.attributes()
                    == self.attributes().insert("symbols"@, Json::Array(made.items())),
    {
        let start = SymbolBuilder::new();
        let ghost b = start;
        let made = f(start);
        let ghost items = made.items();
        let mut r = self;
        r.symbols = Some(made.unwrap());
        proof {
            lemma_keys_differ();
            assert(r.attributes() =~= self.attributes().insert("symbols"@, Json::Array(items)));
            assert(f.ensures((b,), made));
        }
        r
    }
}

/// Builds an array (the complex type, not a union).
pub struct ArrayBuilder {
    items: Option<JsonValue>,
}

impl ArrayBuilder {
    /// The attributes set so far.
    pub closed spec fn attributes(self) -> Map<Seq<char>, Json> {
        with(no_members(), "items"@, self.items).insert("type"@, Json::String("array"@))
    }

    /// The builder before any attribute is set.
    pub closed spec fn fresh() -> ArrayBuilder {
        ArrayBuilder {
            items: None,
        }
    }

    /// Before any attribute is set there is the `type` attribute alone.
    pub proof fn lemma_fresh_attributes()
        ensures
            ArrayBuilder::fresh().attributes() == no_members().insert("type"@, Json::String("array"@)),
    {
    }

    /// Starts with the `type` attribute alone.
    pub fn new() -> (r: ArrayBuilder)
        ensures
            r == ArrayBuilder::fresh(),
            r.attributes() == no_members().insert("type"@, Json::String("array"@)),
    {
        ArrayBuilder {
            items: None,
        }
    }

    /// The schema built.
    pub fn unwrap(self) -> (r: Schema)
        ensures
            r@ == SchemaModel::Object(Json::Object(self.attributes())),
    {
        let mut entries: Vec<(String, JsonValue)> = Vec::new();
        put(&mut entries, "items", self.items);
        put(&mut entries, "type", Some(JsonValue::String("array".to_owned())));
        Schema::Object(JsonValue::Object(entries))
    }

    /// Sets the type of the items, written in the long form.
    pub fn items(self, items: Schema) -> (r: ArrayBuilder)
        ensures
            r.attributes() == self.attributes().insert("items"@, items@.long_form()),
    {
        let mut r = self;
        r.items = Some(items.to_long_form());
        proof {
            lemma_keys_differ();
            assert(r.attributes() =~= self.attributes().insert("items"@, items@.long_form()));
        }
        r
    }
}

/// Builds a map.
pub struct MapBuilder {
    values: Option<JsonValue>,
}

impl MapBuilder {
    /// The attributes set so far.
    pub closed spec fn attributes(self) -> Map<Seq<char>, Json> {
        with(no_members().insert("type"@, Json::String("map"@)), "values"@, self.values)
    }

    /// The builder before any attribute is set.
    pub closed spec fn fresh() -> MapBuilder {
        MapBuilder {
            values: None,
        }
    }

    /// Before any attribute is set there is the `type` attribute alone.
    pub proof fn lemma_fresh_attributes()
        ensures
            MapBuilder::fresh().attributes() == no_members().insert("type"@, Json::String("map"@)),
    {
    }

    /// Starts with the `type` attribute alone.
    pub fn new() -> (r: MapBuilder)
        ensures
            r == MapBuilder::fresh(),
            r.attributes() == no_members().insert("type"@, Json::String("map"@)),
    {
        MapBuilder {
            values: None,
        }
    }

    /// The schema built.
    pub fn unwrap(self) -> (r: Schema)
        ensures
            r@ == SchemaModel::Object(Json::Object(self.attributes())),
    {
        let mut entries: Vec<(String, JsonValue)> = Vec::new();
        put(&mut entries, "type", Some(JsonValue::String("map".to_owned())));
        put(&mut entries, "values", self.values);
        Schema::Object(JsonValue::Object(entries))
    }

    /// Sets the type of the values, written in the long form.
    pub fn values(self, values: Schema) -> (r: MapBuilder)
        ensures
            r.attributes() == self.attributes().insert("values"@, values@.long_form()),
    {
        let mut r = self;
        r.values = Some(values.to_long_form());
        proof {
            lemma_keys_differ();
            assert(r.attributes() =~= self.attributes().insert("values"@, values@.long_form()));
        }
        r
    }
}

/// Builds a fixed.
pub struct FixedBuilder {
    aliases: Option<JsonValue>,
    name: Option<JsonValue>,
    namespace: Option<JsonValue>,
    size: Option<JsonValue>,
}

impl FixedBuilder {
    /// The attributes set so far.
    pub closed spec fn attributes(self) -> Map<Seq<char>, Json> {
        with(with(with(with(no_members(), "aliases"@, self.aliases), "name"@, self.name), "namespace"@, self.namespace), "size"@, self.size).insert("type"@, Json::String("fixed"@))
    }

    /// The builder before any attribute is set.
    pub closed spec fn fresh() -> FixedBuilder {
        FixedBuilder {
            aliases: None,
            name: None,
            namespace: None,
            size: None,
        }
    }

    /// Before any attribute is set there is the `type` attribute alone.
    pub proof fn lemma_fresh_attributes()
        ensures
            FixedBuilder::fresh().attributes() == no_members().insert("type"@, Json::String("fixed"@)),
    {
    }

    /// Starts with the `type` attribute alone.
    pub fn new() -> (r: FixedBuilder)
        ensures
            r == FixedBuilder::fresh(),
            r.attributes() == no_members().insert("type"@, Json::String("fixed"@)),
    {
        FixedBuilder {
            aliases: None,
            name: None,
            namespace: None,
            size: None,
        }
    }

    /// The schema built.
    pub fn unwrap(self) -> (r: Schema)
        ensures
            r@ == SchemaModel::Object(Json::Object(self.attributes())),
    {
        let mut entries: Vec<(String, JsonValue)> = Vec::new();
        put(&mut entries, "aliases", self.aliases);
        put(&mut entries, "name", self.name);
        put(&mut entries, "namespace", self.namespace);
        put(&mut entries, "size", self.size);
        put(&mut entries, "type", Some(JsonValue::String("fixed".to_owned())));
        Schema::Object(JsonValue::Object(entries))
    }

    /// Sets the name.
    pub fn name(self, n: String) -> (r: FixedBuilder)
        ensures
            r.attributes() == self.attributes().insert("name"@, Json::String(n@)),
    {
        let mut r = self;
        r.name = Some(JsonValue::String(n));
        proof {
            lemma_keys_differ();
            assert(r.attributes() =~= self.attributes().insert("name"@, Json::String(n@)));
        }
        r
    }
    /// Sets the namespace.
    pub fn namespace(self, ns: String) -> (r: FixedBuilder)
        ensures
            r.attributes() == self.attributes().insert("namespace"@, Json::String(ns@)),
    {
        let mut r = self;
        r.namespace = Some(JsonValue::String(ns));
        proof {
            lemma_keys_differ();
            assert(r.attributes() =~= self.attributes().insert("namespace"@, Json::String(ns@)));
        }
        r
    }
    /// Sets the other names.
    pub fn aliases(self, aliases: Vec<String>) -> (r: FixedBuilder)
        ensures
            r.attributes() == self.attributes().insert("aliases"@, string_array(aliases@)),
    {
        let mut r = self;
        r.aliases = Some(strings_value(aliases));
        proof {
            lemma_keys_differ();
            assert(r.attributes() =~= self.attributes().insert("aliases"@, string_array(aliases@)));
        }
        r
    }
    /// Sets the size in bytes.
    pub fn size(self, size: u64) -> (r: FixedBuilder)
        ensures
            r.attributes() == self.attributes().insert("size"@, Json::Int(size as int)),
    {
        let mut r = self;
        r.size = Some(JsonValue::U64(size));
        proof {
            lemma_keys_differ();
            assert(r.attributes() =~= self.attributes().insert("size"@, Json::Int(size as int)));
        }
        r
    }
}

/// Builds a union.
pub struct UnionBuilder {
    members: Vec<Schema>,
}

impl UnionBuilder {
    /// The members added so far.
    pub closed spec fn members(self) -> Seq<SchemaModel> {
        models_of(self.members@)
    }

    /// Starts without members.
    pub fn new() -> (r: UnionBuilder)
        ensures
            r.members() == Seq::<SchemaModel>::empty(),
    {
        let r = UnionBuilder { members: Vec::new() };
        assert(r.members() =~= Seq::<SchemaModel>::empty());
        r
    }

    /// The union built.
    pub fn unwrap(self) -> (r: Schema)
        ensures
            r@ == SchemaModel::Union(self.members()),
    {
        proof {
            lemma_union_content(self.members);
        }
        Schema::Union(self.members)
    }

    /// Adds a schema as it stands.
    pub fn push_schema(self, schema: Schema) -> (r: UnionBuilder)
        ensures
            r.members() == self.members().push(schema@),
    {
        let mut r = self;
        r.members.push(schema);
        proof {
            assert(r.members() =~= self.members().push(schema@));
        }
        r
    }

    /// Adds the record that `f` makes of a builder that has set nothing yet.
    pub fn push_record<F>(self, f: F) -> (r: UnionBuilder) where
        F: FnOnce(RecordBuilder) -> RecordBuilder,

        requires
            f.requires((RecordBuilder::fresh(),)),
        ensures
            exists|made: RecordBuilder|
                f.ensures((RecordBuilder::fresh(),), made) && r.members() == self.members().push(
                    SchemaModel::Object(Json::Object(made.attributes())),
                ),
    {
        let made = f(RecordBuilder::new());
        let ghost attributes = made.attributes();
        let schema = made.unwrap();
        let mut r = self;
        r.members.push(schema);
        proof {
            assert(r.members() =~= self.members().push(
                SchemaModel::Object(Json::Object(attributes)),
            ));
        }
        r
    }

    /// Adds the enum that `f` makes of a builder that has set nothing yet.
    pub fn push_enum<F>(self, f: F) -> (r: UnionBuilder) where
        F: FnOnce(EnumBuilder) -> EnumBuilder,

        requires
            f.requires((EnumBuilder::fresh(),)),
        ensures
            exists|made: EnumBuilder|
                f.ensures((EnumBuilder::fresh(),), made) && r.members() == self.members().push(
                    SchemaModel::Object(Json::Object(made.attributes())),
                ),
    {
        let made = f(EnumBuilder::new());
        let ghost attributes = made.attributes();
        let schema = made.unwrap();
        let mut r = self;
        r.members.push(schema);
        proof {
            assert(r.members() =~= self.members().push(
                SchemaModel::Object(Json::Object(attributes)),
            ));
        }
        r
    }

    /// Adds the array that `f` makes of a builder that has set nothing yet.
    pub fn push_array<F>(self, f: F) -> (r: UnionBuilder) where
        F: FnOnce(ArrayBuilder) -> ArrayBuilder,

        requires
            f.requires((ArrayBuilder::fresh(),)),
        ensures
            exists|made: ArrayBuilder|
                f.ensures((ArrayBuilder::fresh(),), made) && r.members() == self.members().push(
                    SchemaModel::Object(Json::Object(made.attributes())),
                ),
    {
        let made = f(ArrayBuilder::new());
        let ghost attributes = made.attributes();
        let schema = made.unwrap();
        let mut r = self;
        r.members.push(schema);
        proof {
            assert(r.members() =~= self.members().push(
                SchemaModel::Object(Json::Object(attributes)),
            ));
        }
        r
    }

    /// Adds the map that `f` makes of a builder that has set nothing yet.
    pub fn push_map<F>(self, f: F) -> (r: UnionBuilder) where
        F: FnOnce(MapBuilder) -> MapBuilder,

        requires
            f.requires((MapBuilder::fresh(),)),
        ensures
            exists|made: MapBuilder|
                f.ensures((MapBuilder::fresh(),), made) && r.members() == self.members().push(
                    SchemaModel::Object(Json::Object(made.attributes())),
                ),
    {
        let made = f(MapBuilder::new());
        let ghost attributes = made.attributes();
        let schema = made.unwrap();
        let mut r = self;
        r.members.push(schema);
        proof {
            assert(r.members() =~= self.members().push(
                SchemaModel::Object(Json::Object(attributes)),
            ));
        }
        r
    }

    /// Adds the fixed that `f` makes of a builder that has set nothing yet.
    pub fn push_fixed<F>(self, f: F) -> (r: UnionBuilder) where
        F: FnOnce(FixedBuilder) -> FixedBuilder,

        requires
            f.requires((FixedBuilder::fresh(),)),
        ensures
            exists|made: FixedBuilder|
                f.ensures((FixedBuilder::fresh(),), made) && r.members() == self.members().push(
                    SchemaModel::Object(Json::Object(made.attributes())),
                ),
    {
        let made = f(FixedBuilder::new());
        let ghost attributes = made.attributes();
        let schema = made.unwrap();
        let mut r = self;
        r.members.push(schema);
        proof {
            assert(r.members() =~= self.members().push(
                SchemaModel::Object(Json::Object(attributes)),
            ));
        }
        r
    }
}

} // verus!
