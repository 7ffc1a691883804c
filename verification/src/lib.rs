//! Schemas of a record-oriented data format, written as JSON text: a typed
//! model of a schema, a reader and a writer for its text, and the rules that
//! decide whether a schema is valid.

pub mod schema;
