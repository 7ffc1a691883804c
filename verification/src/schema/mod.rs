//! The schema model and the operations on it.

pub use self::builder::{
    ArrayBuilder,
    EnumBuilder,
    FieldArrayBuilder,
    FieldBuilder,
    FixedBuilder,
    MapBuilder,
    RecordBuilder,
    SymbolBuilder,
    UnionBuilder,
};
pub use self::de::from_str;
pub use self::json::{JsonFloat, JsonKind, JsonValue};
pub use self::model::{FieldSortOrder, Schema};
pub use self::ser::to_string;

pub mod adapter;
pub mod builder;
pub mod de;
pub mod error;
pub mod json;
pub mod laws;
pub mod model;
pub mod name;
pub mod ser;
pub mod text;
pub mod validate;
