//! What can go wrong while a schema is read, written or validated.

use vstd::prelude::*;

verus! {

/// The class of a failure reported by the JSON reader or writer.
#[derive(Clone, Copy, PartialEq, Eq, Debug, Structural)]
pub enum JsonErrorKind {
    /// The underlying byte stream failed.
    Io,
    /// The text is not JSON.
    Syntax,
    /// The text is JSON of an unexpected shape.
    Data,
    /// The text ends in the middle of a value.
    Eof,
}

/// A failure of the JSON reader or writer, with the place where it arose.
#[derive(Clone, Copy, PartialEq, Eq, Debug, Structural)]
pub struct JsonFailure {
    pub kind: JsonErrorKind,
    pub line: usize,
    pub column: usize,
}

/// The reason a schema was rejected.
#[derive(Clone, Copy, PartialEq, Eq, Debug, Structural)]
pub enum ErrorCode {
    Unknown,
    NotValidPrimitiveType,
    NotValidComplexType,
    NotValidArrayItemsType,
    NotValidType,
    ExpectedTypeAttribute,
    ExpectedFieldDefinition,
    ExpectedFieldTypeAttribute,
    ExpectedItemsAttribute,
    ExpectedValuesAttribute,
    FieldDefaultTypeMismatch,
    FieldTooManyElementsOfSameType,
    UnknownFieldType,
    NotWellFormedName,
    FieldNameNotWellFormed,
    CannotNestArrays,
    /// A failure of the JSON reader or writer.
    JsonErrorCode(JsonErrorKind),
}

impl ErrorCode {
    /// The text that describes the code.
    pub open spec fn text(self) -> Seq<char> {
        match self {
            ErrorCode::Unknown => "unexpected error"@,
            ErrorCode::NotValidPrimitiveType => "not a valid primitive data type"@,
            ErrorCode::NotValidComplexType => "not a valid complex data type"@,
            ErrorCode::NotValidArrayItemsType => "not a valid array items type"@,
            ErrorCode::NotValidType => "not a valid type (i.e., integer, boolean)"@,
            ErrorCode::ExpectedTypeAttribute => "expected type attribute for complex type"@,
            ErrorCode::ExpectedFieldDefinition => "expected one or more record field definitions"@,
            ErrorCode::ExpectedFieldTypeAttribute => "expected type attribute for field"@,
            ErrorCode::ExpectedItemsAttribute => "expected items attribute for array type"@,
            ErrorCode::ExpectedValuesAttribute => "expected values attribute for map type"@,
            ErrorCode::FieldDefaultTypeMismatch => "field default type does not match field type"@,
            ErrorCode::FieldTooManyElementsOfSameType => "field union type has too many elements of the same schema type"@,
            ErrorCode::UnknownFieldType => "field type is unexpected/unknown"@,
            ErrorCode::NotWellFormedName => "name is not valid/well formed"@,
            ErrorCode::FieldNameNotWellFormed => "field name is not valid/well formed"@,
            ErrorCode::CannotNestArrays => "arrays cannot be nested"@,
            ErrorCode::JsonErrorCode(kind) => match kind {
                JsonErrorKind::Io => "JSON input or output failed"@,
                JsonErrorKind::Syntax => "JSON text is not well formed"@,
                JsonErrorKind::Data => "JSON text has an unexpected shape"@,
                JsonErrorKind::Eof => "JSON text ends too early"@,
            },
        }
    }

    /// The text that describes the code.
    pub fn message(&self) -> (r: &'static str)
        ensures
            r@ == self.text(),
    {
        match *self {
            ErrorCode::Unknown => "unexpected error",
            ErrorCode::NotValidPrimitiveType => "not a valid primitive data type",
            ErrorCode::NotValidComplexType => "not a valid complex data type",
            ErrorCode::NotValidArrayItemsType => "not a valid array items type",
            ErrorCode::NotValidType => "not a valid type (i.e., integer, boolean)",
            ErrorCode::ExpectedTypeAttribute => "expected type attribute for complex type",
            ErrorCode::ExpectedFieldDefinition => "expected one or more record field definitions",
            ErrorCode::ExpectedFieldTypeAttribute => "expected type attribute for field",
            ErrorCode::ExpectedItemsAttribute => "expected items attribute for array type",
            ErrorCode::ExpectedValuesAttribute => "expected values attribute for map type",
            ErrorCode::FieldDefaultTypeMismatch => "field default type does not match field type",
            ErrorCode::FieldTooManyElementsOfSameType => "field union type has too many elements of the same schema type",
            ErrorCode::UnknownFieldType => "field type is unexpected/unknown",
            ErrorCode::NotWellFormedName => "name is not valid/well formed",
            ErrorCode::FieldNameNotWellFormed => "field name is not valid/well formed",
            ErrorCode::CannotNestArrays => "arrays cannot be nested",
            ErrorCode::JsonErrorCode(kind) => match kind {
                JsonErrorKind::Io => "JSON input or output failed",
                JsonErrorKind::Syntax => "JSON text is not well formed",
                JsonErrorKind::Data => "JSON text has an unexpected shape",
                JsonErrorKind::Eof => "JSON text ends too early",
            },
        }
    }
}

/// An error of the library.
#[derive(PartialEq, Eq, Debug)]
pub enum Error {
    /// The code, then the line and the column where the text failed (both 0
    /// where no place is known).
    SyntaxError(ErrorCode, usize, usize),
    /// A failure of input or output, with a description of its cause.
    IoError(String),
    /// A required attribute is missing; its name.
    MissingAttributeError(&'static str),
}

impl Error {
    /// The error of a rule that names no place in the text.
    pub open spec fn rule(code: ErrorCode) -> Error {
        Error::SyntaxError(code, 0, 0)
    }

    /// The error that stands for a failure of the JSON reader or writer.
    pub open spec fn of_json(failure: JsonFailure) -> Error {
        Error::SyntaxError(ErrorCode::JsonErrorCode(failure.kind), failure.line, failure.column)
    }

    /// A short description of the kind of error.
    pub open spec fn description_text(self) -> Seq<char> {
        match self {
            Error::SyntaxError(..) => "syntax error"@,
            Error::IoError(cause) => cause@,
            Error::MissingAttributeError(_) => "missing required attribute"@,
        }
    }

    /// A short description of the kind of error.
    pub fn description(&self) -> (r: &str)
        ensures
            r@ == self.description_text(),
    {
        match self {
            Error::SyntaxError(..) => "syntax error",
            Error::IoError(cause) => cause.as_str(),
            Error::MissingAttributeError(_) => "missing required attribute",
        }
    }

    /// Builds the error of a rule that names no place in the text.
    pub fn from_code(code: ErrorCode) -> (r: Error)
        ensures
            r == Error::rule(code),
    {
        Error::SyntaxError(code, 0, 0)
    }

    /// Builds the error that stands for a failure of the JSON reader or writer.
    pub fn from_json(failure: JsonFailure) -> (r: Error)
        ensures
            r == Error::of_json(failure),
    {
        Error::SyntaxError(ErrorCode::JsonErrorCode(failure.kind), failure.line, failure.column)
    }
}

} // verus!
