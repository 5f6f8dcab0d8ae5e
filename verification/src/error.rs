//! The errors that the library reports.

use vstd::prelude::*;

verus! {

/// A descriptor or a schema lacks a part that it must have.
#[derive(Clone, Copy, Debug, PartialEq, Eq, Structural)]
pub enum SchemaError {
    /// The descriptor has no response schema.
    NoResponse,
    /// A schema of type `object` has no `properties`.
    NoProperties,
    /// A schema of type `array` has no `items` object.
    NoItems,
}

/// Schema data is not formed as schema data must be.
#[derive(Clone, Copy, Debug, PartialEq, Eq, Structural)]
pub enum DecodeError {
    /// `properties` is no object.
    PropertiesNotObject,
    /// `required` is no list.
    RequiredNotList,
}

/// Why a schema could not be compiled.
#[derive(Clone, Copy, Debug, PartialEq, Eq, Structural)]
pub enum CompileError {
    Decode(DecodeError),
    Schema(SchemaError),
}

/// The queue was started with a rate limit of zero.
#[derive(Clone, Copy, Debug, PartialEq, Eq, Structural)]
pub struct ConfigError;

/// A descriptor could not be fetched.
#[derive(Clone, Debug, PartialEq)]
pub struct FetchError {
    pub message: String,
}

/// The kind of failure that a task ended with.
#[derive(Clone, Copy, Debug, PartialEq, Eq, Structural)]
pub enum ErrorKind {
    NetworkError,
    DecodeError,
    SchemaError,
}

/// The words that describe an error.
pub open spec fn error_text(e: CompileError) -> Seq<char> {
    match e {
        CompileError::Schema(SchemaError::NoResponse) => "response json is none"@,
        CompileError::Schema(SchemaError::NoProperties) => "object schema has no properties"@,
        CompileError::Schema(SchemaError::NoItems) => "array schema has no items object"@,
        CompileError::Decode(DecodeError::PropertiesNotObject) => "properties is not an object"@,
        CompileError::Decode(DecodeError::RequiredNotList) => "required is not a list"@,
    }
}

impl CompileError {
    /// The kind under which the queue reports the error.
    pub open spec fn spec_kind(self) -> ErrorKind {
        match self {
            CompileError::Decode(_) => ErrorKind::DecodeError,
            CompileError::Schema(_) => ErrorKind::SchemaError,
        }
    }

    /// The kind under which the queue reports the error.
    #[verifier::when_used_as_spec(spec_kind)]
    pub fn kind(self) -> (r: ErrorKind)
        ensures
            r == self.spec_kind(),
    {
        match self {
            CompileError::Decode(_) => ErrorKind::DecodeError,
            CompileError::Schema(_) => ErrorKind::SchemaError,
        }
    }

    /// The words that describe the error.
    pub fn message(self) -> (r: String)
        ensures
            r@ == error_text(self),
    {
        match self {
            CompileError::Schema(SchemaError::NoResponse) => String::from_str(
                "response json is none",
            ),
            CompileError::Schema(SchemaError::NoProperties) => String::from_str(
                "object schema has no properties",
            ),
            CompileError::Schema(SchemaError::NoItems) => String::from_str(
                "array schema has no items object",
            ),
            CompileError::Decode(DecodeError::PropertiesNotObject) => String::from_str(
                "properties is not an object",
            ),
            CompileError::Decode(DecodeError::RequiredNotList) => String::from_str(
                "required is not a list",
            ),
        }
    }
}

} // verus!
