//! The ways in which an operation of this library refuses its input.

use vstd::prelude::*;

verus! {

/// Why an operation refused its input.
#[derive(Debug, Clone, Copy, PartialEq, Eq, Structural)]
pub enum GuardError {
    /// The data is shorter than the marker, so it cannot be a packaged file.
    TooSmall,
    /// The data is long enough but does not start with the marker.
    NotTagged,
    /// The data already starts with the marker and would be packaged twice.
    AlreadyTagged,
    /// The configuration record lacks its section or a field, holds a token
    /// that is no hexadecimal byte, or holds an empty key.
    ConfigMalformed,
    /// The configuration record could not be rendered as text.
    ConfigUnwritable,
    /// Two exports of the secret material declare different bytes for the
    /// named field.
    ConsistencyMismatch(Field),
}

/// Why an exported declaration could not be read back.
#[derive(Debug, Clone, Copy, PartialEq, Eq, Structural)]
pub enum ExportError {
    /// The text holds no declaration of the field that was asked for.
    DefinitionNotFound,
    /// The declaration is opened but no closing `];` ends its array.
    Unterminated,
}

/// The syntax of an export.
#[derive(Debug, Clone, Copy, PartialEq, Eq, Structural)]
pub enum Syntax {
    Rust,
    Php,
}

/// A field of the secret material.
#[derive(Debug, Clone, Copy, PartialEq, Eq, Structural)]
pub enum Field {
    Header,
    Key,
}

/// Which field of which export could not be read, and why.
#[derive(Debug, Clone, Copy, PartialEq, Eq, Structural)]
pub struct ReadFailure {
    pub syntax: Syntax,
    pub field: Field,
    pub cause: ExportError,
}

} // verus!
