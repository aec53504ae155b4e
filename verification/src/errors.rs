//! The error taxonomy of the layer.
//!
//! Every fallible operation returns a typed result; errors propagate to the
//! caller unchanged. The only local recovery offered anywhere is turning a
//! lookup miss into an empty option (`Email::get_opt`).

use vstd::prelude::*;

verus! {

/// Why a script-supplied record was rejected by the script bridge.
#[derive(Debug, PartialEq)]
pub enum ValidationKind {
    /// A required field is absent. Carries the field name.
    MissingField(String),
    /// A field is present but has the wrong shape. Carries the field name.
    TypeMismatch(String),
}

/// The error taxonomy of the whole layer.
#[derive(Debug, PartialEq)]
pub enum Error {
    /// A natural-key or id lookup missed.
    NotFound,
    /// An insert clashed with an existing natural key.
    ConstraintViolation,
    /// The script bridge rejected a loosely-typed record.
    Validation(ValidationKind),
    /// A failure of the backing store itself, wrapping its description.
    Store(String),
    /// An association row references an entity that is gone: corrupted state.
    /// Carries the dangling referenced id.
    IntegrityFault(i32),
}

impl Error {
    /// A short description of the error kind, for messages shown to a caller.
    pub fn describe(&self) -> (r: &'static str)
        ensures
            r@ == match self {
                Error::NotFound => "not found"@,
                Error::ConstraintViolation => "unique constraint violation"@,
                Error::Validation(ValidationKind::MissingField(_)) => "missing field"@,
                Error::Validation(ValidationKind::TypeMismatch(_)) => "wrong field type"@,
                Error::Store(_) => "store failure"@,
                Error::IntegrityFault(_) => "dangling reference"@,
            },
    {
        match self {
            Error::NotFound => "not found",
            Error::ConstraintViolation => "unique constraint violation",
            Error::Validation(ValidationKind::MissingField(_)) => "missing field",
            Error::Validation(ValidationKind::TypeMismatch(_)) => "wrong field type",
            Error::Store(_) => "store failure",
            Error::IntegrityFault(_) => "dangling reference",
        }
    }
}

} // verus!
