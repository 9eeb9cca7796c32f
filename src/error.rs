use vstd::prelude::*;
use vstd::string::*;

verus! {

/// The kinds of failure that the storage layer and the aggregation engine report.
#[derive(Clone, Copy, Debug, PartialEq, Eq, Structural)]
pub enum ErrorKind {
    /// Malformed input at the boundary: a bad date, a bad unit token, an empty name.
    Validation,
    /// A referenced food, serving or entry does not exist.
    NotFound,
    /// A cross-entity constraint is violated: the serving belongs to another food.
    Integrity,
    /// The store cannot take the operation: ids are exhausted, or the store is unavailable.
    Storage,
    /// A computed quantity does not fit in the fixed-point representation.
    Overflow,
}

/// An error with its kind and a human-readable message.
#[derive(Debug)]
pub struct AppError {
    pub kind: ErrorKind,
    pub message: String,
}

impl AppError {
    /// An error of kind `Storage` with the given message.
    pub fn new(message: &str) -> (r: AppError)
        ensures
            r.kind == ErrorKind::Storage,
            r.message@ == message@,
    {
        AppError { kind: ErrorKind::Storage, message: String::from_str(message) }
    }

    /// An error of the given kind with the given message.
    pub fn with_kind(kind: ErrorKind, message: &str) -> (r: AppError)
        ensures
            r.kind == kind,
            r.message@ == message@,
    {
        AppError { kind, message: String::from_str(message) }
    }

    /// The text shown to a user: `Error: ` followed by the message.
    pub fn to_display_string(&self) -> (r: String)
        ensures
            r@ == "Error: "@ + self.message@,
    {
        let prefix = String::from_str("Error: ");
        prefix.concat(self.message.as_str())
    }
}

} // verus!
