//! The closed error taxonomy of the repository layer. The four kinds stay
//! distinguishable all the way up to the caller, so that an HTTP layer can
//! map them to status codes without ambiguity.

use vstd::prelude::*;

verus! {

/// Everything a repository operation can fail with.
#[derive(Debug)]
pub enum Error {
    /// The input failed a field-level or struct-level constraint before any
    /// write was attempted. Carries the name of the offending field.
    ValidationError(String),
    /// The referenced record does not exist.
    NotFound,
    /// The write would violate a referential-integrity constraint, such as a
    /// relation pointing at a nonexistent child entity.
    ConstraintError,
    /// Any other storage-level failure, kept opaque.
    StorageError,
}

impl Error {
    /// A short tag for logs and tests; the validation payload is the field name.
    pub fn kind(&self) -> (r: &'static str)
        ensures
            self is ValidationError ==> r@ == "validation"@,
            self is NotFound ==> r@ == "not_found"@,
            self is ConstraintError ==> r@ == "constraint"@,
            self is StorageError ==> r@ == "storage"@,
    {
        match self {
            Error::ValidationError(_) => "validation",
            Error::NotFound => "not_found",
            Error::ConstraintError => "constraint",
            Error::StorageError => "storage",
        }
    }
}

} // verus!
