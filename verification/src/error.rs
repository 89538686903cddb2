//! The errors of the library.

use vstd::prelude::*;
use std::path::PathBuf;

verus! {

#[verifier::external_type_specification]
#[verifier::external_body]
pub struct ExPathBuf(PathBuf);

/// Why a store could not be set up.
#[derive(Debug)]
pub enum Error {
    /// The given root is not a directory.
    NotADirectory(PathBuf),
}

/// Why an object request was refused, by the S3 error code that answers it.
#[derive(Debug, Clone, Copy, PartialEq, Eq, Structural)]
pub enum ObjectError {
    /// No object is stored under the key.
    NoSuchKey,
    /// The requested byte range cannot be satisfied.
    InvalidRange,
    /// The storage class is not one the store offers.
    InvalidStorageClass,
    /// The request carries no body.
    IncompleteBody,
    /// A length does not fit in the field that reports it.
    InternalError,
}

} // verus!
