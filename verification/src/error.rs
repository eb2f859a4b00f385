//! The library's errors.
use vstd::prelude::*;

verus! {

/// Errors produced by the library's own logic.
#[derive(Debug, PartialEq, Eq)]
pub enum Error {
    InvalidTableName { name: String, reason: String },
    InvalidInput { message: String },
    DatabaseNotFound { name: String },
    DatabaseAlreadyExists { name: String },
    IndexNotFound { name: String },
    EmbeddingFunctionNotFound { name: String, reason: String },
    TableAlreadyExists { name: String },
    Schema { message: String },
    Runtime { message: String },
    Timeout { message: String },
    NotSupported { message: String },
}

/// Result type of the library.
pub type Result<T> = std::result::Result<T, Error>;

} // verus!
