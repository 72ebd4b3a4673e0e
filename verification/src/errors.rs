//! Error taxonomy of the persistence layer.
//!
//! Every fallible operation reports one of these variants; nothing in this
//! crate aborts the process. Operations that a record type does not support
//! report `Unsupported` instead of panicking.

use vstd::prelude::*;

verus! {

/// The reasons a store operation can fail.
#[derive(Clone, Copy, Debug, PartialEq, Eq, Structural)]
pub enum DbError {
    /// The store cannot be reached or refused authentication.
    ConnectionError,
    /// A search or load yielded nothing.
    NotFound,
    /// An operation expecting exactly one record found more than one.
    MultipleResultsFound,
    /// A search named a sort key outside the allow-list.
    InvalidSortKey,
    /// A by-identifier search was made without an identifier.
    MissingIdentifier,
    /// A delete affected a number of documents other than one.
    DeleteAnomaly,
    /// An insert violated the unique identifier index.
    DuplicateKey,
    /// A stored checkpoint payload does not decode to the expected shape.
    DecodeError,
    /// The record type does not support this operation.
    Unsupported,
}

} // verus!
