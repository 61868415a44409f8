//! Trusted declarations of rusqlite's connection and error types. Values of
//! these types are opaque; the index and the geocoding cache wrap every call
//! that touches them.

use vstd::prelude::*;

verus! {

/// rusqlite's database connection, opaque to verification.
#[verifier::external_type_specification]
#[verifier::external_body]
pub struct ExConnection(rusqlite::Connection);

/// rusqlite's error type, opaque to verification.
#[verifier::external_type_specification]
#[verifier::external_body]
pub struct ExRusqliteError(rusqlite::Error);

} // verus!
