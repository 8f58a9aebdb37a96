//! The SQLite error type as it crosses into the library.
use vstd::prelude::*;

verus! {

/// `rusqlite::Error`, carried through opaquely.
#[verifier::external_type_specification]
#[verifier::external_body]
pub struct ExSqliteError(rusqlite::Error);

/// Calls `ToString::to_string` on a `rusqlite::Error`, which formats it with
/// its `Display` impl. The text depends on the error's contents, which the
/// library cannot see, so nothing is stated of it.
#[verifier::external_body]
pub(crate) fn sqlite_error_text(error: &rusqlite::Error) -> String {
    error.to_string()
}

} // verus!
