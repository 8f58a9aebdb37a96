use vstd::prelude::*;

verus! {

/// Calls `uuid::Uuid::new_v4()` and formats it with `to_string()`.
///
/// The value is random, so nothing ties it to an input; uuid documents the
/// string form as the hyphenated one, `xxxxxxxx-xxxx-xxxx-xxxx-xxxxxxxxxxxx`,
/// which is 36 characters long. That length is all this contract claims.
#[verifier::external_body]
pub(crate) fn random_uuid_string() -> (id: String)
    ensures
        id@.len() == 36,
{
    uuid::Uuid::new_v4().to_string()
}

} // verus!
