//! Fresh instance identifiers.

use vstd::prelude::*;

verus! {

/// Draws a random identifier with `uuid::Uuid::new_v4` and writes it in the
/// hyphenated form of `Uuid`'s `Display`, which is always 36 characters long.
/// Which identifier comes out is left open.
#[verifier::external_body]
pub(crate) fn mint_id() -> (id: String)
    ensures
        id@.len() == 36,
{
    uuid::Uuid::new_v4().to_string()
}

} // verus!
