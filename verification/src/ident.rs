//! Unique identifiers: snakes and clients are told apart by random UUIDs.

use vstd::prelude::*;
use uuid::Uuid;

verus! {

#[verifier::external_type_specification]
#[verifier::external_body]
pub struct ExUuid(Uuid);

/// `uuid::Uuid` derives `Clone` and `Copy`: a clone is the same value.
pub assume_specification[ <Uuid as Clone>::clone ](u: &Uuid) -> (r: Uuid)
    ensures
        r == *u,
;

/// Calls `uuid::Uuid::new_v4`, which draws a fresh random (version 4) UUID.
/// Nothing is claimed about the value, which depends on the random source.
#[verifier::external_body]
pub(crate) fn new_uuid() -> (id: Uuid) {
    Uuid::new_v4()
}

/// Calls `<uuid::Uuid as PartialEq>::eq`, which the crate derives: two UUIDs
/// are equal exactly when they are the same 16 bytes, that is the same value.
#[verifier::external_body]
pub(crate) fn uuid_eq(a: &Uuid, b: &Uuid) -> (r: bool)
    ensures
        r == (*a == *b),
{
    a == b
}

} // verus!
