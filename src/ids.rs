use vstd::prelude::*;

verus! {

/// An entity identifier: the 128-bit value of a UUID.
pub type EntityId = u128;

/// The text of a UUID as `uuid::Uuid`'s `Display` writes it (hyphenated,
/// lower-case hexadecimal).
pub uninterp spec fn uuid_text(id: u128) -> Seq<char>;

/// Relies on `uuid::Uuid::new_v4` and `Uuid::as_u128`: a random version-4 UUID.
/// Nothing is promised of the value.
#[verifier::external_body]
pub(crate) fn new_id() -> (r: EntityId) {
    uuid::Uuid::new_v4().as_u128()
}

/// Relies on `uuid::Uuid::from_u128` and `Uuid`'s `Display`: the text of the
/// UUID with the given value, which depends on the value alone.
#[verifier::external_body]
pub(crate) fn id_text(id: EntityId) -> (r: String)
    ensures
        r@ == uuid_text(id),
{
    uuid::Uuid::from_u128(id).to_string()
}

} // verus!
