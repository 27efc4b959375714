use vstd::prelude::*;

verus! {

/// Whether an id carries the marks of a random (version-4) id: the version 4 in bits 76
/// to 79 and the RFC 4122 variant (binary 10) in bits 62 and 63.
pub open spec fn is_v4_id(id: u128) -> bool {
    (id >> 76u128) & 0xfu128 == 4 && (id >> 62u128) & 0x3u128 == 2
}

/// Makes a random version-4 id.
///
/// Trusted: calls `uuid::Uuid::new_v4` and takes the id's 128 bits with `as_u128`, which
/// reads the id's bytes big-endian. `new_v4` masks a random number and sets the version
/// and variant bits, so every id it makes carries them; the other bits are random and
/// nothing is stated of them.
#[verifier::external_body]
pub(crate) fn new_uuid() -> (id: u128)
    ensures
        is_v4_id(id),
{
    uuid::Uuid::new_v4().as_u128()
}

} // verus!
