//! Random bytes.

use vstd::prelude::*;

verus! {

/// `rand::fill` on a fresh buffer of `len` bytes. Nothing is known of the
/// bytes that come back but their number.
#[verifier::external_body]
fn random_fill(len: usize) -> (r: Vec<u8>)
    ensures
        r@.len() == len,
{
    let mut bytes = vec![0u8; len];
    rand::fill(&mut bytes[..]);
    bytes
}

/// Makes `len` random bytes, at least one.
pub fn gen_random_bytes(len: usize) -> (r: Vec<u8>)
    requires
        len > 0,
    ensures
        r@.len() == len,
{
    random_fill(len)
}

/// `uuid::Uuid::new_v4`, as a number. Nothing is known of the identifier
/// that comes back.
#[verifier::external_body]
pub(crate) fn fresh_id() -> crate::models::Uuid {
    uuid::Uuid::new_v4().as_u128()
}

} // verus!
