//! Password hashes.

use vstd::prelude::*;

verus! {

/// The length of a password hash.
pub const LENGTH: usize = 32;

/// The shortest salt that the hash takes.
pub const MIN_SALT: usize = 8;

/// The Argon2i hash of a password with a salt, at the default cost.
pub uninterp spec fn argon2i(password: Seq<u8>, salt: Seq<u8>) -> Seq<u8>;

/// Whether a password and a salt can be hashed: the salt has eight bytes
/// or more, and neither is longer than thirty-two bits can count.
pub open spec fn hashable(password: Seq<u8>, salt: Seq<u8>) -> bool {
    password.len() <= u32::MAX && MIN_SALT <= salt.len() <= u32::MAX
}

/// `argon2rs::Argon2::hash` of the default Argon2i, with neither secret
/// nor associated data, into thirty-two bytes.
#[verifier::external_body]
fn argon2i_hash(password: &[u8], salt: &[u8]) -> (r: Vec<u8>)
    requires
        hashable(password@, salt@),
    ensures
        r@ == argon2i(password@, salt@),
        r@.len() == LENGTH,
{
    let mut passhash = [0u8; argon2rs::defaults::LENGTH];
    let a2 = argon2rs::Argon2::default(argon2rs::Variant::Argon2i);
    a2.hash(&mut passhash, password, salt, &[], &[]);
    passhash.to_vec()
}

/// `argon2rs::verifier::constant_eq`: whether two byte strings are the
/// same, in a time that does not tell where they differ.
#[verifier::external_body]
fn constant_eq(xs: &[u8], ys: &[u8]) -> (r: bool)
    ensures
        r == (xs@ == ys@),
{
    argon2rs::verifier::constant_eq(xs, ys)
}

/// Hashes a password with a salt.
pub fn generate_passhash(password: &[u8], salt: &[u8]) -> (r: Vec<u8>)
    requires
        hashable(password@, salt@),
    ensures
        r@ == argon2i(password@, salt@),
        r@.len() == LENGTH,
{
    argon2i_hash(password, salt)
}

/// Whether a password, hashed with the salt, gives the stored hash.
pub fn verify(stored: &[u8], supplied: &[u8], salt: &[u8]) -> (r: bool)
    requires
        hashable(supplied@, salt@),
    ensures
        r == (stored@ == argon2i(supplied@, salt@)),
{
    let hash = generate_passhash(supplied, salt);
    constant_eq(stored, hash.as_slice())
}

/// Whether a password, hashed with the salt, gives the stored hash; a
/// password or a salt that cannot be hashed gives no hash at all.
pub fn try_verify(stored: &[u8], supplied: &[u8], salt: &[u8]) -> (r: bool)
    ensures
        r == (hashable(supplied@, salt@) && stored@ == argon2i(supplied@, salt@)),
{
    if supplied.len() > u32::MAX as usize || salt.len() < MIN_SALT || salt.len()
        > u32::MAX as usize {
        return false;
    }
    verify(stored, supplied, salt)
}

} // verus!
