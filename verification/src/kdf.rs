//! Key derivation: a password and a random salt become a fixed-size
//! symmetric key through a memory-hard password hash.

use vstd::prelude::*;

verus! {

/// The 32-byte key that Argon2id (version 19, the crate's default work
/// parameters) derives from a password and a salt. A function of its
/// arguments alone: the same password and salt always give the same key,
/// which is what lets extraction reproduce the embed-time key.
pub uninterp spec fn argon2id_key(password: Seq<u8>, salt: Seq<u8>) -> Seq<u8>;

/// Relies on argon2's `Argon2::hash_password_into` with the crate's default
/// parameters (Argon2id, version 19): deterministic in password and salt,
/// and it fills the whole 32-byte output buffer. Its source accepts every
/// password of at most 2^32 - 1 bytes and every salt of 8 to 2^32 - 1
/// bytes, and a 32-byte output never trips its length checks, so under
/// this item's `requires` the call cannot fail.
#[verifier::external_body]
pub(crate) fn derive_key(password: &[u8], salt: &[u8]) -> (r: Vec<u8>)
    requires
        password@.len() <= u32::MAX,
        8 <= salt@.len() <= u32::MAX,
    ensures
        r@ == argon2id_key(password@, salt@),
        r@.len() == 32,
{
    let mut key = vec![0u8; 32];
    argon2::Argon2::default().hash_password_into(password, salt, &mut key).expect(
        "argon2 accepts these input lengths",
    );
    key
}

} // verus!
