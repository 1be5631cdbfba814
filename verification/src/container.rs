//! The authenticated container codec: builds and opens the on-the-wire
//! layout `nonce (12) ‖ salt (16) ‖ ciphertext`, driving the AEAD.

use vstd::prelude::*;
use crate::errors::StegoError;
use crate::kdf::{argon2id_key, derive_key};
use aes_gcm::aead::{Aead, KeyInit};
use aes_gcm::{Aes256Gcm, Key, Nonce};

verus! {

/// What AES-256-GCM encryption of `plaintext` under `key` and `nonce`
/// yields: the ciphertext with the 16-byte authentication tag appended.
/// A function of its arguments alone.
pub uninterp spec fn aes256gcm_seal(key: Seq<u8>, nonce: Seq<u8>, plaintext: Seq<u8>) -> Seq<u8>;

/// What AES-256-GCM decryption of `ciphertext` under `key` and `nonce`
/// yields: the plaintext where the authentication tag verifies, `None`
/// where it does not. A function of its arguments alone.
pub uninterp spec fn aes256gcm_open(key: Seq<u8>, nonce: Seq<u8>, ciphertext: Seq<u8>) -> Option<
    Seq<u8>,
>;

/// Relies on aes_gcm's `Aes256Gcm` (`Aead::encrypt`): deterministic in key,
/// nonce and plaintext; returns the ciphertext with a 16-byte tag appended;
/// accepts every plaintext of at most 2^36 bytes; and its source shows that
/// `Aead::decrypt` with the same key and nonce inverts it exactly.
#[verifier::external_body]
fn aead_encrypt(key: &[u8], nonce: &[u8], plaintext: &[u8]) -> (r: Result<Vec<u8>, StegoError>)
    requires
        key@.len() == 32,
        nonce@.len() == 12,
    ensures
        r matches Ok(c) ==> c@ == aes256gcm_seal(key@, nonce@, plaintext@),
        r matches Ok(c) ==> c@.len() == plaintext@.len() + 16,
        r matches Ok(c) ==> aes256gcm_open(key@, nonce@, c@) == Some(plaintext@),
        r matches Err(e) ==> e == StegoError::EncryptionFailed,
        plaintext@.len() <= 0x10_0000_0000 ==> r is Ok,
{
    let cipher = Aes256Gcm::new(Key::<Aes256Gcm>::from_slice(key));
    cipher.encrypt(Nonce::from_slice(nonce), plaintext).map_err(|_| StegoError::EncryptionFailed)
}

/// Relies on aes_gcm's `Aes256Gcm` (`Aead::decrypt`): deterministic in key,
/// nonce and ciphertext; returns the plaintext exactly where the
/// authentication tag verifies and an error everywhere else.
#[verifier::external_body]
fn aead_decrypt(key: &[u8], nonce: &[u8], ciphertext: &[u8]) -> (r: Result<Vec<u8>, StegoError>)
    requires
        key@.len() == 32,
        nonce@.len() == 12,
    ensures
        r matches Ok(p) ==> aes256gcm_open(key@, nonce@, ciphertext@) == Some(p@),
        r matches Err(e) ==> e == StegoError::AuthenticationFailed && aes256gcm_open(
            key@,
            nonce@,
            ciphertext@,
        ) is None,
{
    let cipher = Aes256Gcm::new(Key::<Aes256Gcm>::from_slice(key));
    cipher.decrypt(Nonce::from_slice(nonce), ciphertext).map_err(
        |_| StegoError::AuthenticationFailed,
    )
}

/// What opening a container with a password yields: the first 12 bytes are
/// the nonce, the next 16 the salt, the rest the ciphertext; the key is
/// derived from the password and the extracted salt. `None` where the
/// container is too short or the tag does not verify.
pub open spec fn open_spec(container: Seq<u8>, password: Seq<u8>) -> Option<Seq<u8>> {
    if container.len() < 28 {
        None
    } else {
        aes256gcm_open(
            argon2id_key(password, container.subrange(12, 28)),
            container.subrange(0, 12),
            container.subrange(28, container.len() as int),
        )
    }
}

/// Encrypts `payload` under `key` and `nonce` and returns the container
/// `nonce ‖ salt ‖ ciphertext`, whose ciphertext decrypts back to the
/// payload under the same key and nonce.
pub fn seal_container(payload: &Vec<u8>, key: &Vec<u8>, nonce: &Vec<u8>, salt: &Vec<u8>) -> (r:
    Vec<u8>)
    requires
        key@.len() == 32,
        nonce@.len() == 12,
        salt@.len() == 16,
        payload@.len() <= 0x10_0000_0000,
    ensures
        r@ == nonce@ + salt@ + aes256gcm_seal(key@, nonce@, payload@),
        r@.len() == 44 + payload@.len(),
        r@.subrange(0, 12) == nonce@,
        r@.subrange(12, 28) == salt@,
        aes256gcm_open(key@, nonce@, r@.subrange(28, r@.len() as int)) == Some(payload@),
{
    let ct = match aead_encrypt(key.as_slice(), nonce.as_slice(), payload.as_slice()) {
        Ok(c) => c,
        Err(_) => {
            return vstd::pervasive::unreached();
        },
    };
    let mut r = vstd::slice::slice_to_vec(nonce.as_slice());
    let mut salt2 = vstd::slice::slice_to_vec(salt.as_slice());
    let mut ct2 = ct;
    r.append(&mut salt2);
    r.append(&mut ct2);
    proof {
        assert(r@ =~= nonce@ + salt@ + aes256gcm_seal(key@, nonce@, payload@));
        assert(r@.subrange(0, 12) =~= nonce@);
        assert(r@.subrange(12, 28) =~= salt@);
        assert(r@.subrange(28, r@.len() as int) =~= aes256gcm_seal(key@, nonce@, payload@));
    }
    r
}

/// Splits a container into nonce, salt and ciphertext, derives the key from
/// the password and the extracted salt, and decrypts. Fails with
/// `MalformedContainer` on fewer than 28 bytes, and with
/// `AuthenticationFailed` exactly where the tag does not verify (wrong
/// password, or a corrupted or tampered container).
pub fn open_container(container: &Vec<u8>, password: &[u8]) -> (r: Result<Vec<u8>, StegoError>)
    requires
        password@.len() <= u32::MAX,
    ensures
        container@.len() < 28 ==> r == Err::<Vec<u8>, StegoError>(StegoError::MalformedContainer),
        container@.len() >= 28 ==> match open_spec(container@, password@) {
            Some(p) => r matches Ok(v) && v@ == p,
            None => r == Err::<Vec<u8>, StegoError>(StegoError::AuthenticationFailed),
        },
{
    if container.len() < 28 {
        return Err(StegoError::MalformedContainer);
    }
    let nonce = vstd::slice::slice_subrange(container.as_slice(), 0, 12);
    let salt = vstd::slice::slice_subrange(container.as_slice(), 12, 28);
    let ct = vstd::slice::slice_subrange(container.as_slice(), 28, container.len());
    let key = derive_key(password, salt);
    match aead_decrypt(key.as_slice(), nonce, ct) {
        Ok(p) => Ok(p),
        Err(_) => Err(StegoError::AuthenticationFailed),
    }
}

} // verus!
