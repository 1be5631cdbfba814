//! The orchestrator: wires key derivation, the container codec and the
//! steganographic transport together for the embed and extract flows, and
//! holds the passphrase policy.

use vstd::prelude::*;
use crate::bits::frame_bits;
use crate::carrier::Carrier;
use crate::container::{aes256gcm_seal, open_container, open_spec, seal_container};
use crate::errors::StegoError;
use crate::kdf::{argon2id_key, derive_key};
use crate::transport::{bytes_eq, embed, extract, recovered_container, stego_channels};
use aes_gcm::aead::rand_core::RngCore;
use aes_gcm::aead::OsRng;

verus! {

/// Salt length in bytes, drawn fresh for every embed call.
pub const SALT_LEN: usize = 16;

/// Nonce length in bytes, drawn fresh for every embed call.
pub const NONCE_LEN: usize = 12;

/// Shortest passphrase the confirmation policy accepts.
pub const MIN_PASSPHRASE_LEN: usize = 12;

/// Relies on rand_core's `OsRng`: `fill_bytes` fills the buffer from the
/// operating system's entropy source. Nothing is assumed of the values,
/// only of the length.
#[verifier::external_body]
fn random_bytes(n: usize) -> (r: Vec<u8>)
    ensures
        r@.len() == n,
{
    let mut buf = vec![0u8; n];
    OsRng.fill_bytes(&mut buf);
    buf
}

/// The container that an embed call with these arguments produces:
/// `nonce ‖ salt ‖ ciphertext`, the key derived from password and salt.
pub open spec fn container_spec(
    payload: Seq<u8>,
    password: Seq<u8>,
    salt: Seq<u8>,
    nonce: Seq<u8>,
) -> Seq<u8> {
    nonce + salt + aes256gcm_seal(argon2id_key(password, salt), nonce, payload)
}

/// The embed flow with caller-supplied salt and nonce: derive the key,
/// build the container, embed it into a copy of the cover image. Rejects an
/// empty payload; fails with `CapacityExceeded` exactly when the carrier
/// has fewer channel slots than the framed container needs; otherwise
/// returns a stego image from which extraction with the same password
/// recovers the payload.
pub fn embed_payload_with(
    cover: &Carrier,
    payload: &Vec<u8>,
    password: &[u8],
    salt: &Vec<u8>,
    nonce: &Vec<u8>,
) -> (r: Result<Carrier, StegoError>)
    requires
        cover.wf(),
        password@.len() <= u32::MAX,
        payload@.len() + 44 <= u32::MAX,
        salt@.len() == SALT_LEN,
        nonce@.len() == NONCE_LEN,
    ensures
        payload@.len() == 0 ==> r == Err::<Carrier, StegoError>(StegoError::EmptyInput),
        payload@.len() > 0 && 32 + (payload@.len() + 44) * 8 > cover.channels@.len() ==> r
            == Err::<Carrier, StegoError>(
            StegoError::CapacityExceeded {
                available: cover.channels@.len() as u64,
                required: (32 + (payload@.len() + 44) * 8) as u64,
            },
        ),
        payload@.len() > 0 && 32 + (payload@.len() + 44) * 8 <= cover.channels@.len() ==> (
        r matches Ok(img) && {
            let container = container_spec(payload@, password@, salt@, nonce@);
            &&& img.wf()
            &&& img.width == cover.width
            &&& img.height == cover.height
            &&& img.channels@ == stego_channels(cover.channels@, frame_bits(container))
            &&& recovered_container(img.channels@) == Some(container)
            &&& open_spec(container, password@) == Some(payload@)
        }),
{
    if payload.len() == 0 {
        return Err(StegoError::EmptyInput);
    }
    let key = derive_key(password, salt.as_slice());
    let container = seal_container(payload, &key, nonce, salt);
    let r = embed(cover, &container);
    proof {
        let c = container_spec(payload@, password@, salt@, nonce@);
        assert(container@ == c);
        assert(c.subrange(0, 12) =~= nonce@);
        assert(c.subrange(12, 28) =~= salt@);
        assert(c.subrange(28, c.len() as int) =~= aes256gcm_seal(
            argon2id_key(password@, salt@),
            nonce@,
            payload@,
        ));
    }
    r
}

/// The embed flow: draws a fresh random salt and nonce (never reused across
/// calls), then embeds as `embed_payload_with`. On success the returned
/// image carries a container that opens, with the same password, to exactly
/// the payload.
pub fn embed_payload(cover: &Carrier, payload: &Vec<u8>, password: &[u8]) -> (r: Result<
    Carrier,
    StegoError,
>)
    requires
        cover.wf(),
        password@.len() <= u32::MAX,
        payload@.len() + 44 <= u32::MAX,
    ensures
        payload@.len() == 0 ==> r == Err::<Carrier, StegoError>(StegoError::EmptyInput),
        payload@.len() > 0 && 32 + (payload@.len() + 44) * 8 > cover.channels@.len() ==> r
            == Err::<Carrier, StegoError>(
            StegoError::CapacityExceeded {
                available: cover.channels@.len() as u64,
                required: (32 + (payload@.len() + 44) * 8) as u64,
            },
        ),
        payload@.len() > 0 && 32 + (payload@.len() + 44) * 8 <= cover.channels@.len() ==> (
        r matches Ok(img) && {
            &&& img.wf()
            &&& img.width == cover.width
            &&& img.height == cover.height
            &&& recovered_container(img.channels@) matches Some(c) && open_spec(c, password@)
                == Some(payload@)
        }),
{
    let salt = random_bytes(SALT_LEN);
    let nonce = random_bytes(NONCE_LEN);
    embed_payload_with(cover, payload, password, &salt, &nonce)
}

/// The extract flow: read the container out of the image's
/// least-significant bits, then open it with the password. Each failure
/// names its cause: `TruncatedStream` where the carrier declares more bits
/// than it holds, `MalformedContainer` where the recovered container is
/// shorter than nonce and salt, `AuthenticationFailed` exactly where the
/// tag does not verify.
pub fn extract_payload(image: &Carrier, password: &[u8]) -> (r: Result<Vec<u8>, StegoError>)
    requires
        image.wf(),
        password@.len() <= u32::MAX,
    ensures
        recovered_container(image.channels@) is None ==> r == Err::<Vec<u8>, StegoError>(
            StegoError::TruncatedStream,
        ),
        recovered_container(image.channels@) matches Some(c) ==> {
            &&& c.len() < 28 ==> r == Err::<Vec<u8>, StegoError>(StegoError::MalformedContainer)
            &&& c.len() >= 28 ==> match open_spec(c, password@) {
                Some(p) => r matches Ok(v) && v@ == p,
                None => r == Err::<Vec<u8>, StegoError>(StegoError::AuthenticationFailed),
            }
        },
{
    let container = match extract(image) {
        Ok(c) => c,
        Err(e) => {
            return Err(e);
        },
    };
    open_container(&container, password)
}

/// Outcome of the passphrase policy check.
#[derive(Clone, Copy, Debug, PartialEq, Eq, Structural)]
pub enum PassphraseCheck {
    /// The input satisfies the policy.
    Accepted,
    /// Confirmation was required and the input is shorter than 12 bytes.
    TooShort,
    /// Confirmation was required and does not match the input.
    Mismatch,
}

/// The interactive passphrase policy, as one deterministic decision: with
/// confirmation required (the embed flow) the passphrase must be at least
/// 12 bytes long and must equal its confirmation; without confirmation
/// (the extract flow) any input is accepted. The caller re-prompts on a
/// rejection.
pub fn validate_passphrase(input: &[u8], confirmation: &[u8], require_confirmation: bool) -> (r:
    PassphraseCheck)
    ensures
        !require_confirmation ==> r == PassphraseCheck::Accepted,
        require_confirmation && input@.len() < MIN_PASSPHRASE_LEN ==> r
            == PassphraseCheck::TooShort,
        require_confirmation && input@.len() >= MIN_PASSPHRASE_LEN && input@ != confirmation@
            ==> r == PassphraseCheck::Mismatch,
        require_confirmation && input@.len() >= MIN_PASSPHRASE_LEN && input@ == confirmation@
            ==> r == PassphraseCheck::Accepted,
{
    if !require_confirmation {
        return PassphraseCheck::Accepted;
    }
    if input.len() < MIN_PASSPHRASE_LEN {
        return PassphraseCheck::TooShort;
    }
    if bytes_eq(input, confirmation) {
        PassphraseCheck::Accepted
    } else {
        PassphraseCheck::Mismatch
    }
}

} // verus!
