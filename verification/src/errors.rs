use vstd::prelude::*;

verus! {

/// The failures that embedding and extraction can report.
#[derive(Clone, Copy, Debug, PartialEq, Eq, Structural)]
pub enum StegoError {
    /// The payload to embed holds no bytes.
    EmptyInput,
    /// The carrier image has too few channel slots for the framed container.
    /// `available` is the number of channel slots, `required` the number of
    /// bits the framed container needs.
    CapacityExceeded { available: u64, required: u64 },
    /// A bit sequence whose length is not a multiple of eight cannot be
    /// regrouped into bytes.
    MalformedBitstream,
    /// The framed bitstream declares more payload bits than are present.
    TruncatedStream,
    /// The container is shorter than a nonce and a salt together.
    MalformedContainer,
    /// The authentication tag did not verify: wrong password, or a
    /// corrupted or tampered container.
    AuthenticationFailed,
    /// The AEAD refused the plaintext (it is longer than the cipher accepts).
    EncryptionFailed,
}

impl StegoError {
    /// A one-line description of the failure, for diagnostics.
    pub fn message(&self) -> &'static str {
        match self {
            StegoError::EmptyInput => "the payload is empty",
            StegoError::CapacityExceeded { .. } => "the carrier image is too small for the payload",
            StegoError::MalformedBitstream => "bit count is not a multiple of eight",
            StegoError::TruncatedStream => "the carrier declares more data than it holds",
            StegoError::MalformedContainer => "the container is too short to hold nonce and salt",
            StegoError::AuthenticationFailed => "authentication failed: wrong password or corrupted data",
            StegoError::EncryptionFailed => "the payload is too long to encrypt",
        }
    }
}

} // verus!
