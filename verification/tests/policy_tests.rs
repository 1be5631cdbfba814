use stegano_mini::engine::{validate_passphrase, PassphraseCheck};
use stegano_mini::errors::StegoError;

#[test]
fn no_confirmation_accepts_anything() {
    assert_eq!(
        validate_passphrase(b"", b"", false),
        PassphraseCheck::Accepted
    );
    assert_eq!(
        validate_passphrase(b"short", b"whatever", false),
        PassphraseCheck::Accepted
    );
}

#[test]
fn confirmation_requires_twelve_bytes() {
    assert_eq!(
        validate_passphrase(b"elevenchars", b"elevenchars", true),
        PassphraseCheck::TooShort
    );
    assert_eq!(
        validate_passphrase(b"twelve chars", b"twelve chars", true),
        PassphraseCheck::Accepted
    );
}

#[test]
fn confirmation_must_match() {
    assert_eq!(
        validate_passphrase(b"a long passphrase", b"another passphrase", true),
        PassphraseCheck::Mismatch
    );
    assert_eq!(
        validate_passphrase(b"a long passphrase", b"a long passphrase", true),
        PassphraseCheck::Accepted
    );
}

#[test]
fn error_messages_name_the_failure() {
    assert!(StegoError::EmptyInput.message().contains("empty"));
    assert!(StegoError::AuthenticationFailed.message().contains("password"));
    assert!(
        StegoError::CapacityExceeded { available: 400, required: 408 }
            .message()
            .contains("small")
    );
}
