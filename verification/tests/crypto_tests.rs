use stegano_mini::carrier::Carrier;
use stegano_mini::engine::{embed_payload, embed_payload_with, extract_payload};
use stegano_mini::errors::StegoError;
use stegano_mini::container::open_container;
use stegano_mini::transport::extract;

fn cover(width: u32, height: u32) -> Carrier {
    let n = (width * height * 4) as usize;
    let channels: Vec<u8> = (0..n).map(|i| ((i * 7 + 3) % 256) as u8).collect();
    Carrier::new(width, height, channels)
}

const PASSWORD: &[u8] = b"correct horse battery";
const SALT: [u8; 16] = [1, 2, 3, 4, 5, 6, 7, 8, 9, 10, 11, 12, 13, 14, 15, 16];
const NONCE: [u8; 12] = [21, 22, 23, 24, 25, 26, 27, 28, 29, 30, 31, 32];

#[test]
fn scenario_hi_in_10x10_rgba() {
    // Payload "hi" (2 bytes): container 28 + 2 + 16 = 46 bytes, required
    // bits 32 + 368 = 400, exactly the 400 channel slots of a 10 x 10 RGBA
    // image.
    let c = cover(10, 10);
    let payload = b"hi".to_vec();
    let img = embed_payload(&c, &payload, PASSWORD).unwrap();
    assert_eq!(extract(&img).unwrap().len(), 46);
    assert_eq!(extract_payload(&img, PASSWORD), Ok(payload));
    assert_eq!(
        extract_payload(&img, b"not the password"),
        Err(StegoError::AuthenticationFailed)
    );
}

#[test]
fn round_trip_with_fixed_salt_and_nonce() {
    let c = cover(12, 9);
    let payload = vec![0u8, 255, 17, 42, 128];
    let img = embed_payload_with(&c, &payload, PASSWORD, &SALT.to_vec(), &NONCE.to_vec())
        .unwrap();
    assert_eq!(extract_payload(&img, PASSWORD), Ok(payload));
}

#[test]
fn wrong_password_is_rejected() {
    let c = cover(12, 12);
    let payload = b"attack at dawn".to_vec();
    let img = embed_payload(&c, &payload, b"password one").unwrap();
    assert_eq!(
        extract_payload(&img, b"password two"),
        Err(StegoError::AuthenticationFailed)
    );
    // A one-byte difference in the password is enough.
    assert_eq!(
        extract_payload(&img, b"correct horse battery!"),
        Err(StegoError::AuthenticationFailed)
    );
}

#[test]
fn tampered_ciphertext_is_rejected() {
    let c = cover(10, 10);
    let payload = b"hi".to_vec();
    let img =
        embed_payload_with(&c, &payload, PASSWORD, &SALT.to_vec(), &NONCE.to_vec()).unwrap();
    let container = extract(&img).unwrap();
    assert_eq!(container.len(), 46);
    // The ciphertext portion is bytes 28..46 (2 encrypted bytes, 16 tag
    // bytes). Flip every bit of the first, a middle and the last byte.
    for &byte_index in &[28usize, 37, 45] {
        for bit in 0..8 {
            let mut tampered = container.clone();
            tampered[byte_index] ^= 1u8 << bit;
            assert_eq!(
                open_container(&tampered, PASSWORD),
                Err(StegoError::AuthenticationFailed)
            );
        }
    }
}

#[test]
fn two_embeds_use_fresh_salt_and_nonce() {
    let c = cover(12, 12);
    let payload = b"same payload".to_vec();
    let img1 = embed_payload(&c, &payload, PASSWORD).unwrap();
    let img2 = embed_payload(&c, &payload, PASSWORD).unwrap();
    let c1 = extract(&img1).unwrap();
    let c2 = extract(&img2).unwrap();
    assert_ne!(c1, c2);
    // Nonce (bytes 0..12) and salt (bytes 12..28) both differ.
    assert_ne!(&c1[..12], &c2[..12]);
    assert_ne!(&c1[12..28], &c2[12..28]);
    // Both containers still open to the same payload.
    assert_eq!(open_container(&c1, PASSWORD), Ok(payload.clone()));
    assert_eq!(open_container(&c2, PASSWORD), Ok(payload));
}

#[test]
fn empty_payload_is_rejected() {
    let c = cover(10, 10);
    assert_eq!(
        embed_payload(&c, &Vec::new(), PASSWORD).unwrap_err(),
        StegoError::EmptyInput
    );
}

#[test]
fn payload_past_capacity_is_rejected() {
    // 3 payload bytes need 32 + (3 + 44) * 8 = 408 bits; 400 are available.
    let c = cover(10, 10);
    let payload = vec![1u8, 2, 3];
    assert_eq!(
        embed_payload(&c, &payload, PASSWORD).unwrap_err(),
        StegoError::CapacityExceeded { available: 400, required: 408 }
    );
}

#[test]
fn short_container_is_malformed() {
    let container = vec![0u8; 27];
    assert_eq!(
        open_container(&container, PASSWORD),
        Err(StegoError::MalformedContainer)
    );
}
