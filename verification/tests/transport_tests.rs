use stegano_mini::carrier::Carrier;
use stegano_mini::errors::StegoError;
use stegano_mini::transport::{embed, extract, verify_embedding};

fn cover_10x10() -> Carrier {
    // A 10 x 10 RGBA image: 400 channel slots.
    let channels: Vec<u8> = (0..400).map(|i| (i % 256) as u8).collect();
    Carrier::new(10, 10, channels)
}

#[test]
fn embed_then_extract_returns_container() {
    let cover = cover_10x10();
    let container = vec![9u8, 8, 7, 6, 5];
    let img = embed(&cover, &container).unwrap();
    assert_eq!(extract(&img), Ok(container));
}

#[test]
fn embed_changes_each_channel_by_at_most_one() {
    let cover = cover_10x10();
    let container = vec![0xAAu8, 0x55, 0xFF, 0x00];
    let img = embed(&cover, &container).unwrap();
    assert_eq!(img.width, 10);
    assert_eq!(img.height, 10);
    assert_eq!(img.channels.len(), 400);
    for i in 0..400 {
        let before = cover.channels[i];
        let after = img.channels[i];
        assert!(before == after || before == after + 1 || after == before + 1);
        // Only the least-significant bit may differ.
        assert_eq!(before & 0xFE, after & 0xFE);
    }
}

#[test]
fn embed_exact_capacity_succeeds() {
    // 46 container bytes need 32 + 368 = 400 bits: exactly the slot count.
    let cover = cover_10x10();
    let container = vec![3u8; 46];
    let img = embed(&cover, &container).unwrap();
    assert_eq!(extract(&img), Ok(container));
}

#[test]
fn embed_one_byte_past_capacity_fails() {
    let cover = cover_10x10();
    let container = vec![3u8; 47];
    assert_eq!(
        embed(&cover, &container).unwrap_err(),
        StegoError::CapacityExceeded { available: 400, required: 408 }
    );
}

#[test]
fn embed_does_not_change_the_cover() {
    let cover = cover_10x10();
    let container = vec![1u8, 2, 3];
    let _ = embed(&cover, &container).unwrap();
    for i in 0..400 {
        assert_eq!(cover.channels[i], (i % 256) as u8);
    }
}

#[test]
fn extract_from_plain_zero_image_is_empty() {
    // All least-significant bits are 0: the length field reads 0.
    let img = Carrier::new(10, 10, vec![0u8; 400]);
    assert_eq!(extract(&img), Ok(Vec::new()));
}

#[test]
fn extract_rejects_declared_length_past_capacity() {
    // Set the length field to 100 bytes: 32 + 800 bits > 400 slots.
    let mut channels = vec![0u8; 400];
    // 100 = 0b1100100; bits 25, 26 and 29 of the 32-bit field are one.
    channels[25] = 1;
    channels[26] = 1;
    channels[29] = 1;
    let img = Carrier::new(10, 10, channels);
    assert_eq!(extract(&img), Err(StegoError::TruncatedStream));
}

#[test]
fn verify_embedding_confirms_and_denies() {
    let cover = cover_10x10();
    let container = vec![11u8, 22, 33];
    let img = embed(&cover, &container).unwrap();
    assert!(verify_embedding(&img, &container));
    assert!(!verify_embedding(&img, &vec![11u8, 22, 34]));
    assert!(!verify_embedding(&cover, &container));
}
