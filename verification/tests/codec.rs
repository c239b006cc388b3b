use bioenpro4to_channel_manager::channels::{Category, ChannelInfo};
use bioenpro4to_channel_manager::daily_channel::{key_nonce, DailyChannel, DailyChannelState};
use bioenpro4to_channel_manager::ChannelError;

fn sample_channel() -> DailyChannel {
    let info = ChannelInfo::new("chan-id-1".to_string(), "ann-id-1".to_string());
    DailyChannel::from_parts(Category::Trucks, "XASD", info, 1621900800, false)
}

#[test]
fn key_nonce_is_the_sha256_of_the_password() {
    let (key, nonce) = key_nonce("abc");
    // SHA-256("abc"), a published test vector.
    let expected: [u8; 32] = [
        0xba, 0x78, 0x16, 0xbf, 0x8f, 0x01, 0xcf, 0xea, 0x41, 0x41, 0x40, 0xde, 0x5d, 0xae, 0x22,
        0x23, 0xb0, 0x03, 0x61, 0xa3, 0x96, 0x17, 0x7a, 0x9c, 0xb4, 0x10, 0xff, 0x61, 0xf2, 0x00,
        0x15, 0xad,
    ];
    assert_eq!(key.as_slice(), expected.as_slice());
    assert_eq!(nonce.len(), 24);
    // The nonce is the first 24 bytes of the hash of the key, so it differs
    // from the key's own first 24 bytes.
    assert_ne!(nonce.as_slice(), &key[..24]);
}

#[test]
fn export_then_import_reconstructs_the_record() {
    let ch = sample_channel();
    let session = vec![7u8, 1, 9, 0, 255, 42];
    let blob = ch.export_to_base64(session.clone(), "psw").unwrap();
    let st = DailyChannelState::decrypt(&blob, "psw").unwrap();
    assert_eq!(st.category(), Category::Trucks);
    assert_eq!(st.actor_id(), "xasd");
    assert_eq!(st.creation_timestamp(), 1621900800);
    assert_eq!(st.channel_state().as_slice(), session.as_slice());
    assert!(!st.mainnet());
    let info2 = ChannelInfo::new("chan-id-2".to_string(), "ann-id-2".to_string());
    let restored = st.to_daily_channel(info2);
    assert_eq!(restored.category(), Category::Trucks);
    assert_eq!(restored.actor_id(), "xasd");
    assert_eq!(restored.creation_timestamp(), 1621900800);
    assert_eq!(restored.creation_date(), "25/05/2021");
}

#[test]
fn import_with_the_wrong_password_fails_with_crypto_error() {
    let ch = sample_channel();
    let blob = ch.export_to_base64(vec![1, 2, 3], "psw").unwrap();
    assert_eq!(DailyChannelState::decrypt(&blob, "wrong").unwrap_err(), ChannelError::Crypto);
    assert_eq!(DailyChannelState::decrypt(&blob, "").unwrap_err(), ChannelError::Crypto);
    assert_eq!(DailyChannelState::decrypt(&blob, "psw ").unwrap_err(), ChannelError::Crypto);
}

#[test]
fn tampered_blobs_fail_with_crypto_error() {
    let ch = sample_channel();
    let blob = ch.export_to_base64(vec![1, 2, 3], "psw").unwrap();
    // Flip one character of the encoded ciphertext.
    let mut tampered: Vec<char> = blob.chars().collect();
    tampered[0] = if tampered[0] == 'A' { 'B' } else { 'A' };
    let tampered: String = tampered.into_iter().collect();
    assert_eq!(DailyChannelState::decrypt(&tampered, "psw").unwrap_err(), ChannelError::Crypto);
    // Text that is not base64url at all fails the same way.
    assert_eq!(DailyChannelState::decrypt("!!!not base64!!!", "psw").unwrap_err(), ChannelError::Crypto);
    assert_eq!(DailyChannelState::decrypt("", "psw").unwrap_err(), ChannelError::Crypto);
}

#[test]
fn blobs_differ_per_password_and_content() {
    let ch = sample_channel();
    let blob1 = ch.export_to_base64(vec![1, 2, 3], "psw").unwrap();
    let blob2 = ch.export_to_base64(vec![1, 2, 3], "other").unwrap();
    let blob3 = ch.export_to_base64(vec![1, 2, 4], "psw").unwrap();
    assert_ne!(blob1, blob2);
    assert_ne!(blob1, blob3);
    // The blob never carries the session bytes or the password in the clear.
    assert!(!blob1.contains("psw"));
}

#[test]
fn record_constructor_keeps_the_parts() {
    let st = DailyChannelState::new("psw", vec![9, 9], Category::BioCells, "BIO1", 1622332800, true);
    assert_eq!(st.category(), Category::BioCells);
    assert_eq!(st.actor_id(), "BIO1");
    assert_eq!(st.creation_timestamp(), 1622332800);
    assert!(st.mainnet());
    // Sealing uses the password embedded in the record itself.
    let blob = st.encrypt().unwrap();
    let back = DailyChannelState::decrypt(&blob, "psw").unwrap();
    assert_eq!(back.actor_id(), "BIO1");
    assert!(back.mainnet());
}

#[test]
fn blob_is_real_base64url_of_an_unreadable_ciphertext() {
    let ch = sample_channel();
    let session = vec![1u8, 2, 3];
    let blob = ch.export_to_base64(session, "psw").unwrap();
    // The blob decodes as base64url without padding, and re-encoding the
    // ciphertext gives the blob back.
    let cipher = base64::decode_config(blob.as_bytes(), base64::URL_SAFE_NO_PAD).unwrap();
    assert_eq!(base64::encode_config(&cipher, base64::URL_SAFE_NO_PAD), blob);
    // The ciphertext never carries the password or the session in the
    // clear: sealing really transformed the record.
    let needle = b"psw";
    assert!(!cipher.windows(needle.len()).any(|w| w == needle));
    let xasd = b"xasd";
    assert!(!cipher.windows(xasd.len()).any(|w| w == xasd));
}
