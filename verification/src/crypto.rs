use vstd::prelude::*;
use vstd::utf8::{valid_utf8, decode_utf8};
use aead::Aead;
use aead::generic_array::GenericArray;
use chacha20poly1305::aead::NewAead;
use chacha20poly1305::XChaCha20Poly1305;
use sha2::Digest;

verus! {

/// The SHA-256 digest of a byte sequence.
pub uninterp spec fn sha256_of(input: Seq<u8>) -> Seq<u8>;

/// The XChaCha20-Poly1305 sealing of a plaintext under a key and nonce.
pub uninterp spec fn xchacha_seal(key: Seq<u8>, nonce: Seq<u8>, plain: Seq<u8>) -> Seq<u8>;

/// The XChaCha20-Poly1305 authenticated opening of a ciphertext under a key
/// and nonce; nothing when authentication fails.
pub uninterp spec fn xchacha_open(key: Seq<u8>, nonce: Seq<u8>, cipher: Seq<u8>) -> Option<
    Seq<u8>,
>;

/// The base64url (no padding) encoding of a byte sequence.
pub uninterp spec fn base64url_of(bytes: Seq<u8>) -> Seq<char>;

/// The base64url (no padding) decoding of a string; nothing when the string
/// is not valid base64url.
pub uninterp spec fn base64url_decode_of(s: Seq<char>) -> Option<Seq<u8>>;

/// Relies on sha2::Sha256: the digest is a pure function of the input bytes
/// and is always 32 bytes long.
#[verifier::external_body]
pub fn sha256(input: &[u8]) -> (r: Vec<u8>)
    ensures
        r@ == sha256_of(input@),
        r@.len() == 32,
{
    sha2::Sha256::digest(input).to_vec()
}

/// The plaintext length at which the cipher's 32-bit block counter would
/// overflow: 64 bytes for each of the 2^32 - 1 usable blocks. Sealing any
/// shorter plaintext succeeds.
pub const XCHACHA_PLAINTEXT_CAP: u64 = 0x3f_ffff_ffc0;

/// Relies on chacha20poly1305::XChaCha20Poly1305 with aead::Aead::encrypt:
/// sealing is a pure function of key, nonce and plaintext, opening the
/// sealed bytes with the same key and nonce returns the plaintext, and the
/// one failure is a plaintext long enough to overflow the block counter.
#[allow(deprecated)]
#[verifier::external_body]
pub fn xchacha_encrypt(key: &[u8], nonce: &[u8], plain: &[u8]) -> (r: Option<Vec<u8>>)
    requires
        key@.len() == 32,
        nonce@.len() == 24,
    ensures
        match r {
            Some(c) => c@ == xchacha_seal(key@, nonce@, plain@) && xchacha_open(key@, nonce@, c@)
                == Some(plain@),
            None => plain@.len() >= XCHACHA_PLAINTEXT_CAP,
        },
{
    let chacha = XChaCha20Poly1305::new(GenericArray::from_slice(key));
    chacha.encrypt(GenericArray::from_slice(nonce), plain).ok()
}

/// Relies on chacha20poly1305::XChaCha20Poly1305 with aead::Aead::decrypt:
/// opening is a pure function of key, nonce and ciphertext, and fails
/// exactly when authentication fails.
#[allow(deprecated)]
#[verifier::external_body]
pub fn xchacha_decrypt(key: &[u8], nonce: &[u8], cipher: &[u8]) -> (r: Option<Vec<u8>>)
    requires
        key@.len() == 32,
        nonce@.len() == 24,
    ensures
        match r {
            Some(p) => xchacha_open(key@, nonce@, cipher@) == Some(p@),
            None => xchacha_open(key@, nonce@, cipher@) is None,
        },
{
    let chacha = XChaCha20Poly1305::new(GenericArray::from_slice(key));
    chacha.decrypt(GenericArray::from_slice(nonce), cipher).ok()
}

/// Relies on base64::encode_config with URL_SAFE_NO_PAD: the encoding is a
/// pure function of the bytes, and decoding it gives the bytes back.
#[verifier::external_body]
pub fn base64url_encode(bytes: &[u8]) -> (r: String)
    ensures
        r@ == base64url_of(bytes@),
        base64url_decode_of(r@) == Some(bytes@),
{
    base64::encode_config(bytes, base64::URL_SAFE_NO_PAD)
}

/// Relies on base64::decode_config with URL_SAFE_NO_PAD: decoding is a pure
/// function of the string and fails exactly on text that is not valid
/// base64url without padding.
#[verifier::external_body]
pub fn base64url_decode(s: &str) -> (r: Option<Vec<u8>>)
    ensures
        match r {
            Some(b) => base64url_decode_of(s@) == Some(b@),
            None => base64url_decode_of(s@) is None,
        },
{
    base64::decode_config(s.as_bytes(), base64::URL_SAFE_NO_PAD).ok()
}

/// Relies on String::from_utf8: it succeeds exactly on valid UTF-8 and
/// decodes the bytes to the characters they encode.
#[verifier::external_body]
pub fn string_from_utf8(bytes: Vec<u8>) -> (r: Option<String>)
    ensures
        match r {
            Some(s) => valid_utf8(bytes@) && s@ == decode_utf8(bytes@),
            None => !valid_utf8(bytes@),
        },
{
    String::from_utf8(bytes).ok()
}

} // verus!
