//! The cryptographic primitives and encodings that the library takes from
//! outside crates: SHA-1, SHA-256, HMAC-SHA-256, AES-256-GCM, Base64, hex
//! and operating-system randomness.

use vstd::prelude::*;
use aes_gcm::aead::{Aead, KeyInit};
use base64::Engine;
use hmac::Mac;
use rand::RngCore;
use sha2::Digest;
use crate::pack::{hex_digit_char, hex_encode_spec, lemma_hex_encode_len};
use crate::protocol::hex_value;

verus! {

/// The SHA-256 digest of `data`.
pub uninterp spec fn sha256_spec(data: Seq<u8>) -> Seq<u8>;

/// The SHA-1 digest of `data`.
pub uninterp spec fn sha1_spec(data: Seq<u8>) -> Seq<u8>;

/// HMAC-SHA-256 of `data` under `key`.
pub uninterp spec fn hmac_sha256_spec(key: Seq<u8>, data: Seq<u8>) -> Seq<u8>;

/// AES-256-GCM encryption of `plain` under `key` and `nonce`: the
/// ciphertext followed by the 16-byte authentication tag.
pub uninterp spec fn aes_gcm_seal_spec(key: Seq<u8>, nonce: Seq<u8>, plain: Seq<u8>) -> Seq<u8>;

/// AES-256-GCM decryption of `sealed` under `key` and `nonce`, where the
/// tag checks.
pub uninterp spec fn aes_gcm_open_spec(key: Seq<u8>, nonce: Seq<u8>, sealed: Seq<u8>) -> Option<
    Seq<u8>,
>;

/// The standard (padded) Base64 text of `data`.
pub uninterp spec fn base64_spec(data: Seq<u8>) -> Seq<char>;

/// What standard Base64 decoding gives for `text`, where it is valid.
pub uninterp spec fn base64_decode_spec(text: Seq<char>) -> Option<Seq<u8>>;

/// What `hex::decode` gives for a text: each pair of hexadecimal digits
/// (either case), high digit first, is one byte; an odd length or a
/// character that is no hexadecimal digit gives nothing.
pub open spec fn hex_decode_spec(text: Seq<char>) -> Option<Seq<u8>>
    decreases text.len(),
{
    if text.len() == 0 {
        Some(Seq::empty())
    } else if text.len() == 1 {
        None
    } else {
        let n = text.len();
        match (hex_value(text[n - 2]), hex_value(text[n - 1]), hex_decode_spec(text.take(n - 2))) {
            (Some(h), Some(l), Some(p)) => Some(p.push((h * 16 + l) as u8)),
            _ => None,
        }
    }
}

/// A digit that hexadecimal encoding writes reads back as its value.
proof fn lemma_hex_digit_value(d: nat)
    requires
        d < 16,
    ensures
        hex_value(hex_digit_char(d)) == Some(d),
{
}

/// Decoding the hexadecimal text of bytes gives the bytes back.
pub proof fn lemma_hex_roundtrip(data: Seq<u8>)
    ensures
        hex_decode_spec(hex_encode_spec(data)) == Some(data),
    decreases data.len(),
{
    if data.len() > 0 {
        let d = data.drop_last();
        let b = data.last();
        let e = hex_encode_spec(data);
        lemma_hex_roundtrip(d);
        lemma_hex_encode_len(d);
        lemma_hex_encode_len(data);
        lemma_hex_digit_value((b / 16) as nat);
        lemma_hex_digit_value((b % 16) as nat);
        let n = e.len();
        assert(e.take(n - 2) =~= hex_encode_spec(d));
        assert(e[n - 2] == hex_digit_char((b / 16) as nat));
        assert(e[n - 1] == hex_digit_char((b % 16) as nat));
        assert(((b / 16) as nat * 16 + (b % 16) as nat) as u8 == b);
        assert(d.push(b) =~= data);
    } else {
        assert(hex_encode_spec(data) =~= Seq::<char>::empty());
    }
}

/// `sha2::Sha256::digest`: the digest is named; it is 32 bytes long.
#[verifier::external_body]
pub(crate) fn sha256(data: &[u8]) -> (r: Vec<u8>)
    ensures
        r@ == sha256_spec(data@),
        r@.len() == 32,
{
    sha2::Sha256::digest(data).to_vec()
}

/// `sha1::Sha1::digest`: the digest is named; it is 20 bytes long.
#[verifier::external_body]
pub(crate) fn sha1(data: &[u8]) -> (r: Vec<u8>)
    ensures
        r@ == sha1_spec(data@),
        r@.len() == 20,
{
    sha1::Sha1::digest(data).to_vec()
}

/// `hmac::Hmac<Sha256>` over `data` with `key` (any key length is
/// accepted): the tag is named; it is 32 bytes long.
#[verifier::external_body]
pub(crate) fn hmac_sha256(key: &[u8], data: &[u8]) -> (r: Vec<u8>)
    ensures
        r@ == hmac_sha256_spec(key@, data@),
        r@.len() == 32,
{
    let mut mac = <hmac::Hmac<sha2::Sha256> as Mac>::new_from_slice(key).unwrap();
    mac.update(data);
    mac.finalize().into_bytes().to_vec()
}

/// `aes_gcm::Aes256Gcm::encrypt` with a 32-byte key and a 12-byte nonce.
/// It refuses only a plaintext over 2^36 bytes (the cipher's `P_MAX`); its
/// output is named, is the plaintext's length plus the 16-byte tag, and
/// opens under the same key and nonce to the plaintext.
#[verifier::external_body]
pub(crate) fn aes_gcm_seal(key: &[u8], nonce: &[u8], plain: &[u8]) -> (r: Option<Vec<u8>>)
    requires
        key@.len() == 32,
        nonce@.len() == 12,
    ensures
        plain@.len() <= 0x1000000000 ==> r is Some,
        r matches Some(c) ==> c@ == aes_gcm_seal_spec(key@, nonce@, plain@) && c@.len()
            == plain@.len() + 16 && aes_gcm_open_spec(key@, nonce@, c@) == Some(plain@),
{
    let cipher = aes_gcm::Aes256Gcm::new_from_slice(key).ok()?;
    cipher.encrypt(aes_gcm::Nonce::from_slice(nonce), plain).ok()
}

/// `aes_gcm::Aes256Gcm::decrypt` with a 32-byte key and a 12-byte nonce:
/// the result is named; a text that encryption under the same key and nonce
/// produced from a plaintext within the cipher's limit of 2^36 bytes opens
/// to that plaintext (the correctness of AEAD).
#[verifier::external_body]
pub(crate) fn aes_gcm_open(key: &[u8], nonce: &[u8], sealed: &[u8]) -> (r: Option<Vec<u8>>)
    requires
        key@.len() == 32,
        nonce@.len() == 12,
    ensures
        match r {
            Some(p) => aes_gcm_open_spec(key@, nonce@, sealed@) == Some(p@),
            None => aes_gcm_open_spec(key@, nonce@, sealed@) is None,
        },
        forall|plain: Seq<u8>|
            plain.len() <= 0x1000000000 ==> (#[trigger] aes_gcm_seal_spec(key@, nonce@, plain)
                == sealed@ ==> (r is Some && r->0@ == plain)),
{
    let cipher = aes_gcm::Aes256Gcm::new_from_slice(key).ok()?;
    cipher.decrypt(aes_gcm::Nonce::from_slice(nonce), sealed).ok()
}

/// `n` bytes from the operating system's random source (`rand::rngs::OsRng`).
/// Nothing is stated of their values.
#[verifier::external_body]
pub(crate) fn random_bytes(n: usize) -> (r: Vec<u8>)
    ensures
        r@.len() == n,
{
    let mut v = vec![0u8; n];
    rand::rngs::OsRng.fill_bytes(&mut v);
    v
}

/// `base64::engine::general_purpose::STANDARD.encode`: the text is named;
/// decoding it gives the bytes back.
#[verifier::external_body]
pub(crate) fn base64_encode(data: &[u8]) -> (r: String)
    ensures
        r@ == base64_spec(data@),
        base64_decode_spec(r@) == Some(data@),
{
    base64::engine::general_purpose::STANDARD.encode(data)
}

/// `base64::engine::general_purpose::STANDARD.decode`: the result is named;
/// the text of an encoding decodes to its bytes.
#[verifier::external_body]
pub(crate) fn base64_decode(text: &str) -> (r: Option<Vec<u8>>)
    ensures
        match r {
            Some(b) => base64_decode_spec(text@) == Some(b@),
            None => base64_decode_spec(text@) is None,
        },
        forall|data: Seq<u8>| #[trigger] base64_spec(data) == text@ ==> (r is Some && r->0@ == data),
{
    base64::engine::general_purpose::STANDARD.decode(text).ok()
}

/// `hex::encode`: lowercase, two digits per byte, in order.
#[verifier::external_body]
pub(crate) fn hex_encode_text(data: &[u8]) -> (r: String)
    ensures
        r@ == hex_encode_spec(data@),
{
    hex::encode(data)
}

/// `hex::decode`: pairs of hexadecimal digits of either case, as
/// `hex_decode_spec` states.
#[verifier::external_body]
pub(crate) fn hex_decode(text: &str) -> (r: Option<Vec<u8>>)
    ensures
        match r {
            Some(b) => hex_decode_spec(text@) == Some(b@),
            None => hex_decode_spec(text@) is None,
        },
{
    hex::decode(text).ok()
}

} // verus!
