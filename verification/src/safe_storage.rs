//! Encrypted storage of strings: AES-256-GCM under a key derived from the
//! stored key and a fresh salt, with the parts of the result kept as hex
//! and Base64 text. Finding the storage directory and reading or creating
//! the key file are done by the application.

use vstd::prelude::*;
use crate::crypto::{
    aes_gcm_open, aes_gcm_open_spec, aes_gcm_seal, aes_gcm_seal_spec, base64_decode,
    base64_decode_spec, base64_encode, base64_spec, hex_decode, hex_decode_spec, hex_encode_text,
    hmac_sha256, lemma_hex_roundtrip, hmac_sha256_spec, random_bytes,
};
use crate::config::{join_path, path_join_spec};
use crate::text::{owned, utf8_text};
use crate::pack::{hex_encode_spec, lemma_hex_encode_len};

verus! {

/// Everything needed to decrypt one string.
#[derive(Debug)]
pub struct EncryptedData {
    /// Algorithm name.
    pub algorithm: String,
    /// Nonce, hex.
    pub iv: String,
    /// Ciphertext without the tag, Base64.
    pub data: String,
    /// Authentication tag, hex.
    pub tag: String,
    /// Salt, hex.
    pub salt: String,
}

/// Why encryption or decryption failed.
#[derive(Debug, Clone, Copy, PartialEq, Eq, Structural)]
pub enum SafeStorageError {
    /// No key was loaded.
    KeyUnavailable,
    /// The cipher refused the plaintext.
    EncryptionFailed,
    /// The nonce is not hex, or not the 12 bytes the cipher takes.
    InvalidIv,
    /// The ciphertext is not Base64.
    InvalidData,
    /// The tag is not hex.
    InvalidTag,
    /// The salt is not hex.
    InvalidSalt,
    /// The tag does not check.
    DecryptionFailed,
    /// The plaintext is not UTF-8.
    NotUtf8,
}

/// The number of HMAC rounds of the key derivation.
pub const DERIVATION_ROUNDS: u32 = 100000;

/// `n` rounds of HMAC-SHA-256 over `salt`, each keyed by the previous result,
/// starting from `key`.
pub open spec fn hmac_chain(key: Seq<u8>, salt: Seq<u8>, n: nat) -> Seq<u8>
    decreases n,
{
    if n == 0 {
        key
    } else {
        hmac_sha256_spec(hmac_chain(key, salt, (n - 1) as nat), salt)
    }
}

/// The 32-byte key derived from a stored key and a salt: the chain after
/// all rounds, cut to (or zero-filled up to) 32 bytes.
pub open spec fn derive_key_spec(key: Seq<u8>, salt: Seq<u8>) -> Seq<u8> {
    let d = hmac_chain(key, salt, DERIVATION_ROUNDS as nat);
    let n: int = if d.len() < 32 { d.len() as int } else { 32 };
    d.take(n) + Seq::new((32 - n) as nat, |i: int| 0u8)
}

/// Derives the 32-byte encryption key from the stored key and a salt.
pub fn derive_key(password: &[u8], salt: &[u8]) -> (r: Vec<u8>)
    ensures
        r@ == derive_key_spec(password@, salt@),
        r@.len() == 32,
{
    let mut derived: Vec<u8> = vstd::slice::slice_to_vec(password);
    let mut i: u32 = 0;
    while i < DERIVATION_ROUNDS
        invariant
            0 <= i <= DERIVATION_ROUNDS,
            derived@ == hmac_chain(password@, salt@, i as nat),
        decreases DERIVATION_ROUNDS - i,
    {
        derived = hmac_sha256(derived.as_slice(), salt);
        i = i + 1;
    }
    let n = if derived.len() < 32 { derived.len() } else { 32 };
    let mut out: Vec<u8> = Vec::new();
    let mut j: usize = 0;
    while j < 32
        invariant
            n <= 32,
            n <= derived@.len(),
            0 <= j <= 32,
            out@.len() == j,
            forall|k: int| 0 <= k < j && k < n ==> out@[k] == derived@[k],
            forall|k: int| 0 <= k < j && k >= n ==> out@[k] == 0u8,
        decreases 32 - j,
    {
        if j < n {
            out.push(derived[j]);
        } else {
            out.push(0u8);
        }
        j = j + 1;
    }
    assert(out@ =~= derive_key_spec(password@, salt@));
    out
}

/// `e` is the encryption of `plain` under stored key `key`, `salt` and
/// `nonce`: its parts are those texts, and each decodes to what it encodes.
pub open spec fn encrypted_as(key: Seq<u8>, plain: Seq<char>, salt: Seq<u8>, nonce: Seq<u8>, e: EncryptedData) -> bool {
    let sealed = aes_gcm_seal_spec(derive_key_spec(key, salt), nonce, vstd::utf8::encode_utf8(plain));
    let cut = sealed.len() - 16;
    &&& sealed.len() >= 16
    &&& aes_gcm_open_spec(derive_key_spec(key, salt), nonce, sealed) == Some(vstd::utf8::encode_utf8(plain))
    &&& e.algorithm@ == "AES-256-GCM"@
    &&& e.iv@ == hex_encode_spec(nonce) && hex_decode_spec(e.iv@) == Some(nonce)
    &&& e.data@ == base64_spec(sealed.take(cut)) && base64_decode_spec(e.data@) == Some(sealed.take(cut))
    &&& e.tag@ == hex_encode_spec(sealed.skip(cut)) && hex_decode_spec(e.tag@) == Some(sealed.skip(cut))
    &&& e.salt@ == hex_encode_spec(salt) && hex_decode_spec(e.salt@) == Some(salt)
}

/// What decrypting `e` with stored key `key` answers: the first part that
/// does not decode, then whether the nonce has 12 bytes, else whether the
/// tag checks and the text is UTF-8.
pub open spec fn decrypt_spec(key: Option<Seq<u8>>, e: EncryptedData) -> Result<Seq<char>, SafeStorageError> {
    match key {
        None => Err(SafeStorageError::KeyUnavailable),
        Some(k) => match hex_decode_spec(e.iv@) {
            None => Err(SafeStorageError::InvalidIv),
            Some(iv) => match base64_decode_spec(e.data@) {
                None => Err(SafeStorageError::InvalidData),
                Some(d) => match hex_decode_spec(e.tag@) {
                    None => Err(SafeStorageError::InvalidTag),
                    Some(t) => match hex_decode_spec(e.salt@) {
                        None => Err(SafeStorageError::InvalidSalt),
                        Some(s) => if iv.len() != 12 {
                            Err(SafeStorageError::InvalidIv)
                        } else {
                            match aes_gcm_open_spec(derive_key_spec(k, s), iv, d + t) {
                                None => Err(SafeStorageError::DecryptionFailed),
                                Some(p) => if vstd::utf8::valid_utf8(p) {
                                    Ok(vstd::utf8::decode_utf8(p))
                                } else {
                                    Err(SafeStorageError::NotUtf8)
                                },
                            }
                        },
                    },
                },
            },
        },
    }
}

/// Encrypted storage under one stored key.
#[derive(Debug)]
pub struct SafeStorage {
    storage_dir: String,
    encryption_key: Option<Vec<u8>>,
}

/// The storage directory of an application under a base directory:
/// `<base>/<app_name>/safe_storage`.
pub fn safe_storage_dir(base: &str, app_name: &str) -> (r: String)
    ensures
        r@ == path_join_spec(path_join_spec(base@, app_name@), "safe_storage"@),
{
    let app = join_path(base, app_name);
    join_path(app.as_str(), "safe_storage")
}

/// A key file's contents are used only where they are 32 bytes long.
pub fn usable_key(data: Vec<u8>) -> (r: Option<Vec<u8>>)
    ensures
        data@.len() == 32 ==> r == Some(data),
        data@.len() != 32 ==> r is None,
{
    if data.len() == 32 {
        Some(data)
    } else {
        None
    }
}

impl SafeStorage {
    /// The stored key, where one was loaded.
    pub closed spec fn key(&self) -> Option<Seq<u8>> {
        match self.encryption_key {
            Some(k) => Some(k@),
            None => None,
        }
    }

    /// The storage directory.
    pub closed spec fn dir(&self) -> Seq<char> {
        self.storage_dir@
    }

    /// A storage for a directory and the key loaded from it (none where it
    /// could not be read or created).
    pub fn new(storage_dir: String, encryption_key: Option<Vec<u8>>) -> (r: SafeStorage)
        ensures
            r.dir() == storage_dir@,
            r.key() == match encryption_key {
                Some(k) => Some(k@),
                None => None::<Seq<u8>>,
            },
    {
        SafeStorage { storage_dir, encryption_key }
    }

    /// Whether a key was loaded.
    pub fn is_encryption_available(&self) -> (r: bool)
        ensures
            r == self.key() is Some,
    {
        self.encryption_key.is_some()
    }

    /// Encrypts `plain_text` with the given salt and 12-byte nonce.
    pub fn encrypt_with(&self, plain_text: &str, salt: &[u8], nonce: &[u8]) -> (r: Result<EncryptedData, SafeStorageError>)
        requires
            nonce@.len() == 12,
        ensures
            self.key() is None ==> r == Err::<EncryptedData, SafeStorageError>(SafeStorageError::KeyUnavailable),
            self.key() is Some ==> match r {
                Ok(e) => encrypted_as(self.key()->0, plain_text@, salt@, nonce@, e),
                Err(err) => err == SafeStorageError::EncryptionFailed,
            },
            self.key() is Some && vstd::utf8::encode_utf8(plain_text@).len() <= 0x1000000000 ==> r is Ok,
            r matches Ok(e) ==> e.iv@.len() == 24 && e.tag@.len() == 32 && e.salt@.len() == 2 * salt@.len(),
    {
        let key = match &self.encryption_key {
            Some(k) => k,
            None => return Err(SafeStorageError::KeyUnavailable),
        };
        let derived = derive_key(key.as_slice(), salt);
        let plain = plain_text.as_bytes();
        let sealed = match aes_gcm_seal(derived.as_slice(), nonce, plain) {
            Some(c) => c,
            None => return Err(SafeStorageError::EncryptionFailed),
        };
        let n = sealed.len();
        let cut = n - 16;
        let mut body: Vec<u8> = Vec::new();
        let mut tag: Vec<u8> = Vec::new();
        let mut i: usize = 0;
        while i < n
            invariant
                n == sealed@.len(),
                cut == n - 16,
                0 <= i <= n,
                i <= cut ==> body@ == sealed@.take(i as int) && tag@.len() == 0,
                i > cut ==> body@ == sealed@.take(cut as int) && tag@ == sealed@.subrange(cut as int, i as int),
            decreases n - i,
        {
            if i < cut {
                body.push(sealed[i]);
                assert(sealed@.take(i as int + 1) =~= sealed@.take(i as int).push(sealed@[i as int]));
            } else {
                tag.push(sealed[i]);
                assert(sealed@.subrange(cut as int, i as int + 1) =~= sealed@.subrange(cut as int, i as int).push(sealed@[i as int]));
            }
            i = i + 1;
        }
        assert(tag@ =~= sealed@.skip(cut as int));
        proof {
            lemma_hex_encode_len(nonce@);
            lemma_hex_encode_len(tag@);
            lemma_hex_encode_len(salt@);
            lemma_hex_roundtrip(nonce@);
            lemma_hex_roundtrip(tag@);
            lemma_hex_roundtrip(salt@);
        }
        Ok(EncryptedData {
            algorithm: owned("AES-256-GCM"),
            iv: hex_encode_text(nonce),
            data: base64_encode(body.as_slice()),
            tag: hex_encode_text(tag.as_slice()),
            salt: hex_encode_text(salt),
        })
    }

    /// Encrypts `plain_text` with a fresh random 32-byte salt and 12-byte
    /// nonce.
    pub fn encrypt_string(&self, plain_text: &str) -> (r: Result<EncryptedData, SafeStorageError>)
        ensures
            self.key() is None ==> r == Err::<EncryptedData, SafeStorageError>(SafeStorageError::KeyUnavailable),
            self.key() is Some ==> match r {
                Ok(e) => exists|salt: Seq<u8>, nonce: Seq<u8>|
                    salt.len() == 32 && nonce.len() == 12 && encrypted_as(self.key()->0, plain_text@, salt, nonce, e),
                Err(err) => err == SafeStorageError::EncryptionFailed,
            },
            self.key() is Some && vstd::utf8::encode_utf8(plain_text@).len() <= 0x1000000000 ==> r is Ok,
            r matches Ok(e) ==> e.algorithm@ == "AES-256-GCM"@ && e.iv@.len() == 24 && e.tag@.len() == 32
                && e.salt@.len() == 64,
    {
        let salt = random_bytes(32);
        let nonce = random_bytes(12);
        self.encrypt_with(plain_text, salt.as_slice(), nonce.as_slice())
    }

    /// Decrypts `encrypted`: each part is decoded in turn (nonce, data, tag,
    /// salt), then the nonce must have 12 bytes, then the tag is checked
    /// and the text read as UTF-8.
    pub fn decrypt_string(&self, encrypted: &EncryptedData) -> (r: Result<String, SafeStorageError>)
        ensures
            match decrypt_spec(self.key(), *encrypted) {
                Ok(t) => r is Ok && r->Ok_0@ == t,
                Err(e) => r == Err::<String, SafeStorageError>(e),
            },
    {
        let key = match &self.encryption_key {
            Some(k) => k,
            None => return Err(SafeStorageError::KeyUnavailable),
        };
        let iv = match hex_decode(encrypted.iv.as_str()) {
            Some(v) => v,
            None => return Err(SafeStorageError::InvalidIv),
        };
        let data = match base64_decode(encrypted.data.as_str()) {
            Some(v) => v,
            None => return Err(SafeStorageError::InvalidData),
        };
        let tag = match hex_decode(encrypted.tag.as_str()) {
            Some(v) => v,
            None => return Err(SafeStorageError::InvalidTag),
        };
        let salt = match hex_decode(encrypted.salt.as_str()) {
            Some(v) => v,
            None => return Err(SafeStorageError::InvalidSalt),
        };
        if iv.len() != 12 {
            return Err(SafeStorageError::InvalidIv);
        }
        let derived = derive_key(key.as_slice(), salt.as_slice());
        let mut sealed = data;
        let mut i: usize = 0;
        let ghost d0 = sealed@;
        while i < tag.len()
            invariant
                0 <= i <= tag@.len(),
                sealed@ == d0 + tag@.take(i as int),
            decreases tag@.len() - i,
        {
            sealed.push(tag[i]);
            assert(tag@.take(i as int + 1) =~= tag@.take(i as int).push(tag@[i as int]));
            i = i + 1;
        }
        assert(tag@.take(tag@.len() as int) =~= tag@);
        let plain = match aes_gcm_open(derived.as_slice(), iv.as_slice(), sealed.as_slice()) {
            Some(p) => p,
            None => return Err(SafeStorageError::DecryptionFailed),
        };
        match utf8_text(plain.as_slice()) {
            Some(t) => Ok(t),
            None => Err(SafeStorageError::NotUtf8),
        }
    }
}

/// Decrypting what `encrypt_with` (or `encrypt_string`) produced under the
/// same stored key, with its 12-byte nonce, gives back the plaintext.
pub proof fn law_decrypt_undoes_encrypt(key: Seq<u8>, plain: Seq<char>, salt: Seq<u8>, nonce: Seq<u8>, e: EncryptedData)
    requires
        encrypted_as(key, plain, salt, nonce, e),
        nonce.len() == 12,
    ensures
        decrypt_spec(Some(key), e) == Ok::<Seq<char>, SafeStorageError>(plain),
{
    let sealed = aes_gcm_seal_spec(derive_key_spec(key, salt), nonce, vstd::utf8::encode_utf8(plain));
    let cut = sealed.len() - 16;
    assert(sealed.take(cut) + sealed.skip(cut) =~= sealed);
    vstd::utf8::encode_utf8_valid_utf8(plain);
    vstd::utf8::encode_utf8_decode_utf8(plain);
}

} // verus!
