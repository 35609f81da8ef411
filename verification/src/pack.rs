//! The package format: an executable followed by the resource payload and
//! a trailer that locates and checks it, and the resource pack that the
//! payload unpacks into.
//!
//! ```text
//! [original executable]
//! [payload: AES-256-GCM encrypted ZIP, or a plain ZIP]
//! [8 bytes: payload length, little-endian u64]
//! [32 bytes: SHA-256 of the payload]
//! [8 bytes: magic "NEFUPACK"]
//! ```

use vstd::prelude::*;
use crate::config::NefuConfig;
use crate::text::{chars_of, find, owned, push_all, replace_str, replace_spec, slice_chars, starts_with_str, string_from, has_prefix};
use crate::crypto::{aes_gcm_open, aes_gcm_open_spec, aes_gcm_seal, aes_gcm_seal_spec, random_bytes, sha256, sha256_spec};

verus! {

/// The magic marker that ends a package.
pub const MAGIC: [u8; 8] = [78u8, 69u8, 70u8, 85u8, 80u8, 65u8, 67u8, 75u8];

/// Length of the magic marker.
pub const MAGIC_LEN: usize = 8;

/// Length of the SHA-256 checksum.
pub const CHECKSUM_LEN: usize = 32;

/// Length of the payload-length field.
pub const LENGTH_FIELD_SIZE: usize = 8;

/// Length of the whole trailer.
pub const TRAILER_SIZE: usize = 48;

/// AES-256 key length.
pub const AES_KEY_LEN: usize = 32;

/// AES-GCM nonce length.
pub const NONCE_LEN: usize = 12;

/// The magic marker as a sequence.
pub open spec fn magic_spec() -> Seq<u8> {
    seq![78u8, 69u8, 70u8, 85u8, 80u8, 65u8, 67u8, 75u8]
}

/// The number that little-endian bytes denote.
pub open spec fn le_value(b: Seq<u8>) -> nat
    decreases b.len(),
{
    if b.len() == 0 {
        0
    } else {
        b[0] as nat + 256 * le_value(b.drop_first())
    }
}

/// `256` to the power `n`.
pub open spec fn pow256(n: nat) -> nat
    decreases n,
{
    if n == 0 {
        1
    } else {
        256 * pow256((n - 1) as nat)
    }
}

proof fn lemma_le_value_bound(b: Seq<u8>)
    ensures
        le_value(b) < pow256(b.len()),
    decreases b.len(),
{
    if b.len() > 0 {
        lemma_le_value_bound(b.drop_first());
        let r = le_value(b.drop_first());
        let p = pow256(b.drop_first().len());
        assert(b[0] as nat + 256 * r < 256 * p) by (nonlinear_arith)
            requires
                r < p,
                b[0] < 256,
        ;
    }
}

proof fn lemma_pow256_pos(n: nat)
    ensures
        pow256(n) >= 1,
    decreases n,
{
    if n > 0 {
        lemma_pow256_pos((n - 1) as nat);
    }
}

proof fn lemma_pow256_8()
    ensures
        pow256(8) == 18446744073709551616,
{
    reveal_with_fuel(pow256, 9);
}

/// The value of eight little-endian bytes (`u64::from_le_bytes`).
pub fn read_u64_le(b: &[u8]) -> (r: u64)
    requires
        b@.len() == 8,
    ensures
        r as nat == le_value(b@),
{
    proof {
        lemma_le_value_bound(b@);
        lemma_pow256_8();
    }
    let mut v: u64 = 0;
    let mut i: usize = 8;
    assert(b@.subrange(8, 8) =~= Seq::<u8>::empty());
    while i > 0
        invariant
            0 <= i <= 8,
            b@.len() == 8,
            v as nat == le_value(b@.subrange(i as int, 8)),
            le_value(b@) < 18446744073709551616,
        decreases i,
    {
        let ghost s = b@.subrange(i - 1, 8);
        assert(s.drop_first() =~= b@.subrange(i as int, 8));
        proof {
            lemma_le_value_suffix_bound(b@, i - 1);
            lemma_pow256_pos((i - 1) as nat);
            let sv = le_value(s);
            let p = pow256((i - 1) as nat);
            assert(sv == b@[i - 1] as nat + 256 * (v as nat));
            assert(sv <= sv * p) by (nonlinear_arith)
                requires
                    p >= 1,
            ;
        }
        v = v * 256 + b[i - 1] as u64;
        i = i - 1;
    }
    assert(b@.subrange(0, 8) =~= b@);
    v
}

proof fn lemma_le_value_suffix_bound(b: Seq<u8>, i: int)
    requires
        0 <= i <= b.len(),
    ensures
        le_value(b.subrange(i, b.len() as int)) * pow256(i as nat) <= le_value(b),
    decreases i,
{
    if i > 0 {
        lemma_le_value_suffix_bound(b.drop_first(), i - 1);
        assert(b.drop_first().subrange(i - 1, b.drop_first().len() as int) =~= b.subrange(
            i,
            b.len() as int,
        ));
        let x = le_value(b.subrange(i, b.len() as int));
        let p = pow256((i - 1) as nat);
        let r = le_value(b.drop_first());
        assert(pow256(i as nat) == 256 * p);
        assert(le_value(b) == b[0] as nat + 256 * r);
        assert(x * (256 * p) <= b[0] as nat + 256 * r) by (nonlinear_arith)
            requires
                x * p <= r,
        ;
    } else {
        assert(b.subrange(0, b.len() as int) =~= b);
        assert(pow256(0) == 1);
        assert(le_value(b) * 1 == le_value(b));
    }
}

/// The eight little-endian bytes of `x` (`u64::to_le_bytes`).
pub fn write_u64_le(x: u64) -> (r: Vec<u8>)
    ensures
        r@.len() == 8,
        le_value(r@) == x as nat,
{
    let mut bytes: Vec<u8> = Vec::new();
    let mut rest = x;
    let mut k: usize = 0;
    assert(pow256(0) == 1);
    assert(le_value(bytes@) == 0);
    while k < 8
        invariant
            0 <= k <= 8,
            bytes@.len() == k,
            x as nat == le_value(bytes@) + pow256(k as nat) * rest,
            rest as nat * pow256(k as nat) <= x as nat,
        decreases 8 - k,
    {
        let byte = (rest % 256) as u8;
        let next = rest / 256;
        proof {
            lemma_le_value_push(bytes@, byte);
            let p = pow256(k as nat);
            assert(pow256(k as nat + 1) == 256 * p);
            assert(p * (rest as nat) == p * (byte as nat) + (256 * p) * (next as nat))
                by (nonlinear_arith)
                requires
                    rest as nat == 256 * (next as nat) + byte as nat,
            ;
            assert((next as nat) * (256 * p) <= (rest as nat) * p) by (nonlinear_arith)
                requires
                    rest as nat == 256 * (next as nat) + byte as nat,
            ;
        }
        bytes.push(byte);
        rest = next;
        k = k + 1;
    }
    proof {
        lemma_pow256_8();
        if rest > 0 {
            assert(rest as nat * pow256(8) >= pow256(8)) by (nonlinear_arith)
                requires
                    rest > 0,
            ;
        }
    }
    bytes
}

proof fn lemma_le_value_push(b: Seq<u8>, x: u8)
    ensures
        le_value(b.push(x)) == le_value(b) + pow256(b.len()) * (x as nat),
    decreases b.len(),
{
    if b.len() == 0 {
        assert(b.push(x).drop_first() =~= Seq::<u8>::empty());
        assert(pow256(0) == 1);
        assert(le_value(b.push(x)) == x as nat + 256 * le_value(b.push(x).drop_first()));
    } else {
        lemma_le_value_push(b.drop_first(), x);
        assert(pow256(b.len()) == 256 * pow256(b.drop_first().len()));
        assert(b.push(x).drop_first() =~= b.drop_first().push(x));
        let r = le_value(b.drop_first());
        let p = pow256(b.drop_first().len());
        assert(256 * (r + p * (x as nat)) == 256 * r + (256 * p) * (x as nat)) by (nonlinear_arith);
    }
}

/// Two lowercase hexadecimal digits of a byte (`{:02x}`).
pub open spec fn hex_byte(b: u8) -> Seq<char> {
    seq![hex_digit_char((b / 16) as nat), hex_digit_char((b % 16) as nat)]
}

/// The lowercase hexadecimal digit of `d < 16`.
pub open spec fn hex_digit_char(d: nat) -> char {
    if d < 10 {
        (('0' as nat) + d) as char
    } else {
        (('a' as nat) + d - 10) as char
    }
}

/// Lowercase hexadecimal text of `bytes`, two digits per byte.
pub open spec fn hex_encode_spec(bytes: Seq<u8>) -> Seq<char>
    decreases bytes.len(),
{
    if bytes.len() == 0 {
        Seq::empty()
    } else {
        hex_encode_spec(bytes.drop_last()) + hex_byte(bytes.last())
    }
}

/// Hexadecimal text has two digits per byte.
pub proof fn lemma_hex_encode_len(bytes: Seq<u8>)
    ensures
        hex_encode_spec(bytes).len() == 2 * bytes.len(),
    decreases bytes.len(),
{
    if bytes.len() > 0 {
        lemma_hex_encode_len(bytes.drop_last());
    }
}

fn hex_digit_exec(d: u8) -> (c: char)
    requires
        d < 16,
    ensures
        c == hex_digit_char(d as nat),
{
    if d < 10 {
        ((('0' as u8) + d) as char)
    } else {
        ((('a' as u8) + d - 10) as char)
    }
}

/// Encodes bytes as lowercase hexadecimal text.
pub fn hex_encode(bytes: &[u8]) -> (r: String)
    ensures
        r@ == hex_encode_spec(bytes@),
{
    let mut v: Vec<char> = Vec::new();
    let mut i: usize = 0;
    while i < bytes.len()
        invariant
            0 <= i <= bytes@.len(),
            v@ == hex_encode_spec(bytes@.subrange(0, i as int)),
        decreases bytes@.len() - i,
    {
        let b = bytes[i];
        let ghost pre = bytes@.subrange(0, i as int + 1);
        assert(pre.drop_last() =~= bytes@.subrange(0, i as int));
        v.push(hex_digit_exec(b / 16));
        v.push(hex_digit_exec(b % 16));
        i = i + 1;
        assert(v@ =~= hex_encode_spec(bytes@.subrange(0, i as int)));
    }
    assert(bytes@.subrange(0, bytes@.len() as int) =~= bytes@);
    string_from(v.as_slice())
}

// ==================== Trailer ====================

/// Why package data was refused.
#[derive(Debug)]
pub enum PackError {
    /// The data is shorter than the trailer.
    TooShort,
    /// The data does not end with the magic marker.
    BadMagic,
    /// The recorded payload length is zero or exceeds the data before it.
    BadLength(u64),
    /// The payload's SHA-256 differs from the recorded checksum.
    ChecksumMismatch,
    /// An encrypted payload is too short to hold its key and nonce.
    EncryptedTooShort,
    /// AES-256-GCM refused the payload.
    DecryptFailed,
    /// The payload is not a ZIP archive that can be read.
    ZipFailed,
    /// Encryption failed.
    EncryptFailed,
    /// The archive could not be written.
    ZipWriteFailed,
}

/// The fields of a package's trailer.
pub open spec fn trailer_magic(d: Seq<u8>) -> Seq<u8> {
    d.subrange(d.len() - 8, d.len() as int)
}

/// The recorded checksum.
pub open spec fn trailer_checksum(d: Seq<u8>) -> Seq<u8> {
    d.subrange(d.len() - 40, d.len() - 8)
}

/// The recorded payload length.
pub open spec fn trailer_length(d: Seq<u8>) -> nat {
    le_value(d.subrange(d.len() - 48, d.len() - 40))
}

/// Where the length field starts.
pub open spec fn length_start(d: Seq<u8>) -> int {
    d.len() - 48
}

/// The payload that the trailer locates.
pub open spec fn trailer_payload(d: Seq<u8>) -> Seq<u8> {
    d.subrange(length_start(d) - trailer_length(d), length_start(d))
}

/// The outcome of reading and checking a trailer: the payload, or why not.
pub open spec fn check_trailer_spec(d: Seq<u8>) -> Result<Seq<u8>, PackError> {
    if d.len() < 48 {
        Err(PackError::TooShort)
    } else if trailer_magic(d) != magic_spec() {
        Err(PackError::BadMagic)
    } else if trailer_length(d) == 0 || trailer_length(d) > length_start(d) {
        Err(PackError::BadLength(trailer_length(d) as u64))
    } else if sha256_spec(trailer_payload(d)) != trailer_checksum(d) {
        Err(PackError::ChecksumMismatch)
    } else {
        Ok(trailer_payload(d))
    }
}

fn magic_matches(data: &[u8]) -> (r: bool)
    requires
        data@.len() >= 8,
    ensures
        r == (trailer_magic(data@) == magic_spec()),
{
    let n = data.len();
    let ghost m = trailer_magic(data@);
    let ok = data[n - 8] == 78u8 && data[n - 7] == 69u8 && data[n - 6] == 70u8 && data[n - 5] == 85u8
        && data[n - 4] == 80u8 && data[n - 3] == 65u8 && data[n - 2] == 67u8 && data[n - 1] == 75u8;
    assert(m[0] == data@[n - 8] && m[1] == data@[n - 7] && m[2] == data@[n - 6] && m[3] == data@[n - 5]
        && m[4] == data@[n - 4] && m[5] == data@[n - 3] && m[6] == data@[n - 2] && m[7] == data@[n - 1]);
    if ok {
        assert(m =~= magic_spec());
    }
    ok
}

fn bytes_eq(a: &[u8], b: &[u8]) -> (r: bool)
    ensures
        r == (a@ == b@),
{
    if a.len() != b.len() {
        return false;
    }
    let mut i: usize = 0;
    while i < a.len()
        invariant
            a@.len() == b@.len(),
            0 <= i <= a@.len(),
            forall|j: int| 0 <= j < i ==> a@[j] == b@[j],
        decreases a@.len() - i,
    {
        if a[i] != b[i] {
            return false;
        }
        i = i + 1;
    }
    assert(a@ =~= b@);
    true
}

/// Bytes `from..to` of `data`.
pub fn slice_bytes(data: &[u8], from: usize, to: usize) -> (r: Vec<u8>)
    requires
        from <= to <= data@.len(),
    ensures
        r@ == data@.subrange(from as int, to as int),
{
    let mut r: Vec<u8> = Vec::new();
    let mut i = from;
    while i < to
        invariant
            from <= i <= to <= data@.len(),
            r@ == data@.subrange(from as int, i as int),
        decreases to - i,
    {
        r.push(data[i]);
        i = i + 1;
    }
    r
}

/// Reads the trailer of `data` and checks the payload against its
/// checksum; the payload where all holds.
pub fn check_trailer(data: &[u8]) -> (r: Result<Vec<u8>, PackError>)
    ensures
        match (r, check_trailer_spec(data@)) {
            (Ok(p), Ok(q)) => p@ == q,
            (Err(e), Err(f)) => e == f,
            _ => false,
        },
{
    let n = data.len();
    if n < TRAILER_SIZE {
        return Err(PackError::TooShort);
    }
    if !magic_matches(data) {
        return Err(PackError::BadMagic);
    }
    let checksum = slice_bytes(data, n - 40, n - 8);
    let len_bytes = slice_bytes(data, n - 48, n - 40);
    let encrypted_len = read_u64_le(len_bytes.as_slice());
    let ls = n - 48;
    if encrypted_len == 0 || encrypted_len > ls as u64 {
        return Err(PackError::BadLength(encrypted_len));
    }
    let start = ls - (encrypted_len as usize);
    let payload = slice_bytes(data, start, ls);
    let computed = sha256(payload.as_slice());
    if !bytes_eq(computed.as_slice(), checksum.as_slice()) {
        return Err(PackError::ChecksumMismatch);
    }
    Ok(payload)
}

/// Verifies a package: its marker, length and checksum, without decrypting.
pub fn verify_package(data: &[u8]) -> (r: Result<bool, PackError>)
    ensures
        match check_trailer_spec(data@) {
            Ok(_) => r == Ok::<bool, PackError>(true),
            Err(PackError::ChecksumMismatch) => r == Ok::<bool, PackError>(false),
            Err(e) => r == Err::<bool, PackError>(e),
        },
{
    match check_trailer(data) {
        Ok(_) => Ok(true),
        Err(PackError::ChecksumMismatch) => Ok(false),
        Err(e) => Err(e),
    }
}

/// Metadata of a package, read without decrypting.
#[derive(Debug)]
pub struct PackageInfo {
    /// Size of the original executable.
    pub original_exe_size: usize,
    /// Size of the payload.
    pub encrypted_data_size: usize,
    /// Size of the whole file.
    pub total_size: usize,
    /// The recorded SHA-256, in lowercase hexadecimal.
    pub checksum_hex: String,
}

/// Reads the package metadata: sizes and checksum.
pub fn extract_package_info(data: &[u8]) -> (r: Result<PackageInfo, PackError>)
    ensures
        data@.len() < 48 ==> r matches Err(PackError::TooShort),
        data@.len() >= 48 && trailer_magic(data@) != magic_spec() ==> r matches Err(
            PackError::BadMagic,
        ),
        data@.len() >= 48 && trailer_magic(data@) == magic_spec() ==> (r matches Ok(info) && {
            &&& info.encrypted_data_size == trailer_length(data@) as usize
            &&& info.original_exe_size == (if info.encrypted_data_size <= length_start(data@) {
                length_start(data@) - info.encrypted_data_size
            } else {
                0
            })
            &&& info.total_size == data@.len()
            &&& info.checksum_hex@ == hex_encode_spec(trailer_checksum(data@))
        }),
{
    let n = data.len();
    if n < TRAILER_SIZE {
        return Err(PackError::TooShort);
    }
    if !magic_matches(data) {
        return Err(PackError::BadMagic);
    }
    let checksum = slice_bytes(data, n - 40, n - 8);
    let len_bytes = slice_bytes(data, n - 48, n - 40);
    let encrypted_len = read_u64_le(len_bytes.as_slice()) as usize;
    let ls = n - 48;
    let original = if encrypted_len <= ls {
        ls - encrypted_len
    } else {
        0
    };
    Ok(
        PackageInfo {
            original_exe_size: original,
            encrypted_data_size: encrypted_len,
            total_size: n,
            checksum_hex: hex_encode(checksum.as_slice()),
        },
    )
}

/// The package that `assemble_package` lays out.
pub open spec fn package_spec(exe: Seq<u8>, payload: Seq<u8>, len_bytes: Seq<u8>) -> Seq<u8> {
    exe + payload + len_bytes + sha256_spec(payload) + magic_spec()
}

/// Lays out a package: the executable, the payload, the payload's length,
/// its SHA-256 and the magic marker.
pub fn assemble_package(exe: &[u8], payload: &[u8]) -> (r: Vec<u8>)
    requires
        exe@.len() + payload@.len() + 48 <= usize::MAX,
    ensures
        exists|lb: Seq<u8>|
            lb.len() == 8 && le_value(lb) == payload@.len() && r@ == package_spec(
                exe@,
                payload@,
                lb,
            ),
{
    let mut out: Vec<u8> = Vec::new();
    push_bytes(&mut out, exe);
    push_bytes(&mut out, payload);
    let lb = write_u64_le(payload.len() as u64);
    push_bytes(&mut out, lb.as_slice());
    let sum = sha256(payload);
    push_bytes(&mut out, sum.as_slice());
    push_bytes(&mut out, MAGIC.as_slice());
    assert(MAGIC@ =~= magic_spec());
    assert(out@ =~= package_spec(exe@, payload@, lb@));
    out
}

fn push_bytes(a: &mut Vec<u8>, b: &[u8])
    ensures
        final(a)@ == old(a)@ + b@,
{
    let mut i: usize = 0;
    while i < b.len()
        invariant
            0 <= i <= b@.len(),
            a@ == old(a)@ + b@.subrange(0, i as int),
        decreases b@.len() - i,
    {
        a.push(b[i]);
        i = i + 1;
        assert(b@.subrange(0, i as int) == b@.subrange(0, i - 1) + seq![b@[i - 1]]);
    }
    assert(b@.subrange(0, b@.len() as int) == b@);
}

/// A package that `assemble_package` laid out passes its own checks and
/// gives back the payload, whatever executable precedes it.
pub proof fn lemma_package_roundtrip(exe: Seq<u8>, payload: Seq<u8>, lb: Seq<u8>)
    requires
        lb.len() == 8,
        le_value(lb) == payload.len(),
        payload.len() > 0,
        sha256_spec(payload).len() == 32,
    ensures
        check_trailer_spec(package_spec(exe, payload, lb)) == Ok::<Seq<u8>, PackError>(payload),
{
    let d = package_spec(exe, payload, lb);
    let n = d.len();
    assert(trailer_magic(d) =~= magic_spec());
    assert(trailer_checksum(d) =~= sha256_spec(payload));
    assert(d.subrange(n - 48, n - 40) =~= lb);
    assert(trailer_payload(d) =~= payload);
}

// ==================== Resource paths ====================

/// `s` without its leading `/`.
pub open spec fn drop_leading_slashes(s: Seq<char>) -> Seq<char> {
    crate::protocol::trim_leading_slashes(s)
}

/// `s` without the prefix `p`, where it has it.
pub open spec fn strip_prefix_spec(s: Seq<char>, p: Seq<char>) -> Seq<char> {
    if has_prefix(s, p) {
        s.subrange(p.len() as int, s.len() as int)
    } else {
        s
    }
}

/// A resource path with backslashes made slashes, leading slashes dropped
/// and a `nefu://` (then `localhost/`) prefix removed.
pub open spec fn normalize_resource_path_spec(path: Seq<char>) -> Seq<char> {
    let a = drop_leading_slashes(replace_spec(path, "\\"@, "/"@));
    if has_prefix(a, "nefu://"@) {
        strip_prefix_spec(a.subrange(7, a.len() as int), "localhost/"@)
    } else {
        a
    }
}

fn strip_prefix_chars(s: &[char], p: &str) -> (r: Vec<char>)
    ensures
        r@ == strip_prefix_spec(s@, p@),
{
    let pv = chars_of(p);
    if crate::text::starts_with(s, pv.as_slice()) {
        slice_chars(s, pv.len(), s.len())
    } else {
        slice_chars(s, 0, s.len())
    }
}

/// Normalizes the path under which a resource is stored and looked up.
pub fn normalize_resource_path(path: &str) -> (r: String)
    ensures
        r@ == normalize_resource_path_spec(path@),
{
    proof {
        reveal_strlit("\\");
        reveal_strlit("nefu://");
    }
    let v = chars_of(path);
    let a0 = replace_str(v.as_slice(), "\\", "/");
    let a = crate::protocol::strip_leading_slashes(a0.as_slice());
    if starts_with_str(a.as_slice(), "nefu://") {
        let rest = slice_chars(a.as_slice(), 7, a.len());
        let r = strip_prefix_chars(rest.as_slice(), "localhost/");
        string_from(r.as_slice())
    } else {
        string_from(a.as_slice())
    }
}

// ==================== Payload ====================

/// The first four bytes of a ZIP archive.
pub open spec fn zip_header() -> Seq<u8> {
    seq![0x50u8, 0x4Bu8, 0x03u8, 0x04u8]
}

/// The bytes begin with the ZIP header.
pub open spec fn is_plain_zip(b: Seq<u8>) -> bool {
    b.len() >= 4 && b.subrange(0, 4) == zip_header()
}

fn starts_with_zip_header(b: &[u8]) -> (r: bool)
    ensures
        r == is_plain_zip(b@),
{
    if b.len() < 4 {
        return false;
    }
    let r = b[0] == 0x50u8 && b[1] == 0x4Bu8 && b[2] == 0x03u8 && b[3] == 0x04u8;
    if r {
        assert(b@.subrange(0, 4) =~= zip_header());
    } else {
        assert(b@.subrange(0, 4)[0] == b@[0] && b@.subrange(0, 4)[1] == b@[1] && b@.subrange(0, 4)[2]
            == b@[2] && b@.subrange(0, 4)[3] == b@[3]);
    }
    r
}

/// What opening a payload gives: the archive bytes and, for an encrypted
/// payload, the key that opened it.
pub open spec fn open_payload_spec(payload: Seq<u8>) -> Result<(Seq<u8>, Option<Seq<u8>>), PackError> {
    if is_plain_zip(payload) {
        Ok((payload, None))
    } else if payload.len() < 44 {
        Err(PackError::EncryptedTooShort)
    } else {
        match aes_gcm_open_spec(payload.subrange(0, 32), payload.subrange(32, 44), payload.subrange(44, payload.len() as int)) {
            Some(plain) => Ok((plain, Some(payload.subrange(0, 32)))),
            None => Err(PackError::DecryptFailed),
        }
    }
}

/// Opens a payload: a plain archive as it is, else `[key][nonce][sealed]`
/// decrypted with AES-256-GCM.
pub fn open_payload(payload: &[u8]) -> (r: Result<(Vec<u8>, Option<Vec<u8>>), PackError>)
    ensures
        match (r, open_payload_spec(payload@)) {
            (Ok((z, k)), Ok((z2, k2))) => z@ == z2 && match (k, k2) {
                (Some(a), Some(b)) => a@ == b,
                (None, None) => true,
                _ => false,
            },
            (Err(e), Err(f)) => e == f,
            _ => false,
        },
{
    if starts_with_zip_header(payload) {
        return Ok((slice_bytes(payload, 0, payload.len()), None));
    }
    if payload.len() < AES_KEY_LEN + NONCE_LEN {
        return Err(PackError::EncryptedTooShort);
    }
    let key = slice_bytes(payload, 0, 32);
    let nonce = slice_bytes(payload, 32, 44);
    let sealed = slice_bytes(payload, 44, payload.len());
    match aes_gcm_open(key.as_slice(), nonce.as_slice(), sealed.as_slice()) {
        Some(plain) => Ok((plain, Some(key))),
        None => Err(PackError::DecryptFailed),
    }
}

/// Seals an archive with `key` and `nonce` into `[key][nonce][sealed]`.
pub fn seal_payload(zip: &[u8], key: &[u8], nonce: &[u8]) -> (r: Result<Vec<u8>, PackError>)
    requires
        key@.len() == 32,
        nonce@.len() == 12,
    ensures
        zip@.len() <= 0x1000000000 ==> r is Ok,
        r matches Ok(p) ==> p@ == key@ + nonce@ + aes_gcm_seal_spec(key@, nonce@, zip@)
            && aes_gcm_open_spec(key@, nonce@, aes_gcm_seal_spec(key@, nonce@, zip@)) == Some(zip@),
        r matches Err(e) ==> e == PackError::EncryptFailed,
{
    match aes_gcm_seal(key, nonce, zip) {
        Some(c) => {
            let mut out: Vec<u8> = Vec::new();
            push_bytes(&mut out, key);
            push_bytes(&mut out, nonce);
            push_bytes(&mut out, c.as_slice());
            Ok(out)
        },
        None => Err(PackError::EncryptFailed),
    }
}

/// A sealed payload opens to the archive that was sealed, with its key,
/// unless the random key happens to begin with the ZIP header (then the
/// payload would be taken for a plain archive).
pub proof fn lemma_seal_open(zip: Seq<u8>, key: Seq<u8>, nonce: Seq<u8>, sealed: Seq<u8>)
    requires
        key.len() == 32,
        nonce.len() == 12,
        sealed == aes_gcm_seal_spec(key, nonce, zip),
        aes_gcm_open_spec(key, nonce, sealed) == Some(zip),
        !(key.subrange(0, 4) == zip_header()),
    ensures
        open_payload_spec(key + nonce + sealed) == Ok::<(Seq<u8>, Option<Seq<u8>>), PackError>(
            (zip, Some(key)),
        ),
{
    let p = key + nonce + sealed;
    assert(p.subrange(0, 4) =~= key.subrange(0, 4));
    assert(p.subrange(0, 32) =~= key);
    assert(p.subrange(32, 44) =~= nonce);
    assert(p.subrange(44, p.len() as int) =~= sealed);
}

/// What a built package opens to: the package that `assemble_package`
/// lays out around a payload that `build_payload` made from an archive
/// passes the trailer check, and its payload opens to that archive again
/// (with the key it was sealed under), which `ResourcePack::unpack` then
/// reads. A sealed payload whose random key begins with the ZIP header is
/// the exception (it would be taken for a plain archive); a plain payload
/// must begin with the ZIP header to be read as one.
pub proof fn law_package_opens_to_archive(
    exe: Seq<u8>,
    zip: Seq<u8>,
    payload: Seq<u8>,
    lb: Seq<u8>,
    key: Option<Seq<u8>>,
    nonce: Seq<u8>,
)
    requires
        lb.len() == 8,
        le_value(lb) == payload.len(),
        payload.len() > 0,
        sha256_spec(payload).len() == 32,
        match key {
            Some(k) => k.len() == 32 && nonce.len() == 12 && payload == k + nonce + aes_gcm_seal_spec(k, nonce, zip)
                && aes_gcm_open_spec(k, nonce, aes_gcm_seal_spec(k, nonce, zip)) == Some(zip) && !(k.subrange(0, 4)
                == zip_header()),
            None => payload == zip && is_plain_zip(zip),
        },
    ensures
        check_trailer_spec(package_spec(exe, payload, lb)) == Ok::<Seq<u8>, PackError>(payload),
        open_payload_spec(payload) == Ok::<(Seq<u8>, Option<Seq<u8>>), PackError>((zip, key)),
{
    lemma_package_roundtrip(exe, payload, lb);
    match key {
        Some(k) => {
            lemma_seal_open(zip, k, nonce, aes_gcm_seal_spec(k, nonce, zip));
        },
        None => {},
    }
}

/// Builds a payload from archive bytes: the archive itself when encryption
/// is off, else the archive sealed under a fresh random key and nonce.
pub fn build_payload(zip: Vec<u8>, no_encrypt: bool) -> (r: Result<Vec<u8>, PackError>)
    ensures
        no_encrypt ==> (r matches Ok(p) && p@ == zip@),
        !no_encrypt && zip@.len() <= 0x1000000000 ==> r is Ok,
        !no_encrypt ==> (r matches Ok(p) ==> exists|k: Seq<u8>, n: Seq<u8>|
            k.len() == 32 && n.len() == 12 && p@ == k + n + aes_gcm_seal_spec(k, n, zip@)
            && aes_gcm_open_spec(k, n, aes_gcm_seal_spec(k, n, zip@)) == Some(zip@)),
        r matches Err(e) ==> e == PackError::EncryptFailed,
{
    if no_encrypt {
        return Ok(zip);
    }
    let key = random_bytes(AES_KEY_LEN);
    let nonce = random_bytes(NONCE_LEN);
    let r = seal_payload(zip.as_slice(), key.as_slice(), nonce.as_slice());
    proof {
        if r is Ok {
            assert(key@.len() == 32 && nonce@.len() == 12);
        }
    }
    r
}

/// Every entry name takes at most 65535 bytes in UTF-8, the most that a
/// ZIP header records.
pub open spec fn names_fit(entries: Seq<(String, Vec<u8>)>) -> bool {
    forall|i: int| 0 <= i < entries.len() ==> vstd::utf8::encode_utf8((#[trigger] entries[i]).0@).len() <= 0xFFFF
}

/// The entries that a ZIP archive holds, in archive order: name and content.
pub uninterp spec fn zip_entries_spec(data: Seq<u8>) -> Option<Seq<(Seq<char>, Seq<u8>)>>;

/// The archive that `zip::ZipWriter` writes for the entries, deflated or
/// stored.
pub uninterp spec fn zip_write_spec(entries: Seq<(Seq<char>, Seq<u8>)>, stored: bool) -> Option<Seq<u8>>;

/// Reads every entry of a ZIP archive (`zip::ZipArchive`): the entries, in
/// order, are named; any read error fails the whole.
#[verifier::external_body]
fn zip_read_entries(data: &[u8]) -> (r: Option<Vec<(String, Vec<u8>)>>)
    ensures
        match r {
            Some(v) => zip_entries_spec(data@) == Some(crate::kv::pairs_view(v@)),
            None => zip_entries_spec(data@) is None,
        },
{
    let mut archive = zip::ZipArchive::new(std::io::Cursor::new(data)).ok()?;
    let mut out = Vec::new();
    for i in 0..archive.len() {
        let mut file = archive.by_index(i).ok()?;
        let mut content = Vec::new();
        std::io::Read::read_to_end(&mut file, &mut content).ok()?;
        out.push((file.name().to_string(), content));
    }
    Some(out)
}

/// Writes the entries into a ZIP archive (`zip::ZipWriter`), deflated or,
/// with `stored`, stored; the archive is named, and reading it back
/// (`zip::ZipArchive`) gives the entries, names and contents, in order,
/// where every name fits the format's 16-bit name length (the writer
/// truncates a longer one's length field).
#[verifier::external_body]
pub fn zip_archive(entries: &Vec<(String, Vec<u8>)>, stored: bool) -> (r: Option<Vec<u8>>)
    ensures
        match r {
            Some(b) => zip_write_spec(crate::kv::pairs_view(entries@), stored) == Some(b@),
            None => zip_write_spec(crate::kv::pairs_view(entries@), stored) is None,
        },
        names_fit(entries@) ==> (r matches Some(b) ==> zip_entries_spec(b@) == Some(
            crate::kv::pairs_view(entries@),
        )),
{
    let method = if stored { zip::CompressionMethod::Stored } else { zip::CompressionMethod::Deflated };
    let options = zip::write::FileOptions::default().compression_method(method).unix_permissions(0o755);
    let mut zip = zip::ZipWriter::new(std::io::Cursor::new(Vec::new()));
    for (name, content) in entries.iter() {
        zip.start_file(name.clone(), options).ok()?;
        std::io::Write::write_all(&mut zip, content).ok()?;
    }
    Some(zip.finish().ok()?.into_inner())
}

/// `p` is an archive `z` sealed as `[key][nonce][sealed]` under some key
/// and nonce.
pub open spec fn sealed_payload(p: Seq<u8>, z: Seq<u8>) -> bool {
    exists|k: Seq<u8>, n: Seq<u8>|
        k.len() == 32 && n.len() == 12 && p == k + n + aes_gcm_seal_spec(k, n, z) && aes_gcm_open_spec(
            k,
            n,
            aes_gcm_seal_spec(k, n, z),
        ) == Some(z)
}

/// The payload of a package of the entries: their archive (stored with
/// `no_compress`, else deflated), sealed under a fresh key unless
/// `no_encrypt`.
pub fn pack_resources(entries: &Vec<(String, Vec<u8>)>, no_compress: bool, no_encrypt: bool) -> (r: Result<
    Vec<u8>,
    PackError,
>)
    ensures
        zip_write_spec(crate::kv::pairs_view(entries@), no_compress) is None ==> r == Err::<Vec<u8>, PackError>(
            PackError::ZipWriteFailed,
        ),
        zip_write_spec(crate::kv::pairs_view(entries@), no_compress) matches Some(z) ==> {
            &&& names_fit(entries@) ==> zip_entries_spec(z) == Some(crate::kv::pairs_view(entries@))
            &&& no_encrypt ==> (r matches Ok(p) && p@ == z)
            &&& !no_encrypt && z.len() <= 0x1000000000 ==> r is Ok
            &&& !no_encrypt ==> (r matches Ok(p) ==> sealed_payload(p@, z))
            &&& r matches Err(e) ==> e == PackError::EncryptFailed
        },
{
    match zip_archive(entries, no_compress) {
        Some(z) => {
            let ghost zv = z@;
            let r = build_payload(z, no_encrypt);
            proof {
                if !no_encrypt && r is Ok {
                    let p = r->Ok_0;
                    let (k, n) = choose|k: Seq<u8>, n: Seq<u8>|
                        k.len() == 32 && n.len() == 12 && p@ == k + n + aes_gcm_seal_spec(k, n, zv)
                            && aes_gcm_open_spec(k, n, aes_gcm_seal_spec(k, n, zv)) == Some(zv);
                    assert(k.len() == 32 && n.len() == 12 && p@ == k + n + aes_gcm_seal_spec(k, n, zv)
                        && aes_gcm_open_spec(k, n, aes_gcm_seal_spec(k, n, zv)) == Some(zv));
                    assert(sealed_payload(p@, zv));
                }
            }
            r
        },
        None => Err(PackError::ZipWriteFailed),
    }
}

// ==================== Resource pack ====================

/// Extensions of headers, libraries and object files, which are not packed.
pub open spec fn library_ext(e: Seq<char>) -> bool {
    e == "h"@ || e == "hpp"@ || e == "a"@ || e == "lib"@ || e == "so"@ || e == "dylib"@ || e == "dll"@ || e
        == "o"@ || e == "obj"@
}

/// A project file (by its path relative to the project, with `/`) is packed
/// unless an exclusion pattern matches it, it lies under `target/`, or it
/// is a header, library or object file.
pub open spec fn packable_spec(config: NefuConfig, rel: Seq<char>) -> bool {
    &&& !(exists|i: int|
        0 <= i < config.exclude@.len() && #[trigger] crate::glob::glob_spec(config.exclude@[i]@, rel))
    &&& !has_prefix(rel, "target/"@)
    &&& !library_ext(crate::server::lower_extension(rel))
}

/// Whether a project file goes into the package.
pub fn is_packable(config: &NefuConfig, rel_path: &str) -> (r: bool)
    ensures
        r == packable_spec(*config, rel_path@),
{
    if config.is_excluded(rel_path) {
        return false;
    }
    let p = chars_of(rel_path);
    if starts_with_str(p.as_slice(), "target/") {
        return false;
    }
    let ext: Vec<char> = match crate::protocol::path_extension(rel_path) {
        Some(e) => {
            let ev = chars_of(e.as_str());
            crate::text::to_lowercase(ev.as_slice())
        },
        None => Vec::new(),
    };
    let e = ext.as_slice();
    !(crate::text::eq_str(e, "h") || crate::text::eq_str(e, "hpp") || crate::text::eq_str(e, "a")
        || crate::text::eq_str(e, "lib") || crate::text::eq_str(e, "so") || crate::text::eq_str(e, "dylib")
        || crate::text::eq_str(e, "dll") || crate::text::eq_str(e, "o") || crate::text::eq_str(e, "obj"))
}

/// Files as the fingerprint sees them: each path with its content, where
/// the file could be read.
pub open spec fn fingerprint_files(files: Seq<(String, Option<Vec<u8>>)>) -> Seq<(Seq<char>, Option<Seq<u8>>)> {
    files.map_values(
        |e: (String, Option<Vec<u8>>)|
            (
                e.0@,
                match e.1 {
                    Some(c) => Some(c@),
                    None => None,
                },
            ),
    )
}

/// The content recorded for the first file of a path (none where the path
/// is missing or its file could not be read).
pub open spec fn first_content(files: Seq<(Seq<char>, Option<Seq<u8>>)>, p: Seq<char>) -> Option<Seq<u8>>
    decreases files.len(),
{
    if files.len() == 0 {
        None
    } else if files[0].0 == p {
        files[0].1
    } else {
        first_content(files.drop_first(), p)
    }
}

/// What a file adds to the fingerprint: its path's UTF-8, a zero byte, the
/// SHA-256 of its content where it was read, and a zero byte.
pub open spec fn fingerprint_entry(files: Seq<(Seq<char>, Option<Seq<u8>>)>, p: Seq<char>) -> Seq<u8> {
    vstd::utf8::encode_utf8(p) + seq![0u8] + match first_content(files, p) {
        Some(c) => sha256_spec(c),
        None => Seq::empty(),
    } + seq![0u8]
}

/// The entries of the paths, in the given order.
pub open spec fn fingerprint_entries(files: Seq<(Seq<char>, Option<Seq<u8>>)>, paths: Seq<Seq<char>>) -> Seq<u8>
    decreases paths.len(),
{
    if paths.len() == 0 {
        Seq::empty()
    } else {
        fingerprint_entries(files, paths.drop_last()) + fingerprint_entry(files, paths.last())
    }
}

/// The bytes hashed for a build: the compression and encryption settings,
/// then the entries of the paths.
pub open spec fn fingerprint_bytes(
    no_compress: bool,
    no_encrypt: bool,
    files: Seq<(Seq<char>, Option<Seq<u8>>)>,
    paths: Seq<Seq<char>>,
) -> Seq<u8> {
    vstd::utf8::encode_utf8(if no_compress { "no_compress"@ } else { "compress"@ })
        + vstd::utf8::encode_utf8(if no_encrypt { "no_encrypt"@ } else { "encrypt"@ })
        + fingerprint_entries(files, paths)
}

fn first_content_exec<'a>(files: &'a Vec<(String, Option<Vec<u8>>)>, p: &[char]) -> (r: Option<&'a Vec<u8>>)
    ensures
        match (r, first_content(fingerprint_files(files@), p@)) {
            (Some(c), Some(d)) => c@ == d,
            (None, None) => true,
            _ => false,
        },
{
    let ghost fv = fingerprint_files(files@);
    let mut i: usize = 0;
    assert(fv.skip(0) =~= fv);
    while i < files.len()
        invariant
            0 <= i <= files@.len(),
            fv == fingerprint_files(files@),
            first_content(fv, p@) == first_content(fv.skip(i as int), p@),
        decreases files@.len() - i,
    {
        let k = chars_of(files[i].0.as_str());
        assert(fv.skip(i as int)[0] == fv[i as int]);
        assert(fv.skip(i as int).drop_first() =~= fv.skip(i + 1));
        if crate::text::seq_eq(k.as_slice(), p) {
            return match &files[i].1 {
                Some(c) => Some(c),
                None => None,
            };
        }
        i = i + 1;
    }
    None
}

/// The fingerprint of a build: the lowercase hex SHA-256 of the settings
/// and of each file, by path in code-point order (the byte order of UTF-8).
/// A build whose fingerprint is unchanged can reuse the previous output.
pub fn files_fingerprint(no_compress: bool, no_encrypt: bool, files: &Vec<(String, Option<Vec<u8>>)>) -> (r: String)
    ensures
        exists|paths: Seq<Seq<char>>|
            crate::bridge::sorted_texts(paths) && paths.to_multiset() == crate::config::string_views(
                files@.map_values(|e: (String, Option<Vec<u8>>)| e.0),
            ).to_multiset() && r@ == hex_encode_spec(
                sha256_spec(fingerprint_bytes(no_compress, no_encrypt, fingerprint_files(files@), paths)),
            ),
{
    let ghost fv = fingerprint_files(files@);
    let ghost names = crate::config::string_views(files@.map_values(|e: (String, Option<Vec<u8>>)| e.0));
    let mut paths: Vec<Vec<char>> = Vec::new();
    let mut i: usize = 0;
    while i < files.len()
        invariant
            0 <= i <= files@.len(),
            names == crate::config::string_views(files@.map_values(|e: (String, Option<Vec<u8>>)| e.0)),
            crate::text::views(paths@) == names.take(i as int),
        decreases files@.len() - i,
    {
        let ghost before = crate::text::views(paths@);
        let x = chars_of(files[i].0.as_str());
        assert(x@ == names[i as int]);
        paths.push(x);
        assert(crate::text::views(paths@) =~= before.push(x@));
        assert(names.take(i + 1) =~= names.take(i as int).push(names[i as int]));
        i = i + 1;
    }
    assert(names.take(files@.len() as int) =~= names);
    let sorted = crate::bridge::sort_texts(paths);
    let ghost sp = crate::text::views(sorted@);
    let mut bytes: Vec<u8> = if no_compress {
        "no_compress".as_bytes_vec()
    } else {
        "compress".as_bytes_vec()
    };
    let mut flag2: Vec<u8> = if no_encrypt {
        "no_encrypt".as_bytes_vec()
    } else {
        "encrypt".as_bytes_vec()
    };
    bytes.append(&mut flag2);
    let ghost start = bytes@;
    assert(start == vstd::utf8::encode_utf8(if no_compress { "no_compress"@ } else { "compress"@ })
        + vstd::utf8::encode_utf8(if no_encrypt { "no_encrypt"@ } else { "encrypt"@ }));
    let mut k: usize = 0;
    assert(sp.take(0) =~= Seq::<Seq<char>>::empty());
    while k < sorted.len()
        invariant
            0 <= k <= sorted@.len(),
            sp == crate::text::views(sorted@),
            fv == fingerprint_files(files@),
            bytes@ == start + fingerprint_entries(fv, sp.take(k as int)),
        decreases sorted@.len() - k,
    {
        let p = sorted[k].as_slice();
        let ps = string_from(p);
        let mut pb = ps.as_str().as_bytes_vec();
        bytes.append(&mut pb);
        bytes.push(0u8);
        match first_content_exec(files, p) {
            Some(c) => {
                let mut h = sha256(c.as_slice());
                bytes.append(&mut h);
            },
            None => {},
        }
        bytes.push(0u8);
        proof {
            assert(sp.take(k + 1).drop_last() =~= sp.take(k as int));
            assert(sp.take(k + 1).last() == p@);
        }
        assert(bytes@ =~= start + fingerprint_entries(fv, sp.take(k + 1)));
        k = k + 1;
    }
    assert(sp.take(sorted@.len() as int) =~= sp);
    let digest = sha256(bytes.as_slice());
    hex_encode(digest.as_slice())
}

/// The resources of a package, by normalized path.
#[derive(Debug)]
pub struct ResourcePack {
    files: Vec<(String, Vec<u8>)>,
    decryption_key: Option<Vec<u8>>,
}

/// No two entries carry the same name.
pub open spec fn unique_names<T>(v: Seq<(String, T)>) -> bool {
    forall|i: int, j: int| 0 <= i < j < v.len() ==> (#[trigger] v[i]).0@ != (#[trigger] v[j]).0@
}

/// The total length of all contents.
pub open spec fn total_len(v: Seq<(String, Vec<u8>)>) -> nat
    decreases v.len(),
{
    if v.len() == 0 {
        0
    } else {
        total_len(v.drop_last()) + v.last().1@.len()
    }
}

impl ResourcePack {
    #[verifier::type_invariant]
    spec fn inv(self) -> bool {
        unique_names(self.files@)
    }

    /// The resources, by path.
    pub closed spec fn files_map(self) -> Map<Seq<char>, Seq<u8>> {
        crate::kv::map_of(self.files@)
    }

    /// The number of resources.
    pub closed spec fn count(self) -> nat {
        self.files@.len()
    }

    /// The total size of the resources.
    pub closed spec fn size(self) -> nat {
        total_len(self.files@)
    }

    /// The key that decrypted the payload, where it was encrypted.
    pub closed spec fn key(self) -> Option<Seq<u8>> {
        match self.decryption_key {
            Some(k) => Some(k@),
            None => None,
        }
    }

    /// An empty resource pack.
    pub fn new() -> (r: ResourcePack)
        ensures
            r.files_map() == Map::<Seq<char>, Seq<u8>>::empty(),
            r.count() == 0,
            r.size() == 0,
            r.key() is None,
    {
        ResourcePack { files: Vec::new(), decryption_key: None }
    }

    /// The pack as it is after storing `content` under `name`.
    fn insert_file(&mut self, name: String, content: Vec<u8>)
        ensures
            final(self).files_map() == old(self).files_map().insert(name@, content@),
            final(self).key() == old(self).key(),
    {
        proof {
            use_type_invariant(&*self);
        }
        let k = chars_of(name.as_str());
        let mut i: usize = 0;
        while i < self.files.len()
            invariant
                0 <= i <= self.files@.len(),
                k@ == name@,
                unique_names(self.files@),
                self.files@ == old(self).files@,
                self.decryption_key == old(self).decryption_key,
                forall|j: int| 0 <= j < i ==> (#[trigger] self.files@[j]).0@ != name@,
            decreases self.files@.len() - i,
        {
            let n = chars_of(self.files[i].0.as_str());
            if crate::text::seq_eq(n.as_slice(), k.as_slice()) {
                let mut files: Vec<(String, Vec<u8>)> = Vec::new();
                std::mem::swap(&mut files, &mut self.files);
                let ghost before = files@;
                files.remove(i);
                proof {
                    lemma_remove_unique(before, i as int, name@);
                }
                let ghost mid = files@;
                proof {
                    crate::kv::lemma_map_of_push(files@, name, content);
                }
                files.push((name, content));
                proof {
                    assert forall|a: int, b: int| 0 <= a < b < files@.len() implies (#[trigger] files@[a]).0@
                        != (#[trigger] files@[b]).0@ by {
                        if b == files@.len() - 1 {
                            assert(files@[a] == mid[a]);
                            assert(mid[a] == before[if a < i { a } else { a + 1 }]);
                        } else {
                            assert(files@[a] == mid[a] && files@[b] == mid[b]);
                            assert(mid[a] == before[if a < i { a } else { a + 1 }]);
                            assert(mid[b] == before[if b < i { b } else { b + 1 }]);
                        }
                    }
                }
                assert(crate::kv::map_of(files@) =~= crate::kv::map_of(before).insert(name@, content@));
                self.files = files;
                return;
            }
            i = i + 1;
        }
        let mut files: Vec<(String, Vec<u8>)> = Vec::new();
                std::mem::swap(&mut files, &mut self.files);
        proof {
            crate::kv::lemma_map_of_push(files@, name, content);
        }
        let ghost before = files@;
        files.push((name, content));
        proof {
            assert forall|a: int, b: int| 0 <= a < b < files@.len() implies (#[trigger] files@[a]).0@
                != (#[trigger] files@[b]).0@ by {
                assert(files@[a] == before[a]);
                if b < before.len() {
                    assert(files@[b] == before[b]);
                }
            }
        }
        self.files = files;
    }

    /// Unpacks a package: checks its trailer, opens the payload and reads
    /// every archive entry that is not a directory.
    pub fn unpack(data: &[u8]) -> (r: Result<ResourcePack, PackError>)
        ensures
            match r {
                Ok(pack) => check_trailer_spec(data@) is Ok && open_payload_spec(
                    check_trailer_spec(data@)->Ok_0,
                ) is Ok && zip_entries_spec(open_payload_spec(check_trailer_spec(data@)->Ok_0)->Ok_0.0)
                    is Some && pack.files_map() == files_of_entries(
                    zip_entries_spec(open_payload_spec(check_trailer_spec(data@)->Ok_0)->Ok_0.0)->0,
                ) && pack.key() == open_payload_spec(check_trailer_spec(data@)->Ok_0)->Ok_0.1,
                Err(e) => match check_trailer_spec(data@) {
                    Err(f) => e == f,
                    Ok(p) => match open_payload_spec(p) {
                        Err(f) => e == f,
                        Ok((z, _)) => e == PackError::ZipFailed && zip_entries_spec(z) is None,
                    },
                },
            },
    {
        let payload = check_trailer(data)?;
        let (zip, key) = open_payload(payload.as_slice())?;
        let entries = match zip_read_entries(zip.as_slice()) {
            Some(e) => e,
            None => return Err(PackError::ZipFailed),
        };
        let mut pack = ResourcePack::new();
        pack.decryption_key = key;
        let mut i: usize = 0;
        while i < entries.len()
            invariant
                0 <= i <= entries@.len(),
                pack.files_map() == files_of_entries(crate::kv::pairs_view(entries@).subrange(0, i as int)),
                pack.key() == (match key {
                    Some(k) => Some(k@),
                    None => None,
                }),
            decreases entries@.len() - i,
        {
            let ghost pre = crate::kv::pairs_view(entries@).subrange(0, i as int + 1);
            assert(pre.drop_last() =~= crate::kv::pairs_view(entries@).subrange(0, i as int));
            let name = &entries[i].0;
            let nv = chars_of(name.as_str());
            if !crate::text::ends_with_str(nv.as_slice(), "/") {
                pack.insert_file(name.clone(), entries[i].1.clone());
            }
            i = i + 1;
        }
        assert(crate::kv::pairs_view(entries@).subrange(0, entries@.len() as int) =~= crate::kv::pairs_view(entries@));
        Ok(pack)
    }

    /// The content stored under the normalized form of `path`.
    pub fn get(&self, path: &str) -> (r: Option<&Vec<u8>>)
        ensures
            match r {
                Some(c) => self.files_map().contains_key(normalize_resource_path_spec(path@))
                    && self.files_map()[normalize_resource_path_spec(path@)] == c@,
                None => !self.files_map().contains_key(normalize_resource_path_spec(path@)),
            },
    {
        let n = normalize_resource_path(path);
        crate::kv::kv_get(&self.files, n.as_str())
    }

    /// Whether a resource is stored under the normalized form of `path`.
    pub fn contains(&self, path: &str) -> (r: bool)
        ensures
            r == self.files_map().contains_key(normalize_resource_path_spec(path@)),
    {
        match self.get(path) {
            Some(_) => true,
            None => false,
        }
    }

    /// The paths of all resources.
    pub fn list_files(&self) -> (r: Vec<String>)
        ensures
            r@.len() == self.count(),
            forall|i: int| 0 <= i < r@.len() ==> self.files_map().contains_key(#[trigger] r@[i]@),
            forall|k: Seq<char>| self.files_map().contains_key(k) ==> exists|i: int| 0 <= i < r@.len() && (#[trigger] r@[i])@ == k,
    {
        let mut out: Vec<String> = Vec::new();
        let mut i: usize = 0;
        while i < self.files.len()
            invariant
                0 <= i <= self.files@.len(),
                out@.len() == i,
                forall|j: int| 0 <= j < i ==> (#[trigger] out@[j])@ == self.files@[j].0@,
            decreases self.files@.len() - i,
        {
            out.push(self.files[i].0.clone());
            i = i + 1;
        }
        proof {
            let pv = crate::kv::pairs_view(self.files@);
            assert forall|j: int| 0 <= j < out@.len() implies self.files_map().contains_key(#[trigger] out@[j]@) by {
                crate::kv::lemma_kv_dom(pv, out@[j]@);
                assert(pv[j].0 == out@[j]@);
            }
            assert forall|k: Seq<char>| self.files_map().contains_key(k) implies exists|j: int| 0 <= j < out@.len() && (#[trigger] out@[j])@ == k by {
                crate::kv::lemma_kv_dom(pv, k);
                let j = choose|j: int| 0 <= j < pv.len() && (#[trigger] pv[j]).0 == k;
                assert(out@[j]@ == k);
            }
        }
        out
    }

    /// The number of resources.
    pub fn file_count(&self) -> (r: usize)
        ensures
            r == self.count(),
            r == self.files_map().dom().len(),
    {
        proof {
            use_type_invariant(self);
            let pv = crate::kv::pairs_view(self.files@);
            assert forall|i: int, j: int| 0 <= i < j < pv.len() implies (#[trigger] pv[i]).0 != (#[trigger] pv[j]).0 by {
                assert(self.files@[i].0@ != self.files@[j].0@);
            }
            lemma_kv_map_len(pv);
        }
        self.files.len()
    }

    /// The total size of the resources in bytes.
    pub fn total_size(&self) -> (r: usize)
        requires
            self.size() <= usize::MAX,
        ensures
            r == self.size(),
    {
        let mut total: usize = 0;
        let mut i: usize = 0;
        while i < self.files.len()
            invariant
                0 <= i <= self.files@.len(),
                total == total_len(self.files@.subrange(0, i as int)),
                total_len(self.files@) <= usize::MAX,
            decreases self.files@.len() - i,
        {
            let ghost pre = self.files@.subrange(0, i as int + 1);
            assert(pre.drop_last() =~= self.files@.subrange(0, i as int));
            proof {
                lemma_total_len_prefix(self.files@, i as int + 1);
            }
            total = total + self.files[i].1.len();
            i = i + 1;
        }
        assert(self.files@.subrange(0, self.files@.len() as int) =~= self.files@);
        total
    }
}

proof fn lemma_total_len_prefix(v: Seq<(String, Vec<u8>)>, i: int)
    requires
        0 <= i <= v.len(),
    ensures
        total_len(v.subrange(0, i)) <= total_len(v),
    decreases v.len() - i,
{
    if i < v.len() {
        lemma_total_len_prefix(v, i + 1);
        assert(v.subrange(0, i + 1).drop_last() =~= v.subrange(0, i));
    } else {
        assert(v.subrange(0, i) =~= v);
    }
}

proof fn lemma_remove_unique<T: View>(v: Seq<(String, T)>, i: int, name: Seq<char>)
    requires
        0 <= i < v.len(),
        v[i].0@ == name,
        unique_names(v),
    ensures
        unique_names(v.remove(i)),
        crate::kv::map_of(v.remove(i)) == crate::kv::map_of(v).remove(name),
        forall|j: int| 0 <= j < v.remove(i).len() ==> (#[trigger] v.remove(i)[j]).0@ != name,
    decreases v.len(),
{
    let w = v.remove(i);
    assert forall|j: int| 0 <= j < w.len() implies (#[trigger] w[j]).0@ != name by {
        if j < i {
            assert(w[j] == v[j]);
        } else {
            assert(w[j] == v[j + 1]);
        }
    }
    assert forall|a: int, b: int| 0 <= a < b < w.len() implies (#[trigger] w[a]).0@ != (#[trigger] w[b]).0@ by {
        assert(w[a] == v[if a < i { a } else { a + 1 }]);
        assert(w[b] == v[if b < i { b } else { b + 1 }]);
    }
    lemma_map_remove(v, i);
}

proof fn lemma_map_remove<T: View>(v: Seq<(String, T)>, i: int)
    requires
        0 <= i < v.len(),
        unique_names(v),
    ensures
        crate::kv::map_of(v.remove(i)) == crate::kv::map_of(v).remove(v[i].0@),
    decreases v.len(),
{
    let pv = crate::kv::pairs_view(v);
    if i == v.len() - 1 {
        assert(v.remove(i) =~= v.drop_last());
        assert(pv.drop_last() =~= crate::kv::pairs_view(v.drop_last()));
        lemma_not_in_map(v.drop_last(), v[i].0@);
        assert(crate::kv::map_of(v) == crate::kv::map_of(v.drop_last()).insert(v[i].0@, v[i].1@));
        assert(crate::kv::map_of(v.drop_last()) =~= crate::kv::map_of(v).remove(v[i].0@));
    } else {
        let d = v.drop_last();
        assert forall|a: int, b: int| 0 <= a < b < d.len() implies (#[trigger] d[a]).0@ != (#[trigger] d[b]).0@ by {
            assert(d[a] == v[a] && d[b] == v[b]);
        }
        lemma_map_remove(d, i);
        assert(v.remove(i).drop_last() =~= d.remove(i));
        assert(crate::kv::pairs_view(v.remove(i)).drop_last() =~= crate::kv::pairs_view(d.remove(i)));
        assert(pv.drop_last() =~= crate::kv::pairs_view(d));
        assert(v.remove(i).last() == v.last());
        assert(v.last().0@ != v[i].0@);
        assert(crate::kv::map_of(v.remove(i)) =~= crate::kv::map_of(v).remove(v[i].0@));
    }
}

proof fn lemma_not_in_map<T: View>(v: Seq<(String, T)>, k: Seq<char>)
    requires
        forall|j: int| 0 <= j < v.len() ==> (#[trigger] v[j]).0@ != k,
    ensures
        !crate::kv::map_of(v).contains_key(k),
{
    let pv = crate::kv::pairs_view(v);
    crate::kv::lemma_kv_dom(pv, k);
    if exists|j: int| 0 <= j < pv.len() && (#[trigger] pv[j]).0 == k {
        let j = choose|j: int| 0 <= j < pv.len() && (#[trigger] pv[j]).0 == k;
        assert(v[j].0@ == k);
    }
}

/// The resources that archive entries give: every entry whose name does not
/// end with `/`, a later entry replacing an earlier one of the same name.
pub open spec fn files_of_entries(entries: Seq<(Seq<char>, Seq<u8>)>) -> Map<Seq<char>, Seq<u8>>
    decreases entries.len(),
{
    if entries.len() == 0 {
        Map::empty()
    } else {
        let m = files_of_entries(entries.drop_last());
        let e = entries.last();
        if crate::text::has_suffix(e.0, "/"@) {
            m
        } else {
            m.insert(e.0, e.1)
        }
    }
}

/// Where no entry name ends in `/`, the files of the entries are the map
/// that inserting them in order gives.
proof fn lemma_files_of_entries_kv(entries: Seq<(Seq<char>, Seq<u8>)>)
    requires
        forall|i: int| 0 <= i < entries.len() ==> !crate::text::has_suffix(#[trigger] entries[i].0, "/"@),
    ensures
        files_of_entries(entries) == crate::kv::kv_map(entries),
    decreases entries.len(),
{
    if entries.len() > 0 {
        let d = entries.drop_last();
        assert forall|i: int| 0 <= i < d.len() implies !crate::text::has_suffix(#[trigger] d[i].0, "/"@) by {
            assert(d[i] == entries[i]);
        }
        lemma_files_of_entries_kv(d);
        assert(!crate::text::has_suffix(entries[entries.len() - 1].0, "/"@));
    }
}

/// The map of pairs with distinct names has one key per pair.
proof fn lemma_kv_map_len(entries: Seq<(Seq<char>, Seq<u8>)>)
    requires
        forall|i: int, j: int| 0 <= i < j < entries.len() ==> (#[trigger] entries[i]).0 != (#[trigger] entries[j]).0,
    ensures
        crate::kv::kv_map(entries).dom().finite(),
        crate::kv::kv_map(entries).dom().len() == entries.len(),
    decreases entries.len(),
{
    if entries.len() > 0 {
        let d = entries.drop_last();
        assert forall|i: int, j: int| 0 <= i < j < d.len() implies (#[trigger] d[i]).0 != (#[trigger] d[j]).0 by {
            assert(d[i] == entries[i] && d[j] == entries[j]);
        }
        lemma_kv_map_len(d);
        let last = entries.last();
        crate::kv::lemma_kv_dom(d, last.0);
        if crate::kv::kv_map(d).contains_key(last.0) {
            let i = choose|i: int| 0 <= i < d.len() && (#[trigger] d[i]).0 == last.0;
            assert(entries[i] == d[i]);
            assert(entries[i].0 != entries[entries.len() - 1].0);
        }
    }
}

/// Packing then unpacking gives the files back. Take files with distinct
/// names, none ending in `/`, and the archive that `zip_archive` wrote for
/// them, which reads back as those entries (as `zip_archive` states for
/// names of at most 65535 bytes). The package that `assemble_package` lays
/// out around the payload that `build_payload` made from that archive
/// passes the checks of `ResourcePack::unpack`, its payload opens to the
/// archive with the key it was sealed under, and the files that `unpack`
/// then holds map each name to its content and nothing else: one per file.
/// A sealed payload whose random key begins with the ZIP header is the
/// exception (it would be taken for a plain archive); a plain payload must
/// begin with the ZIP header to be read as one.
pub proof fn law_pack_then_unpack(
    exe: Seq<u8>,
    files: Seq<(Seq<char>, Seq<u8>)>,
    zip: Seq<u8>,
    payload: Seq<u8>,
    lb: Seq<u8>,
    key: Option<Seq<u8>>,
    nonce: Seq<u8>,
)
    requires
        forall|i: int, j: int| 0 <= i < j < files.len() ==> (#[trigger] files[i]).0 != (#[trigger] files[j]).0,
        forall|i: int| 0 <= i < files.len() ==> !crate::text::has_suffix(#[trigger] files[i].0, "/"@),
        zip_entries_spec(zip) == Some(files),
        lb.len() == 8,
        le_value(lb) == payload.len(),
        payload.len() > 0,
        sha256_spec(payload).len() == 32,
        match key {
            Some(k) => k.len() == 32 && nonce.len() == 12 && payload == k + nonce + aes_gcm_seal_spec(k, nonce, zip)
                && aes_gcm_open_spec(k, nonce, aes_gcm_seal_spec(k, nonce, zip)) == Some(zip) && !(k.subrange(0, 4)
                == zip_header()),
            None => payload == zip && is_plain_zip(zip),
        },
    ensures
        check_trailer_spec(package_spec(exe, payload, lb)) == Ok::<Seq<u8>, PackError>(payload),
        open_payload_spec(payload) == Ok::<(Seq<u8>, Option<Seq<u8>>), PackError>((zip, key)),
        zip_entries_spec(open_payload_spec(check_trailer_spec(package_spec(exe, payload, lb))->Ok_0)->Ok_0.0)
            == Some(files),
        forall|i: int|
            0 <= i < files.len() ==> files_of_entries(files).contains_key(#[trigger] files[i].0)
                && files_of_entries(files)[files[i].0] == files[i].1,
        forall|n: Seq<char>|
            #[trigger] files_of_entries(files).contains_key(n) ==> exists|i: int| 0 <= i < files.len() && files[i].0 == n,
        files_of_entries(files).dom().len() == files.len(),
{
    law_package_opens_to_archive(exe, zip, payload, lb, key, nonce);
    lemma_files_of_entries_kv(files);
    lemma_kv_map_len(files);
    assert forall|i: int| 0 <= i < files.len() implies files_of_entries(files).contains_key(#[trigger] files[i].0)
        && files_of_entries(files)[files[i].0] == files[i].1 by {
        assert forall|j: int| i < j < files.len() implies (#[trigger] files[j]).0 != files[i].0 by {}
        crate::kv::lemma_kv_last(files, i);
    }
    assert forall|n: Seq<char>| #[trigger] files_of_entries(files).contains_key(n) implies exists|i: int|
        0 <= i < files.len() && files[i].0 == n by {
        crate::kv::lemma_kv_dom(files, n);
        let i = choose|i: int| 0 <= i < files.len() && (#[trigger] files[i]).0 == n;
        assert(files[i].0 == n);
    }
}

} // verus!
