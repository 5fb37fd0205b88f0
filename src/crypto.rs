//! Password-based authenticated encryption of single clipboard fields.
//!
//! A sealed blob is `salt (16 bytes) || nonce (12 bytes) || ciphertext+tag`,
//! where the key is derived from the password and the salt. A field that
//! carries a sealed blob holds the marker `E2EE::` followed by the blob in
//! standard base64.

use aes_gcm::aead::{Aead, KeyInit};
use aes_gcm::Aes256Gcm;
use base64::Engine;
use rand::RngCore;
use vstd::prelude::*;
use vstd::slice::slice_subrange;
use vstd::string::StringSliceAdditionalSpecFns;
use vstd::utf8::{decode_utf8, encode_utf8, valid_utf8};

verus! {

/// Length of the random salt that starts a sealed blob.
pub const SALT_LEN: usize = 16;

/// Length of the random nonce that follows the salt.
pub const NONCE_LEN: usize = 12;

/// Key derivation rounds.
pub const ITERATIONS: u32 = 10000;

/// Longest plaintext that the cipher accepts (2^36 bytes).
pub const MAX_PLAINTEXT: u64 = 68719476736;

/// Length of the authentication tag appended to each ciphertext.
pub const TAG_LEN: usize = 16;

/// Longest blob that `decrypt` accepts: what sealing the longest plaintext gives.
pub const MAX_BLOB: u64 = 68719476780;

/// The 32-byte key that PBKDF2-HMAC-SHA256 with `ITERATIONS` rounds derives
/// from the UTF-8 bytes of a password and a salt.
pub uninterp spec fn derived_key(password: Seq<char>, salt: Seq<u8>) -> Seq<u8>;

/// The ciphertext followed by its tag that AES-256-GCM produces for a key,
/// a nonce and a plaintext, with no associated data.
pub uninterp spec fn gcm_sealed(key: Seq<u8>, nonce: Seq<u8>, plaintext: Seq<u8>) -> Seq<u8>;

/// The standard base64 text (with padding) of a byte string.
pub uninterp spec fn base64_text(bytes: Seq<u8>) -> Seq<char>;

/// The blob that sealing `plaintext` under `password` gives with a given salt and nonce.
pub open spec fn sealed_blob(plaintext: Seq<u8>, password: Seq<char>, salt: Seq<u8>, nonce: Seq<u8>) -> Seq<u8> {
    salt + nonce + gcm_sealed(derived_key(password, salt), nonce, plaintext)
}

/// `blob` is a sealing of `plaintext` under `password` for some salt and nonce.
pub open spec fn is_sealing_of(blob: Seq<u8>, plaintext: Seq<u8>, password: Seq<char>) -> bool {
    exists|salt: Seq<u8>, nonce: Seq<u8>|
        salt.len() == SALT_LEN && nonce.len() == NONCE_LEN
        && #[trigger] sealed_blob(plaintext, password, salt, nonce) == blob
        && blob.len() == SALT_LEN + NONCE_LEN + plaintext.len() + TAG_LEN
}

/// `blob` (of a length that sealing can give) authenticates under `password`
/// and decrypts to `plaintext`.
pub open spec fn opens_to(blob: Seq<u8>, password: Seq<char>, plaintext: Seq<u8>) -> bool {
    &&& blob.len() >= SALT_LEN + NONCE_LEN
    &&& blob.len() <= MAX_BLOB
    &&& plaintext.len() <= MAX_PLAINTEXT
    &&& gcm_sealed(
        derived_key(password, blob.subrange(0, SALT_LEN as int)),
        blob.subrange(SALT_LEN as int, (SALT_LEN + NONCE_LEN) as int),
        plaintext,
    ) == blob.subrange((SALT_LEN + NONCE_LEN) as int, blob.len() as int)
}

/// Relies on `rand::rng()` and `RngCore::fill_bytes`: `n` bytes from the
/// thread-local generator.
#[verifier::external_body]
fn random_bytes(n: usize) -> (r: Vec<u8>)
    ensures
        r@.len() == n,
{
    let mut buf = vec![0u8; n];
    rand::rng().fill_bytes(&mut buf);
    buf
}

/// Relies on `pbkdf2::pbkdf2_hmac::<Sha256>` with `ITERATIONS` rounds, which
/// fills a 32-byte key and does not fail.
#[verifier::external_body]
fn derive_key(password: &str, salt: &[u8]) -> (r: Vec<u8>)
    ensures
        r@ == derived_key(password@, salt@),
        r@.len() == 32,
{
    let mut key = [0u8; 32];
    pbkdf2::pbkdf2_hmac::<sha2::Sha256>(password.as_bytes(), salt, ITERATIONS, &mut key);
    key.to_vec()
}

#[verifier::external_type_specification]
#[verifier::external_body]
pub struct ExAeadError(aes_gcm::Error);

/// Relies on `Aead::encrypt` of `Aes256Gcm`: it fails only on a plaintext
/// longer than 2^36 bytes, and otherwise returns the ciphertext with a
/// 16-byte tag appended.
#[verifier::external_body]
fn gcm_encrypt(key: &[u8], nonce: &[u8], plaintext: &[u8]) -> (r: Result<Vec<u8>, aes_gcm::Error>)
    requires
        key@.len() == 32,
        nonce@.len() == NONCE_LEN,
    ensures
        r is Ok <==> plaintext@.len() <= MAX_PLAINTEXT,
        r matches Ok(c) ==> c@ == gcm_sealed(key@, nonce@, plaintext@)
            && c@.len() == plaintext@.len() + TAG_LEN,
{
    let cipher = Aes256Gcm::new(aes_gcm::Key::<Aes256Gcm>::from_slice(key));
    cipher.encrypt(aes_gcm::Nonce::from_slice(nonce), plaintext)
}

/// Relies on `Aead::decrypt` of `Aes256Gcm`: on an input of at most 2^36
/// bytes plus the tag, it succeeds exactly when the input is what encryption
/// of some plaintext under the same key and nonce gives, and then returns
/// that plaintext (GCM is deterministic, and its counter mode is one-to-one).
#[verifier::external_body]
fn gcm_decrypt(key: &[u8], nonce: &[u8], sealed: &[u8]) -> (r: Result<Vec<u8>, aes_gcm::Error>)
    requires
        key@.len() == 32,
        nonce@.len() == NONCE_LEN,
        sealed@.len() <= MAX_PLAINTEXT + TAG_LEN,
    ensures
        r matches Ok(p) ==> gcm_sealed(key@, nonce@, p@) == sealed@ && p@.len() <= MAX_PLAINTEXT,
        r matches Ok(q) ==> forall|p: Seq<u8>|
            p.len() <= MAX_PLAINTEXT && #[trigger] gcm_sealed(key@, nonce@, p) == sealed@ ==> p == q@,
        r is Err ==> forall|p: Seq<u8>|
            p.len() <= MAX_PLAINTEXT ==> #[trigger] gcm_sealed(key@, nonce@, p) != sealed@,
{
    let cipher = Aes256Gcm::new(aes_gcm::Key::<Aes256Gcm>::from_slice(key));
    cipher.decrypt(aes_gcm::Nonce::from_slice(nonce), sealed)
}

/// Appends the bytes of `src` to `out`.
fn append_bytes(out: &mut Vec<u8>, src: &[u8])
    ensures
        final(out)@ == old(out)@ + src@,
{
    let mut i: usize = 0;
    while i < src.len()
        invariant
            i <= src@.len(),
            out@ == old(out)@ + src@.subrange(0, i as int),
        decreases src@.len() - i,
    {
        out.push(src[i]);
        i = i + 1;
        assert(src@.subrange(0, i as int) == src@.subrange(0, i - 1 as int).push(src@[i - 1]));
    }
    assert(src@.subrange(0, src@.len() as int) == src@);
}

/// Seals `data` under `password` with the given salt and nonce. Fails only
/// when `data` is longer than the cipher accepts.
pub fn seal_with(data: &[u8], password: &str, salt: &[u8], nonce: &[u8]) -> (r: Result<Vec<u8>, String>)
    requires
        salt@.len() == SALT_LEN,
        nonce@.len() == NONCE_LEN,
    ensures
        r is Ok <==> data@.len() <= MAX_PLAINTEXT,
        r matches Ok(blob) ==> blob@ == sealed_blob(data@, password@, salt@, nonce@),
        r matches Ok(blob) ==> blob@.len() == SALT_LEN + NONCE_LEN + data@.len() + TAG_LEN,
        r matches Err(e) ==> e@ == "Encryption failure: aead::Error"@,
{
    let key = derive_key(password, salt);
    match gcm_encrypt(key.as_slice(), nonce, data) {
        Ok(ciphertext) => {
            let mut out: Vec<u8> = Vec::new();
            append_bytes(&mut out, salt);
            append_bytes(&mut out, nonce);
            append_bytes(&mut out, ciphertext.as_slice());
            Ok(out)
        },
        Err(_) => Err("Encryption failure: aead::Error".to_owned()),
    }
}

/// Seals `data` under `password` with a fresh random salt and nonce.
pub fn encrypt(data: &[u8], password: &str) -> (r: Result<Vec<u8>, String>)
    ensures
        r is Ok <==> data@.len() <= MAX_PLAINTEXT,
        r matches Ok(blob) ==> is_sealing_of(blob@, data@, password@),
        r matches Ok(blob) ==> blob@.len() == SALT_LEN + NONCE_LEN + data@.len() + TAG_LEN,
        r matches Err(e) ==> e@ == "Encryption failure: aead::Error"@,
{
    let salt = random_bytes(SALT_LEN);
    let nonce = random_bytes(NONCE_LEN);
    let r = seal_with(data, password, salt.as_slice(), nonce.as_slice());
    proof {
        if r is Ok {
            assert(sealed_blob(data@, password@, salt@, nonce@) == r->Ok_0@);
        }
    }
    r
}

/// Opens a sealed blob. A blob longer than `MAX_BLOB` (which no sealing
/// produces) is refused; otherwise it succeeds exactly when the blob
/// authenticates under `password`, and then returns the plaintext it was
/// sealed from.
pub fn decrypt(data: &[u8], password: &str) -> (r: Result<Vec<u8>, String>)
    ensures
        r matches Ok(p) ==> opens_to(data@, password@, p@),
        r matches Ok(q) ==> forall|p: Seq<u8>| #[trigger] opens_to(data@, password@, p) ==> p == q@,
        r is Err ==> forall|p: Seq<u8>| !#[trigger] opens_to(data@, password@, p),
        data@.len() > MAX_BLOB ==> r is Err,
        r matches Err(e) ==> (data@.len() < SALT_LEN + NONCE_LEN && e@ == "Data too short"@)
            || (data@.len() >= SALT_LEN + NONCE_LEN && e@ == "Decryption failure: aead::Error"@),
{
    if data.len() < SALT_LEN + NONCE_LEN {
        return Err("Data too short".to_owned());
    }
    if data.len() as u64 > MAX_BLOB {
        return Err("Decryption failure: aead::Error".to_owned());
    }
    let salt = slice_subrange(data, 0, SALT_LEN);
    let nonce = slice_subrange(data, SALT_LEN, SALT_LEN + NONCE_LEN);
    let sealed = slice_subrange(data, SALT_LEN + NONCE_LEN, data.len());
    let key = derive_key(password, salt);
    match gcm_decrypt(key.as_slice(), nonce, sealed) {
        Ok(p) => Ok(p),
        Err(_) => Err("Decryption failure: aead::Error".to_owned()),
    }
}

#[verifier::external_type_specification]
#[verifier::external_body]
pub struct ExDecodeError(base64::DecodeError);

/// Relies on `base64::engine::general_purpose::STANDARD.encode`.
#[verifier::external_body]
fn base64_encode(bytes: &[u8]) -> (r: String)
    ensures
        r@ == base64_text(bytes@),
{
    base64::engine::general_purpose::STANDARD.encode(bytes)
}

/// Relies on `base64::engine::general_purpose::STANDARD.decode`: with
/// canonical padding required and no trailing bits allowed, it accepts
/// exactly the texts that `encode` produces and inverts it.
#[verifier::external_body]
fn base64_decode(text: &str) -> (r: Result<Vec<u8>, base64::DecodeError>)
    ensures
        r matches Ok(v) ==> base64_text(v@) == text@,
        r matches Ok(v) ==> forall|b: Seq<u8>| #[trigger] base64_text(b) == text@ ==> b == v@,
        r is Err ==> forall|b: Seq<u8>| #[trigger] base64_text(b) != text@,
{
    base64::engine::general_purpose::STANDARD.decode(text)
}

/// Relies on `String::from_utf8`: it accepts exactly valid UTF-8 and
/// returns the text that the bytes encode.
#[verifier::external_body]
fn text_from_utf8(bytes: Vec<u8>) -> (r: Option<String>)
    ensures
        r matches Some(t) ==> valid_utf8(bytes@) && t@ == decode_utf8(bytes@),
        r is None ==> !valid_utf8(bytes@),
{
    String::from_utf8(bytes).ok()
}

/// The marker that starts a field holding a sealed blob.
pub open spec fn marker() -> Seq<char> {
    seq!['E', '2', 'E', 'E', ':', ':']
}

/// `field` starts with the encryption marker.
pub open spec fn has_marker(field: Seq<char>) -> bool {
    field.len() >= 6 && field.subrange(0, 6) == marker()
}

/// Whether `field` starts with the encryption marker.
pub fn is_sealed_field(field: &str) -> (r: bool)
    ensures
        r == has_marker(field@),
{
    let n = field.unicode_len();
    if n < 6 {
        return false;
    }
    let head = field.substring_char(0, 6);
    let m = "E2EE::";
    proof {
        reveal_strlit("E2EE::");
    }
    let mut i: usize = 0;
    while i < 6
        invariant
            i <= 6,
            field@.len() >= 6,
            head@ == field@.subrange(0, 6),
            m@ == marker(),
            forall|j: int| 0 <= j < i ==> head@[j] == marker()[j],
        decreases 6 - i,
    {
        if head.get_char(i) != m.get_char(i) {
            assert(field@.subrange(0, 6)[i as int] != marker()[i as int]);
            return false;
        }
        i = i + 1;
    }
    assert(head@ == marker());
    true
}

/// Seals the UTF-8 bytes of `text` and wraps the blob as a marked base64 field.
pub fn seal_field(text: &str, password: &str) -> (r: Result<String, String>)
    ensures
        r is Ok <==> encode_utf8(text@).len() <= MAX_PLAINTEXT,
        r matches Ok(f) ==> is_sealed_field_of(f@, text@, password@),
{
    let blob = encrypt(text.as_bytes(), password)?;
    let encoded = base64_encode(blob.as_slice());
    let mut out = "E2EE::".to_owned();
    proof {
        reveal_strlit("E2EE::");
    }
    out.append(encoded.as_str());
    proof {
        assert(out@ == marker() + base64_text(blob@));
    }
    Ok(out)
}

/// `field` is a marked field whose blob opens under `password` to the UTF-8 of `t`.
pub open spec fn field_opens_to(field: Seq<char>, password: Seq<char>, t: Seq<char>) -> bool {
    &&& has_marker(field)
    &&& exists|blob: Seq<u8>, p: Seq<u8>|
        #[trigger] base64_text(blob) == field.subrange(6, field.len() as int)
        && #[trigger] opens_to(blob, password, p) && valid_utf8(p) && decode_utf8(p) == t
}

/// Opens a marked field. Returns `None` when the field has no marker, is not
/// base64, does not authenticate under `password`, or is not UTF-8 text.
pub fn open_field(field: &str, password: &str) -> (r: Option<String>)
    ensures
        r matches Some(t) ==> field_opens_to(field@, password@, t@),
        r matches Some(t) ==> forall|u: Seq<char>| #[trigger] field_opens_to(field@, password@, u) ==> u == t@,
        r is None ==> forall|t: Seq<char>| !#[trigger] field_opens_to(field@, password@, t),
{
    if !is_sealed_field(field) {
        return None;
    }
    let rest = field.substring_char(6, field.unicode_len());
    let blob = match base64_decode(rest) {
        Ok(b) => b,
        Err(_) => return None,
    };
    let plain = match decrypt(blob.as_slice(), password) {
        Ok(p) => p,
        Err(_) => return None,
    };
    let ghost pv = plain@;
    let r = text_from_utf8(plain);
    proof {
        if r is Some {
            assert forall|u: Seq<char>| #[trigger] field_opens_to(field@, password@, u) implies u == r->0@ by {
                let (other_blob, other_plain) = choose|other_blob: Seq<u8>, other_plain: Seq<u8>|
                    #[trigger] base64_text(other_blob) == field@.subrange(6, field@.len() as int)
                    && #[trigger] opens_to(other_blob, password@, other_plain) && valid_utf8(other_plain) && decode_utf8(other_plain) == u;
                assert(other_blob == blob@);
                assert(other_plain == pv);
            }
        }
        if r is None {
            assert forall|t: Seq<char>| !#[trigger] field_opens_to(field@, password@, t) by {
                if field_opens_to(field@, password@, t) {
                    let (other_blob, other_plain) = choose|other_blob: Seq<u8>, other_plain: Seq<u8>|
                        #[trigger] base64_text(other_blob) == field@.subrange(6, field@.len() as int)
                        && #[trigger] opens_to(other_blob, password@, other_plain) && valid_utf8(other_plain) && decode_utf8(other_plain) == t;
                    assert(other_blob == blob@);
                    assert(other_plain == pv);
                }
            }
        }
    }
    r
}

/// A marked field for the text `t` under `password`: the marker, then the
/// base64 of a sealing of the UTF-8 bytes of `t`.
pub open spec fn is_sealed_field_of(field: Seq<char>, t: Seq<char>, password: Seq<char>) -> bool {
    exists|blob: Seq<u8>|
        is_sealing_of(blob, encode_utf8(t), password) && field == marker() + #[trigger] base64_text(blob)
}

/// Opening a field that `seal_field` made, under the same password, gives
/// back the text that was sealed.
pub proof fn lemma_open_sealed_field(t: Seq<char>, pw: Seq<char>, field: Seq<char>)
    requires
        is_sealed_field_of(field, t, pw),
        encode_utf8(t).len() <= MAX_PLAINTEXT,
    ensures
        field_opens_to(field, pw, t),
{
    let blob = choose|blob: Seq<u8>|
        is_sealing_of(blob, encode_utf8(t), pw) && field == marker() + #[trigger] base64_text(blob);
    lemma_open_sealed(encode_utf8(t), pw, blob);
    assert(field.subrange(0, 6) == marker());
    assert(field.subrange(6, field.len() as int) == base64_text(blob));
    vstd::utf8::encode_utf8_valid_utf8(t);
    vstd::utf8::encode_utf8_decode_utf8(t);
}

/// Opening what sealing gave, under the same password, gives back the
/// plaintext: a sealing of `p` under `pw` opens to `p` under `pw`, and to
/// nothing else, so `decrypt` returns exactly `p`.
pub proof fn lemma_open_sealed(p: Seq<u8>, pw: Seq<char>, blob: Seq<u8>)
    requires
        is_sealing_of(blob, p, pw),
        p.len() <= MAX_PLAINTEXT,
    ensures
        opens_to(blob, pw, p),
{
    let (salt, nonce) = choose|salt: Seq<u8>, nonce: Seq<u8>|
        salt.len() == SALT_LEN && nonce.len() == NONCE_LEN
        && #[trigger] sealed_blob(p, pw, salt, nonce) == blob
        && blob.len() == SALT_LEN + NONCE_LEN + p.len() + TAG_LEN;
    assert(blob.subrange(0, SALT_LEN as int) == salt);
    assert(blob.subrange(SALT_LEN as int, (SALT_LEN + NONCE_LEN) as int) == nonce);
    assert(blob.subrange((SALT_LEN + NONCE_LEN) as int, blob.len() as int)
        == gcm_sealed(derived_key(pw, salt), nonce, p));
}

} // verus!
