use vstd::prelude::*;
use sha2::Digest;
use hmac::Mac;
use aes_gcm::aead::Aead;
use aes_gcm::KeyInit;
use base64::Engine;

verus! {

/// The lower-case hexadecimal SHA-512 digest of a byte sequence.
pub uninterp spec fn sha512_hex_of(data: Seq<u8>) -> Seq<char>;

/// The lower-case hexadecimal SHA-256 digest of a byte sequence.
pub uninterp spec fn sha256_hex_of(data: Seq<u8>) -> Seq<char>;

/// The lower-case hexadecimal HMAC-SHA-256 tag of a message under a key.
pub uninterp spec fn hmac_sha256_hex_of(key: Seq<u8>, data: Seq<u8>) -> Seq<char>;

/// The key PBKDF2-HMAC-SHA-256 derives from a password, salt and
/// iteration count.
pub uninterp spec fn pbkdf2_sha256_of(password: Seq<u8>, salt: Seq<u8>, iterations: u32) -> Seq<
    u8,
>;

/// What AES-256-GCM sealing produces from a key, nonce and plaintext.
pub uninterp spec fn aes_gcm_seal_of(key: Seq<u8>, nonce: Seq<u8>, plaintext: Seq<u8>) -> Option<
    Seq<u8>,
>;

/// What AES-256-GCM opening recovers from a key, nonce and
/// ciphertext, or nothing when authentication fails.
pub uninterp spec fn aes_gcm_open_of(key: Seq<u8>, nonce: Seq<u8>, ciphertext: Seq<u8>) -> Option<
    Seq<u8>,
>;

/// What the standard base64 alphabet encodes a byte sequence to.
pub uninterp spec fn base64_encode_of(bytes: Seq<u8>) -> Seq<char>;

/// Relies on sha2's `Sha512`: the digest depends on the bytes alone
/// and renders as 128 hexadecimal characters.
#[verifier::external_body]
pub(crate) fn sha512_hex(data: &Vec<u8>) -> (r: String)
    ensures
        r@ == sha512_hex_of(data@),
        r@.len() == 128,
{
    let mut hasher = sha2::Sha512::new();
    hasher.update(data.as_slice());
    format!("{:x}", hasher.finalize())
}

/// Relies on sha2's `Sha256`: the digest depends on the bytes alone
/// and renders as 64 hexadecimal characters.
#[verifier::external_body]
pub(crate) fn sha256_hex(data: &Vec<u8>) -> (r: String)
    ensures
        r@ == sha256_hex_of(data@),
        r@.len() == 64,
{
    let mut hasher = sha2::Sha256::new();
    hasher.update(data.as_slice());
    format!("{:x}", hasher.finalize())
}

/// Relies on hmac's `Hmac<Sha256>`: the tag depends on key and
/// message alone and renders as 64 hexadecimal characters; HMAC
/// accepts keys of any length, so construction cannot fail.
#[verifier::external_body]
pub(crate) fn hmac_sha256_hex(key: &Vec<u8>, data: &Vec<u8>) -> (r: String)
    ensures
        r@ == hmac_sha256_hex_of(key@, data@),
        r@.len() == 64,
{
    let mut mac = <hmac::Hmac<sha2::Sha256> as Mac>::new_from_slice(key.as_slice()).unwrap();
    mac.update(data.as_slice());
    format!("{:x}", mac.finalize().into_bytes())
}

/// Relies on pbkdf2's `pbkdf2_hmac`: the derived key depends on
/// password, salt and iteration count alone; 32 bytes are requested.
#[verifier::external_body]
pub(crate) fn pbkdf2_sha256(password: &Vec<u8>, salt: &Vec<u8>, iterations: u32) -> (r: Vec<u8>)
    ensures
        r@ == pbkdf2_sha256_of(password@, salt@, iterations),
        r@.len() == 32,
{
    let mut key = [0u8; 32];
    pbkdf2::pbkdf2_hmac::<sha2::Sha256>(password.as_slice(), salt.as_slice(), iterations, &mut key);
    key.to_vec()
}

/// Relies on aes-gcm's `Aes256Gcm::encrypt`: sealing is a function of
/// key, nonce and plaintext.
#[verifier::external_body]
pub(crate) fn aes_gcm_seal(key: &Vec<u8>, nonce: &Vec<u8>, plaintext: &Vec<u8>) -> (r: Result<
    Vec<u8>,
    (),
>)
    requires
        key@.len() == 32,
        nonce@.len() == 12,
    ensures
        (r is Ok) == (aes_gcm_seal_of(key@, nonce@, plaintext@) is Some),
        r is Ok ==> r.unwrap()@ == aes_gcm_seal_of(key@, nonce@, plaintext@).unwrap(),
{
    let cipher = match aes_gcm::Aes256Gcm::new_from_slice(key.as_slice()) {
        Ok(c) => c,
        Err(_) => {
            return Err(());
        },
    };
    match cipher.encrypt(aes_gcm::Nonce::from_slice(nonce.as_slice()), plaintext.as_slice()) {
        Ok(ct) => Ok(ct),
        Err(_) => Err(()),
    }
}

/// Relies on aes-gcm's `Aes256Gcm::decrypt`: opening is a function of
/// key, nonce and ciphertext, and fails on any forged or corrupted
/// ciphertext.
#[verifier::external_body]
pub(crate) fn aes_gcm_open(key: &Vec<u8>, nonce: &Vec<u8>, ciphertext: &Vec<u8>) -> (r: Result<
    Vec<u8>,
    (),
>)
    requires
        key@.len() == 32,
        nonce@.len() == 12,
    ensures
        (r is Ok) == (aes_gcm_open_of(key@, nonce@, ciphertext@) is Some),
        r is Ok ==> r.unwrap()@ == aes_gcm_open_of(key@, nonce@, ciphertext@).unwrap(),
{
    let cipher = match aes_gcm::Aes256Gcm::new_from_slice(key.as_slice()) {
        Ok(c) => c,
        Err(_) => {
            return Err(());
        },
    };
    match cipher.decrypt(aes_gcm::Nonce::from_slice(nonce.as_slice()), ciphertext.as_slice()) {
        Ok(pt) => Ok(pt),
        Err(_) => Err(()),
    }
}

/// Relies on rand's `RngCore::fill_bytes` on the thread generator:
/// the buffer comes back fully filled; nothing is promised of its
/// contents.
#[verifier::external_body]
pub(crate) fn random_bytes(n: usize) -> (r: Vec<u8>)
    ensures
        r@.len() == n,
{
    let mut buf = vec![0u8; n];
    rand::RngCore::fill_bytes(&mut rand::thread_rng(), &mut buf);
    buf
}

/// Relies on base64's `Engine::encode` with the standard alphabet:
/// the rendering depends on the bytes alone, and decoding it with
/// the same engine gives the bytes back.
#[verifier::external_body]
pub(crate) fn base64_encode(bytes: &Vec<u8>) -> (r: String)
    ensures
        r@ == base64_encode_of(bytes@),
        crate::locator::base64_decode_of(r@) == Some(bytes@),
{
    base64::engine::general_purpose::STANDARD.encode(bytes.as_slice())
}

/// Relies on std's `String::from_utf8`: succeeds exactly on valid
/// UTF-8 and returns the string spelled by those bytes.
#[verifier::external_body]
pub(crate) fn string_from_utf8(bytes: Vec<u8>) -> (r: Result<String, ()>)
    ensures
        (r is Ok) == vstd::utf8::valid_utf8(bytes@),
        r is Ok ==> vstd::utf8::encode_utf8(r.unwrap()@) == bytes@,
{
    match String::from_utf8(bytes) {
        Ok(s) => Ok(s),
        Err(_) => Err(()),
    }
}

} // verus!
