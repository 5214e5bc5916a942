use vstd::prelude::*;
use vstd::utf8::{decode_utf8, encode_utf8, valid_utf8};
use crate::crypto::{
    aes_gcm_open, aes_gcm_open_of, aes_gcm_seal, aes_gcm_seal_of, base64_encode, base64_encode_of,
    pbkdf2_sha256, pbkdf2_sha256_of, random_bytes, string_from_utf8,
};
use crate::locator::{base64_decode, base64_decode_of};

verus! {

/// Why an envelope operation failed.
#[derive(Clone, Copy, Debug, PartialEq, Eq, Structural)]
pub enum FortressError {
    EncryptionError,
    DecryptionError,
    InvalidPassword,
}

/// Password-based authenticated encryption: a fresh salt and nonce,
/// a key derived by PBKDF2, and an AES-256-GCM envelope, rendered in
/// base64 as salt, nonce and ciphertext in that order.
pub struct FortressProtocol {
    pub iterations: u32,
}

/// The key derived for a password and salt under this protocol's
/// iteration count.
pub open spec fn derived_key(password: Seq<char>, salt: Seq<u8>, iterations: u32) -> Seq<u8> {
    pbkdf2_sha256_of(encode_utf8(password), salt, iterations)
}

impl FortressProtocol {
    /// The standard protocol: 100000 key-derivation rounds.
    pub fn new() -> (r: FortressProtocol)
        ensures
            r.iterations == 100_000,
    {
        FortressProtocol { iterations: 100_000 }
    }

    /// Derives the 32-byte envelope key for a password and salt.
    pub fn derive_key(&self, password: &str, salt: &Vec<u8>) -> (r: Vec<u8>)
        ensures
            r@ == derived_key(password@, salt@, self.iterations),
            r@.len() == 32,
    {
        let password_bytes = password.as_bytes_vec();
        pbkdf2_sha256(&password_bytes, salt, self.iterations)
    }

    /// Seals a message under a password: a fresh 32-byte salt and
    /// 12-byte nonce, the derived key, and the base64 rendering of
    /// salt, nonce and ciphertext.
    pub fn encrypt(&self, plaintext: &str, password: &str) -> (r: Result<String, FortressError>)
        ensures
            r matches Ok(encoded) ==> exists|salt: Seq<u8>, nonce: Seq<u8>|
                {
                    &&& salt.len() == 32
                    &&& nonce.len() == 12
                    &&& aes_gcm_seal_of(
                        derived_key(password@, salt, self.iterations),
                        nonce,
                        encode_utf8(plaintext@),
                    ) matches Some(ct)
                    &&& encoded@ == base64_encode_of(salt + nonce + ct)
                },
    {
        let salt = random_bytes(32);
        let nonce = random_bytes(12);
        let key = self.derive_key(password, &salt);
        let plaintext_bytes = plaintext.as_bytes_vec();
        let ciphertext = match aes_gcm_seal(&key, &nonce, &plaintext_bytes) {
            Ok(ct) => ct,
            Err(_) => {
                return Err(FortressError::EncryptionError);
            },
        };
        let mut data: Vec<u8> = Vec::new();
        append_bytes(&mut data, &salt);
        append_bytes(&mut data, &nonce);
        append_bytes(&mut data, &ciphertext);
        proof {
            assert(data@ =~= salt@ + nonce@ + ciphertext@);
        }
        Ok(base64_encode(&data))
    }

    /// Opens an envelope under a password: base64, the 32-byte salt,
    /// the 12-byte nonce, the derived key, authenticated decryption,
    /// and the UTF-8 reading of the recovered bytes. Every malformed,
    /// truncated, forged or mis-keyed envelope is refused.
    pub fn decrypt(&self, encoded_data: &str, password: &str) -> (r: Result<String, FortressError>)
        ensures
            base64_decode_of(encoded_data@) is None ==> r == Err::<String, FortressError>(
                FortressError::DecryptionError,
            ),
            r matches Ok(plain) ==> (base64_decode_of(encoded_data@) matches Some(data) && {
                &&& data.len() >= 44
                &&& aes_gcm_open_of(
                    derived_key(password@, data.take(32), self.iterations),
                    data.subrange(32, 44),
                    data.skip(44),
                ) matches Some(pt)
                &&& valid_utf8(pt)
                &&& encode_utf8(plain@) == pt
            }),
            // a well-formed envelope is owed success
            (base64_decode_of(encoded_data@) matches Some(data) && data.len() >= 44
                && (aes_gcm_open_of(
                derived_key(password@, data.take(32), self.iterations),
                data.subrange(32, 44),
                data.skip(44),
            ) matches Some(pt) && valid_utf8(pt))) ==> r is Ok,
    {
        let data = match base64_decode(encoded_data) {
            Ok(d) => d,
            Err(_) => {
                return Err(FortressError::DecryptionError);
            },
        };
        if data.len() < 44 {
            return Err(FortressError::DecryptionError);
        }
        let mut salt: Vec<u8> = Vec::new();
        let mut nonce: Vec<u8> = Vec::new();
        let mut ciphertext: Vec<u8> = Vec::new();
        let mut i: usize = 0;
        while i < 32
            invariant
                data@.len() >= 44,
                i <= 32,
                salt@ == data@.take(i as int),
            decreases 32 - i,
        {
            salt.push(data[i]);
            i = i + 1;
            proof {
                assert(salt@ =~= data@.take(i as int));
            }
        }
        let mut j: usize = 32;
        while j < 44
            invariant
                data@.len() >= 44,
                32 <= j <= 44,
                nonce@ == data@.subrange(32, j as int),
            decreases 44 - j,
        {
            nonce.push(data[j]);
            j = j + 1;
            proof {
                assert(nonce@ =~= data@.subrange(32, j as int));
            }
        }
        let mut k: usize = 44;
        while k < data.len()
            invariant
                data@.len() >= 44,
                44 <= k <= data@.len(),
                ciphertext@ == data@.subrange(44, k as int),
            decreases data@.len() - k,
        {
            ciphertext.push(data[k]);
            k = k + 1;
            proof {
                assert(ciphertext@ =~= data@.subrange(44, k as int));
            }
        }
        proof {
            assert(salt@ =~= data@.take(32));
            assert(ciphertext@ =~= data@.skip(44));
        }
        let key = self.derive_key(password, &salt);
        let plaintext_bytes = match aes_gcm_open(&key, &nonce, &ciphertext) {
            Ok(pt) => pt,
            Err(_) => {
                return Err(FortressError::DecryptionError);
            },
        };
        match string_from_utf8(plaintext_bytes) {
            Ok(s) => Ok(s),
            Err(_) => Err(FortressError::DecryptionError),
        }
    }
}

/// Appends the bytes of one vector to another.
fn append_bytes(dst: &mut Vec<u8>, src: &Vec<u8>)
    ensures
        final(dst)@ == old(dst)@ + src@,
{
    let mut i: usize = 0;
    while i < src.len()
        invariant
            i <= src@.len(),
            dst@ == old(dst)@ + src@.take(i as int),
        decreases src@.len() - i,
    {
        dst.push(src[i]);
        i = i + 1;
        proof {
            assert(dst@ =~= old(dst)@ + src@.take(i as int));
        }
    }
    proof {
        assert(dst@ =~= old(dst)@ + src@);
    }
}

} // verus!
