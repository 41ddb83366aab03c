//! The account's sync-key bundle: the symmetric primitive pair behind the
//! key-wrap layer. The 64-byte sync key splits into a 32-byte AES-256-CBC
//! encryption key and a 32-byte HMAC-SHA256 key; the HMAC is computed over
//! the base64 text of the ciphertext, for interoperability with the legacy
//! record format used elsewhere in the account's ecosystem.

use vstd::prelude::*;
use crate::errors::Error;
use crate::encoding::hex_of;

verus! {

/// What HMAC-SHA256 returns; a function of the key and the message alone.
pub uninterp spec fn hmac_sha256_of(key: Seq<u8>, data: Seq<u8>) -> Seq<u8>;

/// What AES-256-CBC encryption returns; a function of key, IV and plaintext.
pub uninterp spec fn aes256cbc_of(key: Seq<u8>, iv: Seq<u8>, data: Seq<u8>) -> Seq<u8>;

/// What AES-256-CBC decryption returns: the plaintext, or nothing when the
/// ciphertext does not decrypt under this key and IV (bad padding).
pub uninterp spec fn aes256cbc_open_of(key: Seq<u8>, iv: Seq<u8>, data: Seq<u8>) -> Option<Seq<u8>>;

/// Relies on ring's SystemRandom: an OS-backed generator that fills the
/// buffer or reports failure; nothing can be promised of the bytes.
#[verifier::external_body]
pub(crate) fn rand_bytes(len: usize) -> (r: Result<Vec<u8>, Error>)
    ensures
        r is Ok ==> r.unwrap()@.len() == len,
        r is Err ==> r.unwrap_err() is RngFailure,
{
    let rng = ring::rand::SystemRandom::new();
    let mut buf = vec![0u8; len];
    match ring::rand::SecureRandom::fill(&rng, &mut buf) {
        Ok(()) => Ok(buf),
        Err(_) => Err(Error::RngFailure),
    }
}

/// Relies on ring::hmac::sign with HMAC_SHA256: a 32-byte tag that depends on
/// the key and the message alone.
#[verifier::external_body]
pub(crate) fn hmac_sha256(key: &[u8], data: &[u8]) -> (r: Vec<u8>)
    ensures
        r@ == hmac_sha256_of(key@, data@),
        r@.len() == 32,
{
    let k = ring::hmac::Key::new(ring::hmac::HMAC_SHA256, key);
    ring::hmac::sign(&k, data).as_ref().to_vec()
}

/// Relies on openssl::symm::encrypt with AES-256-CBC, and on the documented
/// fact that decryption under the same key and IV inverts it.
#[verifier::external_body]
pub(crate) fn aes256cbc_encrypt(key: &[u8], iv: &[u8], data: &[u8]) -> (r: Result<Vec<u8>, Error>)
    requires
        key@.len() == 32,
        iv@.len() == 16,
    ensures
        r is Ok ==> r.unwrap()@ == aes256cbc_of(key@, iv@, data@),
        r is Ok ==> aes256cbc_open_of(key@, iv@, aes256cbc_of(key@, iv@, data@)) == Some(data@),
        r is Err ==> r.unwrap_err() is CryptoError,
{
    openssl::symm::encrypt(openssl::symm::Cipher::aes_256_cbc(), key, Some(iv), data).map_err(
        |_e| Error::CryptoError,
    )
}

/// Relies on openssl::symm::decrypt with AES-256-CBC: returns the plaintext,
/// or an error exactly when the ciphertext does not decrypt under this key
/// and IV.
#[verifier::external_body]
pub(crate) fn aes256cbc_decrypt(key: &[u8], iv: &[u8], data: &[u8]) -> (r: Result<Vec<u8>, Error>)
    requires
        key@.len() == 32,
        iv@.len() == 16,
    ensures
        r is Ok <==> aes256cbc_open_of(key@, iv@, data@) is Some,
        r is Ok ==> r.unwrap()@ == aes256cbc_open_of(key@, iv@, data@).unwrap(),
        r is Err ==> r.unwrap_err() is CryptoError,
{
    openssl::symm::decrypt(openssl::symm::Cipher::aes_256_cbc(), key, Some(iv), data).map_err(
        |_e| Error::CryptoError,
    )
}

/// The symmetric key pair derived from the account's 64-byte sync key.
#[derive(Debug)]
pub struct KeyBundle {
    /// AES-256-CBC key: the first 32 bytes of the sync key.
    pub enc_key: Vec<u8>,
    /// HMAC-SHA256 key: the last 32 bytes of the sync key.
    pub mac_key: Vec<u8>,
}

/// What decrypting a ciphertext under a bundle yields: the UTF-8 text of the
/// plaintext, or nothing when the IV has the wrong size, the ciphertext does
/// not decrypt, or the plaintext is not UTF-8.
pub open spec fn kb_decrypt_spec(enc_key: Seq<u8>, ct: Seq<u8>, iv: Seq<u8>) -> Option<Seq<char>> {
    if iv.len() == 16 {
        match aes256cbc_open_of(enc_key, iv, ct) {
            Some(b) => if vstd::utf8::valid_utf8(b) {
                Some(vstd::utf8::decode_utf8(b))
            } else {
                None
            },
            None => None,
        }
    } else {
        None
    }
}

impl KeyBundle {
    /// Both keys have their full size.
    pub open spec fn wf(&self) -> bool {
        self.enc_key@.len() == 32 && self.mac_key@.len() == 32
    }

    /// Split a raw 64-byte sync key into the two keys of the bundle.
    pub fn from_ksync_bytes(ksync: &[u8]) -> (r: Result<KeyBundle, Error>)
        ensures
            r is Ok <==> ksync@.len() == 64,
            (match r {
                Ok(b) => b.wf() && b.enc_key@ == ksync@.subrange(0, 32) && b.mac_key@
                    == ksync@.subrange(32, 64),
                Err(e) => e is CryptoError,
            }),
    {
        if ksync.len() != 64 {
            return Err(Error::CryptoError);
        }
        let enc_key = vstd::slice::slice_to_vec(vstd::slice::slice_subrange(ksync, 0, 32));
        let mac_key = vstd::slice::slice_to_vec(vstd::slice::slice_subrange(ksync, 32, 64));
        Ok(KeyBundle { enc_key, mac_key })
    }

    /// The lowercase hex text of the HMAC tag over `data`.
    pub fn hmac_string(&self, data: &[u8]) -> (r: String)
        ensures
            r@ == hex_of(hmac_sha256_of(self.mac_key@, data@)),
    {
        let tag = hmac_sha256(self.mac_key.as_slice(), data);
        crate::encoding::hex_encode(tag.as_slice())
    }

    /// Whether `expected` is exactly the hex HMAC text of `data`.
    pub fn verify_hmac_string(&self, expected: &str, data: &[u8]) -> (r: bool)
        ensures
            r == (expected@ == hex_of(hmac_sha256_of(self.mac_key@, data@))),
    {
        let computed = self.hmac_string(data);
        crate::strutil::str_eq(expected, computed.as_str())
    }

    /// Encrypt `data` under a fresh random 16-byte IV; the ciphertext and the
    /// IV it was encrypted under.
    pub fn encrypt_bytes_rand_iv(&self, data: &[u8]) -> (r: Result<(Vec<u8>, Vec<u8>), Error>)
        requires
            self.wf(),
        ensures
            r is Ok ==> ({
                let (ct, iv) = r.unwrap();
                &&& iv@.len() == 16
                &&& ct@ == aes256cbc_of(self.enc_key@, iv@, data@)
                &&& aes256cbc_open_of(self.enc_key@, iv@, ct@) == Some(data@)
            }),
    {
        let iv = rand_bytes(16)?;
        let ct = aes256cbc_encrypt(self.enc_key.as_slice(), iv.as_slice(), data)?;
        Ok((ct, iv))
    }

    /// Decrypt a ciphertext and decode the plaintext as UTF-8 text.
    pub fn decrypt(&self, ciphertext: &[u8], iv: &[u8]) -> (r: Result<String, Error>)
        requires
            self.wf(),
        ensures
            r is Ok <==> kb_decrypt_spec(self.enc_key@, ciphertext@, iv@) is Some,
            r is Ok ==> r.unwrap()@ == kb_decrypt_spec(self.enc_key@, ciphertext@, iv@).unwrap(),
            iv@.len() != 16 ==> r == Err::<String, Error>(Error::CryptoError),
            iv@.len() == 16 && aes256cbc_open_of(self.enc_key@, iv@, ciphertext@) is None ==> r
                == Err::<String, Error>(Error::CryptoError),
            iv@.len() == 16 && (aes256cbc_open_of(self.enc_key@, iv@, ciphertext@) matches Some(b)
                && !vstd::utf8::valid_utf8(b)) ==> r == Err::<String, Error>(Error::Utf8Error),
    {
        if iv.len() != 16 {
            return Err(Error::CryptoError);
        }
        let plain = match aes256cbc_decrypt(self.enc_key.as_slice(), iv, ciphertext) {
            Ok(p) => p,
            Err(_e) => {
                return Err(Error::CryptoError);
            },
        };
        match crate::strutil::utf8_to_string(plain) {
            Some(t) => {
                proof {
                    vstd::utf8::encode_utf8_valid_utf8(t@);
                    vstd::utf8::encode_utf8_decode_utf8(t@);
                }
                Ok(t)
            },
            None => Err(Error::Utf8Error),
        }
    }
}

} // verus!
