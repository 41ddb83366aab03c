//! The asymmetric payload layer: WebPush-style elliptic-curve key agreement
//! with authenticated encryption (the aes128gcm content encoding), called
//! through the ece crate.

use vstd::prelude::*;
use openssl::bn::{BigNum, BigNumContext};
use openssl::ec::{EcGroup, EcKey, EcPoint};
use openssl::error::ErrorStack;
use openssl::nid::Nid;
use crate::errors::Error;

verus! {

/// The two halves of one generated P-256 key pair belong together: holding
/// the private half (with the auth secret) is what lets a device decrypt.
pub uninterp spec fn keypair_matches(private_key: Seq<u8>, public_key: Seq<u8>) -> bool;

/// Raw key components that the elliptic-curve backend can import. Importing
/// is deterministic in the bytes.
pub uninterp spec fn ec_importable(private_key: Seq<u8>, public_key: Seq<u8>) -> bool;

/// What WebPush decryption returns: the plaintext, or nothing when the
/// message does not authenticate under this key pair and auth secret. A
/// function of the key material and the message alone.
pub uninterp spec fn webpush_open_of(
    private_key: Seq<u8>,
    public_key: Seq<u8>,
    auth: Seq<u8>,
    data: Seq<u8>,
) -> Option<Seq<u8>>;

/// Relies on ece::generate_keypair_and_auth_secret and LocalKeyPair::
/// raw_components: a fresh P-256 key pair whose raw halves belong together
/// and can be imported back; the public half comes in the 65-byte
/// uncompressed point form.
#[verifier::external_body]
pub(crate) fn ece_generate_keypair() -> (r: Result<(Vec<u8>, Vec<u8>), Error>)
    ensures
        (match r {
            Ok(p) => keypair_matches(p.0@, p.1@) && ec_importable(p.0@, p.1@) && p.1@.len() == 65,
            Err(e) => e is CryptoError,
        }),
{
    let (kp, _auth) = ece::generate_keypair_and_auth_secret().map_err(|_e| Error::CryptoError)?;
    let components = kp.raw_components().map_err(|_e| Error::CryptoError)?;
    Ok((components.private_key().to_vec(), components.public_key().to_vec()))
}

/// Relies on ece::encrypt (aes128gcm): whatever ciphertext comes back — it
/// draws a fresh ephemeral key and salt — the holder of the private half of
/// `remote_pub` and of `remote_auth` decrypts it back to `data`; a malformed
/// recipient key fails. Only the 65-byte uncompressed point form is allowed
/// in: ece copies the recipient key bytes as given into a fixed 65-byte
/// header slot, so any other length would abort the process.
#[verifier::external_body]
pub(crate) fn ece_encrypt(remote_pub: &[u8], remote_auth: &[u8], data: &[u8]) -> (r: Result<
    Vec<u8>,
    Error,
>)
    requires
        remote_pub@.len() == 65,
    ensures
        (match r {
            Ok(ct) => forall|d: Seq<u8>|
                keypair_matches(d, remote_pub@) ==> webpush_open_of(d, remote_pub@, remote_auth@, ct@)
                    == Some(data@),
            Err(e) => e is CryptoError,
        }),
{
    ece::encrypt(remote_pub, remote_auth, data).map_err(|_e| Error::CryptoError)
}

/// Relies on ece::decrypt (aes128gcm), which is deterministic in the key
/// components, auth secret and message, and errors out on any authentication
/// failure. It aborts on key components its backend cannot import, so
/// importability is required here and tested by `p256_key_importable`.
#[verifier::external_body]
pub(crate) fn ece_decrypt(private_key: &[u8], public_key: &[u8], auth: &[u8], data: &[u8]) -> (r: Result<
    Vec<u8>,
    Error,
>)
    requires
        ec_importable(private_key@, public_key@),
    ensures
        r is Ok <==> webpush_open_of(private_key@, public_key@, auth@, data@) is Some,
        r is Ok ==> r.unwrap()@ == webpush_open_of(private_key@, public_key@, auth@, data@).unwrap(),
        r is Err ==> r.unwrap_err() is DecryptError,
{
    let components = ece::EcKeyComponents::new(private_key.to_vec(), public_key.to_vec());
    ece::decrypt(&components, auth, data).map_err(|_e| Error::DecryptError)
}

/// Relies on openssl's P-256 key import — the same steps ece::decrypt takes
/// (point decoding, affine coordinates, key construction): whether these raw
/// components import cleanly.
#[verifier::external_body]
pub(crate) fn p256_key_importable(private_key: &[u8], public_key: &[u8]) -> (r: bool)
    ensures
        r == ec_importable(private_key@, public_key@),
{
    let check = || -> Result<(), ErrorStack> {
        let group = EcGroup::from_curve_name(Nid::X9_62_PRIME256V1)?;
        let mut ctx = BigNumContext::new()?;
        let d = BigNum::from_slice(private_key)?;
        let point = EcPoint::from_bytes(&group, public_key, &mut ctx)?;
        let (mut x, mut y) = (BigNum::new()?, BigNum::new()?);
        point.affine_coordinates_gfp(&group, &mut x, &mut y, &mut ctx)?;
        let pk = EcKey::from_public_key_affine_coordinates(&group, &x, &y)?;
        EcKey::from_private_components(&group, &d, pk.public_key())?;
        Ok(())
    };
    check().is_ok()
}

} // verus!
