//! The two encryption layers against the real crypto backends.

use fxa_client::commands::send_tab::{
    PrivateSendTabKeys, PublicSendTabKeys, SendTabKeysPayload, SendTabPayload,
};
use fxa_client::errors::Error;
use fxa_client::json::{json_parse, json_to_string};
use fxa_client::keys::KeyBundle;

fn ksync() -> Vec<u8> {
    (100u8..164u8).collect()
}

fn kxcs() -> Vec<u8> {
    vec![1, 2, 3, 4]
}

fn wrap_keys(pk: &str, auth: &str) -> SendTabKeysPayload {
    let keys = PublicSendTabKeys {
        public_key: String::from(pk),
        auth_secret: String::from(auth),
    };
    keys.encrypt(&ksync(), &kxcs()).expect("wrapping succeeds")
}

fn blob_to_json(blob: &SendTabKeysPayload) -> String {
    json_to_string(&blob.to_json_value())
}

fn blob_from_json(text: &str) -> SendTabKeysPayload {
    let v = json_parse(text).expect("blob parses");
    SendTabKeysPayload::from_json_value(&v).expect("blob shape")
}

#[test]
fn payload_round_trip_through_fresh_keys() {
    let keys = PrivateSendTabKeys::from_random().expect("key generation");
    let copy = PrivateSendTabKeys::from_json_string(&keys.to_json_string()).unwrap();
    let public = PublicSendTabKeys::from(keys);
    let payload = SendTabPayload::single_tab("A title", "https://example.com/page");
    let encrypted = payload.encrypt(public).expect("encryption");
    let decrypted = encrypted.decrypt(&copy).expect("decryption");
    assert_eq!(decrypted.entries.len(), 1);
    assert_eq!(decrypted.entries[0].title, "A title");
    assert_eq!(decrypted.entries[0].url, "https://example.com/page");
}

#[test]
fn fresh_key_pairs_do_not_repeat() {
    let a = PrivateSendTabKeys::from_random().unwrap();
    let b = PrivateSendTabKeys::from_random().unwrap();
    assert_ne!(a.private_key, b.private_key);
    assert_ne!(a.auth_secret, b.auth_secret);
}

#[test]
fn tampered_webpush_ciphertext_is_refused() {
    let keys = PrivateSendTabKeys::from_random().unwrap();
    let copy = PrivateSendTabKeys::from_json_string(&keys.to_json_string()).unwrap();
    let public = PublicSendTabKeys::from(keys);
    let payload = SendTabPayload::single_tab("t", "https://example.com");
    let encrypted = payload.encrypt(public).unwrap();
    let mut raw = base64::decode_config(&encrypted.encrypted, base64::URL_SAFE_NO_PAD).unwrap();
    let last = raw.len() - 1;
    raw[last] ^= 0x01;
    let tampered = fxa_client::commands::send_tab::EncryptedSendTabPayload {
        encrypted: base64::encode_config(&raw, base64::URL_SAFE_NO_PAD),
    };
    let err = tampered.decrypt(&copy).unwrap_err();
    assert!(matches!(err, Error::DecryptError), "got {:?}", err);
}

#[test]
fn encrypting_against_garbage_keys_is_a_crypto_error() {
    let public = PublicSendTabKeys {
        public_key: String::from("AAAA"),
        auth_secret: String::from("AAAA"),
    };
    let payload = SendTabPayload::single_tab("t", "https://example.com");
    let err = payload.encrypt(public).unwrap_err();
    assert!(matches!(err, Error::CryptoError), "got {:?}", err);
}

#[test]
fn wrapped_blob_fields_use_the_wire_encodings() {
    let blob = wrap_keys("pk", "as");
    assert_eq!(blob.kid, "01020304", "kid is the lowercase hex of kxcs");
    assert_eq!(base64::decode(&blob.iv).unwrap().len(), 16, "the IV is 16 raw bytes in base64");
    assert!(base64::decode(&blob.ciphertext).is_ok(), "the ciphertext is standard base64");
    assert!(blob.hmac.chars().all(|c| c.is_ascii_hexdigit()), "the hmac is hex text");
}

#[test]
fn payload_wire_form_is_urlsafe_base64_without_padding() {
    let keys = PrivateSendTabKeys::from_random().unwrap();
    let public = PublicSendTabKeys::from(keys);
    assert!(!public.public_key.contains('='), "no padding");
    assert!(!public.public_key.contains('+') && !public.public_key.contains('/'));
    assert_eq!(
        base64::decode_config(&public.auth_secret, base64::URL_SAFE_NO_PAD).unwrap().len(),
        16,
        "the auth secret is 16 raw bytes"
    );
}

#[test]
fn keywrap_round_trip() {
    let blob = wrap_keys("public-key-text", "auth-secret-text");
    let back = blob_from_json(&blob_to_json(&blob));
    let keys = back.decrypt(&ksync(), &kxcs()).expect("unwrapping succeeds");
    assert_eq!(keys.public_key, "public-key-text");
    assert_eq!(keys.auth_secret, "auth-secret-text");
}

#[test]
fn keywrap_detects_a_flipped_hmac() {
    let blob = wrap_keys("pk", "as");
    let mut hmac: Vec<char> = blob.hmac.chars().collect();
    hmac[0] = if hmac[0] == 'f' { '0' } else { 'f' };
    let corrupted = SendTabKeysPayload {
        kid: blob.kid.clone(),
        iv: blob.iv.clone(),
        hmac: hmac.into_iter().collect(),
        ciphertext: blob.ciphertext.clone(),
    };
    let err = corrupted.decrypt(&ksync(), &kxcs()).unwrap_err();
    assert!(matches!(err, Error::HmacMismatch), "got {:?}", err);
}

#[test]
fn keywrap_detects_a_flipped_ciphertext() {
    let blob = wrap_keys("pk", "as");
    let mut raw = base64::decode(&blob.ciphertext).unwrap();
    raw[0] ^= 0x01;
    let corrupted = SendTabKeysPayload {
        kid: blob.kid.clone(),
        iv: blob.iv.clone(),
        hmac: blob.hmac.clone(),
        ciphertext: base64::encode(&raw),
    };
    let err = corrupted.decrypt(&ksync(), &kxcs()).unwrap_err();
    assert!(matches!(err, Error::HmacMismatch), "got {:?}", err);
}

#[test]
fn keywrap_checks_the_key_id_before_the_hmac() {
    let blob = wrap_keys("pk", "as");
    // Corrupt the hmac too: the wrong key id must win, proving it is checked
    // before any hmac verification runs.
    let corrupted = SendTabKeysPayload {
        kid: blob.kid.clone(),
        iv: blob.iv.clone(),
        hmac: String::from("00"),
        ciphertext: blob.ciphertext.clone(),
    };
    let err = corrupted.decrypt(&ksync(), &vec![9, 9, 9, 9]).unwrap_err();
    assert!(matches!(err, Error::MismatchedKeys), "got {:?}", err);
}

#[test]
fn keywrap_rejects_a_malformed_key_id() {
    let blob = wrap_keys("pk", "as");
    let corrupted = SendTabKeysPayload {
        kid: String::from("zz-not-hex"),
        iv: blob.iv.clone(),
        hmac: blob.hmac.clone(),
        ciphertext: blob.ciphertext.clone(),
    };
    let err = corrupted.decrypt(&ksync(), &kxcs()).unwrap_err();
    assert!(matches!(err, Error::HexDecodeError), "got {:?}", err);
}

#[test]
fn key_bundle_splits_and_inverts() {
    let bundle = KeyBundle::from_ksync_bytes(&ksync()).unwrap();
    assert_eq!(bundle.enc_key, ksync()[0..32].to_vec());
    assert_eq!(bundle.mac_key, ksync()[32..64].to_vec());
    assert!(matches!(KeyBundle::from_ksync_bytes(&[0u8; 10]).unwrap_err(), Error::CryptoError));
    let (ct, iv) = bundle.encrypt_bytes_rand_iv("hello bundle".as_bytes()).unwrap();
    assert_ne!(ct, "hello bundle".as_bytes().to_vec(), "ciphertext differs from input");
    let plain = bundle.decrypt(&ct, &iv).unwrap();
    assert_eq!(plain, "hello bundle");
}

#[test]
fn key_bundle_hmac_is_deterministic_hex() {
    let bundle = KeyBundle::from_ksync_bytes(&ksync()).unwrap();
    let a = bundle.hmac_string(b"abc");
    let b = bundle.hmac_string(b"abc");
    let c = bundle.hmac_string(b"abd");
    assert_eq!(a, b);
    assert_ne!(a, c);
    assert_eq!(a.len(), 64, "32 bytes as hex");
    assert!(bundle.verify_hmac_string(&a, b"abc"));
    assert!(!bundle.verify_hmac_string(&a, b"abd"));
}

#[test]
fn decrypting_with_garbage_key_material_is_a_crypto_error() {
    let garbage = PrivateSendTabKeys {
        public_key: vec![1, 2, 3],
        private_key: vec![4, 5, 6],
        auth_secret: vec![0u8; 16],
    };
    let payload = fxa_client::commands::send_tab::EncryptedSendTabPayload {
        encrypted: base64::encode_config(b"data", base64::URL_SAFE_NO_PAD),
    };
    let err = payload.decrypt(&garbage).unwrap_err();
    assert!(matches!(err, Error::CryptoError), "got {:?}", err);
}

#[test]
fn bundle_decryption_of_non_text_is_a_utf8_error() {
    let bundle = KeyBundle::from_ksync_bytes(&ksync()).unwrap();
    let (ct, iv) = bundle.encrypt_bytes_rand_iv(&[0xff, 0xfe, 0x00, 0x80]).unwrap();
    let err = bundle.decrypt(&ct, &iv).unwrap_err();
    assert!(matches!(err, Error::Utf8Error), "got {:?}", err);
}

#[test]
fn unparseable_cached_key_material_is_a_json_error() {
    let err = PrivateSendTabKeys::from_json_string("not json").unwrap_err();
    assert!(matches!(err, Error::JsonError), "got {:?}", err);
}
