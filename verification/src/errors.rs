//! Error taxonomy of the library.
//!
//! Crypto and protocol errors hit while dispatching one message inside a poll
//! batch are caught by the poller and turned into a skipped entry; every other
//! error propagates to the caller as a typed result.

use vstd::prelude::*;

verus! {

/// What can go wrong in the account and command layer.
#[derive(Debug)]
pub enum Error {
    /// Key generation or AEAD encryption failed, or key material is malformed.
    CryptoError,
    /// The asymmetric payload decryption failed (wrong key, truncation,
    /// corruption or tampering).
    DecryptError,
    /// A wrapped registration blob names a key id other than the account's
    /// current key-check value.
    MismatchedKeys,
    /// The HMAC of a wrapped registration blob does not verify.
    HmacMismatch,
    /// An incoming command message names a command this device does not know.
    UnknownCommand(String),
    /// The target device does not advertise the requested command.
    UnsupportedCommand(String),
    /// No device with the requested id exists in the account's device list.
    UnknownTargetDevice(String),
    /// The account holds no refresh token: the session is not authenticated.
    NoRefreshToken,
    /// The account holds no key for the requested OAuth scope.
    NoScopedKey(String),
    /// The operating-system random number generator failed.
    RngFailure,
    /// The relay reported a structured failure.
    RemoteError { code: u64, errno: u64, error: String, message: String, info: String },
    /// An operation ran in a state it is not allowed in.
    IllegalState(String),
    /// A hex field could not be decoded.
    HexDecodeError,
    /// A base64 field could not be decoded.
    Base64DecodeError,
    /// A JSON document could not be parsed, or had an unexpected shape.
    JsonError,
    /// Bytes that should hold UTF-8 text do not.
    Utf8Error,
}

impl Error {
    /// A short human-readable description, stable per variant.
    pub fn describe(&self) -> (r: String)
        ensures
            r@.len() > 0,
    {
        let s: &str = match self {
            Error::CryptoError => "crypto error",
            Error::DecryptError => "decrypt error",
            Error::MismatchedKeys => "mismatched keys",
            Error::HmacMismatch => "hmac mismatch",
            Error::UnknownCommand(_) => "unknown command",
            Error::UnsupportedCommand(_) => "unsupported command",
            Error::UnknownTargetDevice(_) => "unknown target device",
            Error::NoRefreshToken => "no refresh token",
            Error::NoScopedKey(_) => "no scoped key",
            Error::RngFailure => "rng failure",
            Error::RemoteError { .. } => "remote error",
            Error::IllegalState(_) => "illegal state",
            Error::HexDecodeError => "hex decode error",
            Error::Base64DecodeError => "base64 decode error",
            Error::JsonError => "json error",
            Error::Utf8Error => "utf8 error",
        };
        proof {
            reveal_strlit("crypto error");
            reveal_strlit("decrypt error");
            reveal_strlit("mismatched keys");
            reveal_strlit("hmac mismatch");
            reveal_strlit("unknown command");
            reveal_strlit("unsupported command");
            reveal_strlit("unknown target device");
            reveal_strlit("no refresh token");
            reveal_strlit("no scoped key");
            reveal_strlit("rng failure");
            reveal_strlit("remote error");
            reveal_strlit("illegal state");
            reveal_strlit("hex decode error");
            reveal_strlit("base64 decode error");
            reveal_strlit("json error");
            reveal_strlit("utf8 error");
        }
        String::from_str(s)
    }
}

} // verus!
