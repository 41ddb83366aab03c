//! Client library for a device-to-device command protocol: devices registered
//! under one account exchange authenticated, end-to-end-encrypted commands
//! (concretely, sharing a browser tab) through an untrusted relay that never
//! sees plaintext.
//!
//! Two independent layers of cryptography are involved:
//! - a symmetric key-wrap layer (keyed by the account's sync key) that
//!   protects each device's published command key material in transit, and
//! - an asymmetric WebPush-style layer that protects the actual command
//!   payload between exactly two devices.
//!
//! Around them sits a polling/dispatch loop that fetches pending commands,
//! resolves senders, decrypts payloads and emits account events.

pub mod account;
pub mod commands;
pub mod config;
pub mod device;
pub mod encoding;
pub mod errors;
pub mod http_client;
pub mod json;
pub mod keys;
pub mod oauth;
pub mod places;
pub mod push;
pub mod scoped_keys;
pub mod scopes;
pub mod send_tab;
pub mod state_persistence;
pub mod strmap;
pub mod strutil;
pub mod webpush;
pub mod wire;

pub use account::{AccountEvent, CommandReceivedPushPayload, FirefoxAccount, PersistCallback,
    PushPayload};
pub use config::Config;
pub use http_client::DeviceResponse as Device;
pub use state_persistence::StateV2;
