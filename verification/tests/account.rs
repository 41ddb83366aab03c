//! End-to-end account scenarios over a scripted in-memory client.

use std::cell::{Cell, RefCell};

use fxa_client::account::{push_payload_from_json, AccountEvent, FirefoxAccount, PersistCallback};
use fxa_client::config::Config;
use fxa_client::errors::Error;
use fxa_client::http_client::{
    CommandData, DeviceResponse, DeviceType, DeviceUpdateRequest, FxAClient, OAuthTokenResponse,
    PendingCommand, PendingCommandsResponse, ProfileResponse, ResponseAndETag,
};
use fxa_client::json::{json_parse, JsonValue};
use fxa_client::oauth::RefreshToken;
use fxa_client::scoped_keys::ScopedKey;
use fxa_client::state_persistence::StateV2;
use fxa_client::strmap::StringMap;

const OPEN_URI: &str = "https://identity.mozilla.com/cmd/open-uri";
const OLD_SYNC: &str = "https://identity.mozilla.com/apps/oldsync";

#[derive(Default)]
struct MockClient {
    devices: RefCell<Vec<DeviceResponse>>,
    devices_fail: Cell<bool>,
    pending: RefCell<Option<PendingCommandsResponse>>,
    pending_fails_not_found: Cell<bool>,
    updates: RefCell<Vec<DeviceUpdateRequest>>,
    invoked: RefCell<Vec<(String, String, JsonValue)>>,
}

impl FxAClient for MockClient {
    fn oauth_token_with_code(
        &self,
        _config: &Config,
        _code: &str,
        _code_verifier: &str,
    ) -> Result<OAuthTokenResponse, Error> {
        Err(Error::IllegalState(String::from("not scripted")))
    }

    fn oauth_token_with_refresh_token(
        &self,
        _config: &Config,
        _refresh_token: &str,
        _scopes: &Vec<String>,
    ) -> Result<OAuthTokenResponse, Error> {
        Err(Error::IllegalState(String::from("not scripted")))
    }

    fn destroy_oauth_token(&self, _config: &Config, _token: &str) -> Result<(), Error> {
        Ok(())
    }

    fn profile(
        &self,
        _config: &Config,
        _token: &str,
        _etag: Option<String>,
    ) -> Result<Option<ResponseAndETag<ProfileResponse>>, Error> {
        Ok(None)
    }

    fn pending_commands(
        &self,
        _config: &Config,
        _refresh_token: &str,
        _index: u64,
        _limit: Option<u64>,
    ) -> Result<PendingCommandsResponse, Error> {
        if self.pending_fails_not_found.get() {
            return Err(Error::RemoteError {
                code: 404,
                errno: 0,
                error: String::from("not found"),
                message: String::new(),
                info: String::new(),
            });
        }
        match self.pending.borrow_mut().take() {
            Some(r) => Ok(r),
            None => Ok(PendingCommandsResponse { index: 0, last: Some(true), messages: vec![] }),
        }
    }

    fn invoke_command(
        &self,
        _config: &Config,
        _token: &str,
        command: &str,
        target: &str,
        payload: &JsonValue,
    ) -> Result<(), Error> {
        self.invoked.borrow_mut().push((
            String::from(command),
            String::from(target),
            payload.deep_clone(),
        ));
        Ok(())
    }

    fn devices(&self, _config: &Config, _token: &str) -> Result<Vec<DeviceResponse>, Error> {
        if self.devices_fail.get() {
            return Err(Error::RemoteError {
                code: 500,
                errno: 0,
                error: String::from("server"),
                message: String::from("directory down"),
                info: String::new(),
            });
        }
        let mut out = vec![];
        for d in self.devices.borrow().iter() {
            out.push(clone_device(d));
        }
        Ok(out)
    }

    fn update_device(
        &self,
        _config: &Config,
        _refresh_token: &str,
        update: DeviceUpdateRequest,
    ) -> Result<(), Error> {
        self.updates.borrow_mut().push(update);
        Ok(())
    }
}

fn clone_device(d: &DeviceResponse) -> DeviceResponse {
    DeviceResponse {
        id: d.id.clone(),
        display_name: d.display_name.clone(),
        device_type: d.device_type,
        push_subscription: None,
        available_commands: d.available_commands.duplicate(),
        push_endpoint_expired: d.push_endpoint_expired,
    }
}

#[derive(Default)]
struct CountingPersist {
    calls: Cell<u32>,
}

impl PersistCallback for CountingPersist {
    fn call(&self, _json: &str) {
        self.calls.set(self.calls.get() + 1);
    }
}

type Account = FirefoxAccount<MockClient, CountingPersist>;

fn authed_account() -> Account {
    let mut scoped_keys: StringMap<ScopedKey> = StringMap::new();
    let ksync: Vec<u8> = (0u8..64u8).collect();
    let kxcs: Vec<u8> = vec![9, 8, 7, 6];
    let k = base64::encode_config(&ksync, base64::URL_SAFE_NO_PAD);
    let kid = format!("1234-{}", base64::encode_config(&kxcs, base64::URL_SAFE_NO_PAD));
    scoped_keys.insert(String::from(OLD_SYNC), ScopedKey { kid, k });
    let state = StateV2 {
        config: Config::new("https://stable.dev.lcip.org", "12345678", "https://foo.bar"),
        refresh_token: Some(RefreshToken { token: String::from("refresh-token") }),
        scoped_keys,
        last_handled_command: None,
        commands_data: StringMap::new(),
    };
    FirefoxAccount::from_state(MockClient::default(), state)
}

fn registration_blob(acct: &Account) -> String {
    // The last device update carries the published command data.
    let updates = acct.client.updates.borrow();
    let update = updates.last().expect("a device update was sent");
    let v = fxa_client::http_client::device_update_to_json(update);
    let s = fxa_client::json::json_to_string(&v);
    let parsed = json_parse(&s).expect("update serializes");
    let cmds = parsed.get("availableCommands").expect("commands present");
    let blob = cmds.get(OPEN_URI).expect("open-uri registered");
    match blob.as_str() {
        Some(t) => t.clone(),
        None => panic!("blob is a string"),
    }
}

#[test]
fn test_fxa_is_send() {
    fn is_send<T: Send>() {}
    is_send::<Account>();
}

#[test]
fn test_serialize_deserialize() {
    let fxa1: Account =
        FirefoxAccount::new(MockClient::default(), "https://stable.dev.lcip.org", "12345678", "https://foo.bar");
    let fxa1_json = fxa1.to_json().unwrap();
    drop(fxa1);
    let fxa2: Account = FirefoxAccount::from_json(MockClient::default(), &fxa1_json).unwrap();
    let fxa2_json = fxa2.to_json().unwrap();
    assert_eq!(fxa1_json, fxa2_json);
}

#[test]
fn test_get_connection_success_url() {
    let fxa: Account =
        FirefoxAccount::new(MockClient::default(), "https://stable.dev.lcip.org", "12345678", "https://foo.bar");
    let url = fxa.get_connection_success_url().unwrap();
    assert_eq!(
        url,
        "https://stable.dev.lcip.org/connect_another_device?showSuccessMessage=true".to_string()
    );
}

#[test]
fn test_deserialize_push_message() {
    let json = "{\"version\":1,\"command\":\"fxaccounts:command_received\",\"data\":{\"command\":\"send-tab-recv\",\"index\":1,\"sender\":\"bobo\",\"url\":\"https://mozilla.org\"}}";
    let v = json_parse(json).expect("valid json");
    let payload = push_payload_from_json(&v).expect("recognized payload");
    let fxa_client::account::PushPayload::CommandReceived(d) = payload;
    assert_eq!(d.command, "send-tab-recv");
    assert_eq!(d.index, 1);
    assert_eq!(d.sender, "bobo");
    assert_eq!(d.url, "https://mozilla.org");
}

#[test]
fn ensure_registered_is_idempotent() {
    let mut acct = authed_account();
    acct.register_persist_callback(CountingPersist::default());
    acct.ensure_send_tab_registered().expect("first registration");
    let cached1 = acct.to_json().unwrap();
    let persists1 = acct.persist_callback.as_ref().unwrap().calls.get();
    assert_eq!(persists1, 1, "key creation persists once");
    acct.ensure_send_tab_registered().expect("second registration");
    let cached2 = acct.to_json().unwrap();
    let persists2 = acct.persist_callback.as_ref().unwrap().calls.get();
    assert_eq!(cached1, cached2, "cached key material is byte-identical");
    assert_eq!(persists2, persists1, "nothing changed, nothing persisted");
    assert_eq!(acct.client.updates.borrow().len(), 2, "both calls publish");
}

#[test]
fn poll_with_no_pending_commands_is_a_noop() {
    let mut acct = authed_account();
    acct.register_persist_callback(CountingPersist::default());
    let before = acct.to_json().unwrap();
    *acct.client.pending.borrow_mut() =
        Some(PendingCommandsResponse { index: 12, last: Some(true), messages: vec![] });
    let events = acct.poll_remote_commands().expect("poll succeeds");
    assert!(events.is_empty());
    assert_eq!(acct.persist_callback.as_ref().unwrap().calls.get(), 0);
    assert_eq!(acct.to_json().unwrap(), before, "no state mutation");
    assert!(acct.state.last_handled_command.is_none());
}

#[test]
fn send_tab_to_device_without_command_is_unsupported() {
    let mut acct = authed_account();
    acct.client.devices.borrow_mut().push(DeviceResponse {
        id: String::from("dev-123"),
        display_name: String::from("Example device"),
        device_type: DeviceType::Desktop,
        push_subscription: None,
        available_commands: StringMap::new(),
        push_endpoint_expired: false,
    });
    let err = acct.send_tab("dev-123", "Example", "https://example.com").unwrap_err();
    assert!(matches!(err, Error::UnsupportedCommand(_)), "got {:?}", err);
    assert!(acct.client.invoked.borrow().is_empty(), "nothing was invoked");
}

#[test]
fn send_tab_to_unknown_device_fails() {
    let mut acct = authed_account();
    let err = acct.send_tab("nope", "Example", "https://example.com").unwrap_err();
    assert!(matches!(err, Error::UnknownTargetDevice(_)), "got {:?}", err);
}

#[test]
fn send_tab_with_corrupted_hmac_fails_without_invoking() {
    let mut acct = authed_account();
    acct.ensure_send_tab_registered().expect("registration");
    let blob = registration_blob(&acct);
    // Flip one hex digit of the hmac field.
    let v = json_parse(&blob).expect("blob parses");
    let hmac = v.get("hmac").unwrap().as_str().unwrap().clone();
    let mut flipped: String = hmac.chars().collect();
    let first = flipped.remove(0);
    let other = if first == '0' { '1' } else { '0' };
    flipped.insert(0, other);
    let corrupted = blob.replace(&hmac, &flipped);
    let mut commands = StringMap::new();
    commands.insert(String::from(OPEN_URI), corrupted);
    acct.client.devices.borrow_mut().push(DeviceResponse {
        id: String::from("dev-123"),
        display_name: String::from("Example device"),
        device_type: DeviceType::Mobile,
        push_subscription: None,
        available_commands: commands,
        push_endpoint_expired: false,
    });
    let err = acct.send_tab("dev-123", "Example", "https://example.com").unwrap_err();
    assert!(matches!(err, Error::HmacMismatch), "got {:?}", err);
    assert!(acct.client.invoked.borrow().is_empty(), "no invoke call was made");
}

/// Register, "send" a tab to a device advertising our own registration blob,
/// and loop the invoked payload back as a pending command: the full
/// encrypt/decrypt round trip through the real crypto.
fn loopback_message(acct: &mut Account, title: &str, url: &str) -> JsonValue {
    let blob = registration_blob(acct);
    let mut commands = StringMap::new();
    commands.insert(String::from(OPEN_URI), blob);
    acct.client.devices.borrow_mut().push(DeviceResponse {
        id: String::from("self-as-peer"),
        display_name: String::from("Loopback"),
        device_type: DeviceType::Desktop,
        push_subscription: None,
        available_commands: commands,
        push_endpoint_expired: false,
    });
    acct.send_tab("self-as-peer", title, url).expect("send succeeds");
    let payload = acct.client.invoked.borrow().last().expect("invoked").2.deep_clone();
    acct.client.devices.borrow_mut().clear();
    acct.client.invoked.borrow_mut().clear();
    payload
}

#[test]
fn poll_emits_one_event_for_a_batch_with_one_bogus_command() {
    let mut acct = authed_account();
    acct.ensure_send_tab_registered().expect("registration");
    let payload = loopback_message(&mut acct, "Example", "https://example.com");
    acct.register_persist_callback(CountingPersist::default());
    *acct.client.pending.borrow_mut() = Some(PendingCommandsResponse {
        index: 42,
        last: Some(true),
        messages: vec![
            PendingCommand {
                index: 41,
                data: CommandData {
                    command: String::from(OPEN_URI),
                    payload,
                    sender: None,
                },
            },
            PendingCommand {
                index: 42,
                data: CommandData {
                    command: String::from("bogus"),
                    payload: JsonValue::Null,
                    sender: None,
                },
            },
        ],
    });
    let events = acct.poll_remote_commands().expect("poll succeeds");
    assert_eq!(events.len(), 1, "exactly one event");
    let AccountEvent::TabReceived((sender, tab)) = &events[0];
    assert!(sender.is_none());
    assert_eq!(tab.entries.len(), 1);
    assert_eq!(tab.entries[0].title, "Example");
    assert_eq!(tab.entries[0].url, "https://example.com");
    assert_eq!(acct.state.last_handled_command, Some(42), "batch index is the new mark");
    assert_eq!(acct.persist_callback.as_ref().unwrap().calls.get(), 1, "persisted once");
}

#[test]
fn directory_failure_mid_poll_leaves_state_and_redelivers() {
    let mut acct = authed_account();
    acct.ensure_send_tab_registered().expect("registration");
    let payload = loopback_message(&mut acct, "Retry me", "https://example.com/retry");
    acct.register_persist_callback(CountingPersist::default());
    let message = PendingCommand {
        index: 7,
        data: CommandData { command: String::from(OPEN_URI), payload, sender: None },
    };
    let batch = PendingCommandsResponse {
        index: 7,
        last: Some(true),
        messages: vec![PendingCommand {
            index: message.index,
            data: CommandData {
                command: message.data.command.clone(),
                payload: message.data.payload.deep_clone(),
                sender: None,
            },
        }],
    };
    *acct.client.pending.borrow_mut() = Some(batch);
    acct.client.devices_fail.set(true);
    let err = acct.poll_remote_commands().unwrap_err();
    assert!(matches!(err, Error::RemoteError { .. }), "got {:?}", err);
    assert!(acct.state.last_handled_command.is_none(), "mark not advanced");
    assert_eq!(acct.persist_callback.as_ref().unwrap().calls.get(), 0, "not persisted");
    // The next poll re-delivers the same batch and succeeds.
    acct.client.devices_fail.set(false);
    *acct.client.pending.borrow_mut() = Some(PendingCommandsResponse {
        index: 7,
        last: Some(true),
        messages: vec![message],
    });
    let events = acct.poll_remote_commands().expect("retry succeeds");
    assert_eq!(events.len(), 1);
    assert_eq!(acct.state.last_handled_command, Some(7));
    assert_eq!(acct.persist_callback.as_ref().unwrap().calls.get(), 1);
}

#[test]
fn the_high_water_mark_never_moves_backwards() {
    let mut acct = authed_account();
    acct.ensure_send_tab_registered().expect("registration");
    let payload = loopback_message(&mut acct, "Old news", "https://example.com/old");
    acct.state.last_handled_command = Some(50);
    *acct.client.pending.borrow_mut() = Some(PendingCommandsResponse {
        index: 7,
        last: Some(true),
        messages: vec![PendingCommand {
            index: 7,
            data: CommandData { command: String::from(OPEN_URI), payload, sender: None },
        }],
    });
    let events = acct.poll_remote_commands().expect("poll succeeds");
    assert_eq!(events.len(), 1, "the message is still delivered");
    assert_eq!(acct.state.last_handled_command, Some(50), "the mark is monotonic");
}

#[test]
fn poll_treats_not_found_as_an_empty_batch() {
    let mut acct = authed_account();
    acct.register_persist_callback(CountingPersist::default());
    let before = acct.to_json().unwrap();
    // A brand-new account with no command history: the relay answers 404.
    acct.client.pending_fails_not_found.set(true);
    let events = acct.poll_remote_commands().expect("not-found is no failure");
    assert!(events.is_empty());
    assert_eq!(acct.to_json().unwrap(), before, "no state mutation");
    assert_eq!(acct.persist_callback.as_ref().unwrap().calls.get(), 0);
}

#[test]
fn poll_without_refresh_token_is_refused() {
    let mut acct: Account =
        FirefoxAccount::new(MockClient::default(), "https://stable.dev.lcip.org", "12345678", "https://foo.bar");
    let err = acct.poll_remote_commands().unwrap_err();
    assert!(matches!(err, Error::NoRefreshToken), "got {:?}", err);
}

#[test]
fn ensure_registered_without_sync_key_is_refused() {
    let mut acct: Account =
        FirefoxAccount::new(MockClient::default(), "https://stable.dev.lcip.org", "12345678", "https://foo.bar");
    acct.state.refresh_token = Some(RefreshToken { token: String::from("t") });
    let err = acct.ensure_send_tab_registered().unwrap_err();
    assert!(matches!(err, Error::NoScopedKey(_)), "got {:?}", err);
}

#[test]
fn handling_a_command_before_registration_is_illegal_state() {
    let acct = authed_account();
    let err = acct.handle_send_tab_command(None, JsonValue::Null).unwrap_err();
    assert!(matches!(err, Error::IllegalState(_)), "got {:?}", err);
}

#[test]
fn unknown_command_name_is_reported_as_such() {
    let acct = authed_account();
    let data = CommandData {
        command: String::from("bogus"),
        payload: JsonValue::Null,
        sender: None,
    };
    let err = acct.handle_command(data, &vec![]).unwrap_err();
    match err {
        Error::UnknownCommand(name) => assert_eq!(name, "bogus"),
        other => panic!("got {:?}", other),
    }
}
