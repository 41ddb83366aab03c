//! The wire data of the account server's HTTP API, the tri-state device
//! update request, and the client abstraction through which the account
//! reaches the network. The HTTP transport itself is a collaborator: it
//! implements `FxAClient` outside this library and converts bodies with the
//! functions here.

use vstd::prelude::*;
use crate::config::Config;
use crate::errors::Error;
use crate::json::{JsonSpec, JsonValue, jget, jv_views, jv_member_views};
use crate::strmap::StringMap;
use crate::wire::{str_entries_members, str_entry_views};

verus! {

broadcast use vstd::seq::group_seq_axioms, vstd::std_specs::vec::group_vec_axioms;

/// A WebPush subscription as the server knows it.
#[derive(Debug)]
pub struct PushSubscription {
    /// The push endpoint URL (wire name `pushCallback`).
    pub endpoint: String,
    /// URL-safe base64 public key (wire name `pushPublicKey`).
    pub public_key: String,
    /// URL-safe base64 auth key (wire name `pushAuthKey`).
    pub auth_key: String,
}

/// The broad class of a device.
#[derive(Clone, Copy, Debug, PartialEq, Eq, Structural)]
pub enum DeviceType {
    Desktop,
    Mobile,
    Unknown,
}

/// The device type a wire string stands for.
pub open spec fn device_type_of(s: Seq<char>) -> DeviceType {
    if s == "desktop"@ {
        DeviceType::Desktop
    } else if s == "mobile"@ {
        DeviceType::Mobile
    } else {
        DeviceType::Unknown
    }
}

/// One device of the account, as the directory reports it.
#[derive(Debug)]
pub struct DeviceResponseCommon {
    pub id: String,
    /// Wire name `name`.
    pub display_name: String,
    /// Wire name `type`.
    pub device_type: DeviceType,
    /// Flattened wire fields `pushCallback`, `pushPublicKey`, `pushAuthKey`.
    pub push_subscription: Option<PushSubscription>,
    /// Wire name `availableCommands`.
    pub available_commands: StringMap<String>,
    /// Wire name `pushEndpointExpired`.
    pub push_endpoint_expired: bool,
}

/// The server returns the common device shape everywhere this library looks.
pub type DeviceResponse = DeviceResponseCommon;

/// One pending command message.
#[derive(Debug)]
pub struct PendingCommand {
    pub index: u64,
    pub data: CommandData,
}

/// The sender-resolved content of one command message.
#[derive(Debug)]
pub struct CommandData {
    pub command: String,
    pub payload: JsonValue,
    pub sender: Option<String>,
}

/// The batch the pending-commands endpoint returns.
#[derive(Debug)]
pub struct PendingCommandsResponse {
    pub index: u64,
    pub last: Option<bool>,
    pub messages: Vec<PendingCommand>,
}

/// The token endpoint's response.
#[derive(Debug)]
pub struct OAuthTokenResponse {
    pub keys_jwe: Option<String>,
    pub refresh_token: Option<String>,
    pub expires_in: u64,
    pub scope: String,
    pub access_token: String,
}

/// The userinfo endpoint's response.
#[derive(Debug)]
pub struct ProfileResponse {
    pub uid: String,
    pub email: String,
    pub locale: String,
    pub display_name: Option<String>,
    pub avatar: String,
    pub avatar_default: bool,
    pub amr_values: Vec<String>,
    pub two_factor_authentication: bool,
}

/// A response together with the ETag it came with.
pub struct ResponseAndETag<T> {
    pub response: T,
    pub etag: Option<String>,
}

/// A device update with tri-state fields: an absent field changes nothing, a
/// null field clears, a present field sets. The outer option is presence, the
/// inner the value or null.
pub struct DeviceUpdateRequest {
    /// Wire name `name`.
    pub display_name: Option<Option<String>>,
    /// Wire name `type`.
    pub device_type: Option<Option<DeviceType>>,
    /// Flattened; a subscription can only be set, never cleared here.
    pub push_subscription: Option<PushSubscription>,
    /// Wire name `availableCommands`.
    pub available_commands: Option<Option<StringMap<String>>>,
}

/// The `name` members a device update serializes to.
pub open spec fn update_name_members(u: DeviceUpdateRequest) -> Seq<(Seq<char>, JsonSpec)> {
    match u.display_name {
        None => Seq::empty(),
        Some(None) => seq![("name"@, JsonSpec::Null)],
        Some(Some(s)) => seq![("name"@, JsonSpec::Str(s@))],
    }
}

/// The `type` members a device update serializes to. An unknown type cannot
/// be sent and serializes to no field at all.
pub open spec fn update_type_members(u: DeviceUpdateRequest) -> Seq<(Seq<char>, JsonSpec)> {
    match u.device_type {
        None => Seq::empty(),
        Some(None) => seq![("type"@, JsonSpec::Null)],
        Some(Some(DeviceType::Desktop)) => seq![("type"@, JsonSpec::Str("desktop"@))],
        Some(Some(DeviceType::Mobile)) => seq![("type"@, JsonSpec::Str("mobile"@))],
        Some(Some(DeviceType::Unknown)) => Seq::empty(),
    }
}

/// The flattened push-subscription members a device update serializes to.
pub open spec fn update_push_members(u: DeviceUpdateRequest) -> Seq<(Seq<char>, JsonSpec)> {
    match u.push_subscription {
        None => Seq::empty(),
        Some(p) => seq![
            ("pushCallback"@, JsonSpec::Str(p.endpoint@)),
            ("pushPublicKey"@, JsonSpec::Str(p.public_key@)),
            ("pushAuthKey"@, JsonSpec::Str(p.auth_key@)),
        ],
    }
}

/// The `availableCommands` members a device update serializes to.
pub open spec fn update_commands_members(u: DeviceUpdateRequest) -> Seq<(Seq<char>, JsonSpec)> {
    match u.available_commands {
        None => Seq::empty(),
        Some(None) => seq![("availableCommands"@, JsonSpec::Null)],
        Some(Some(m)) => seq![
            (
                "availableCommands"@,
                JsonSpec::Obj(str_entries_members(str_entry_views(m.entries_seq()))),
            ),
        ],
    }
}

/// The whole member list of a serialized device update, in wire order.
pub open spec fn update_members(u: DeviceUpdateRequest) -> Seq<(Seq<char>, JsonSpec)> {
    update_name_members(u) + update_type_members(u) + update_push_members(u)
        + update_commands_members(u)
}

/// Append one member, named by a literal key.
pub fn push_member(members: &mut Vec<(String, JsonValue)>, key: &str, value: JsonValue)
    ensures
        jv_member_views(final(members)@) == jv_member_views(old(members)@) + seq![
            (key@, value@),
        ],
{
    let ghost gv = value@;
    members.push((String::from_str(key), value));
    proof {
        let last = members@.last();
        assert(members@ =~= old(members)@.push((last.0, last.1)));
        crate::json::lemma_jv_member_views_snoc(old(members)@, last.0, last.1);
        assert(jv_member_views(members@) =~= jv_member_views(old(members)@) + seq![(key@, gv)]);
    }
}

/// Serialize a device update, field by field under the tri-state rule.
pub fn device_update_to_json(u: &DeviceUpdateRequest) -> (r: JsonValue)
    ensures
        r@ == JsonSpec::Obj(update_members(*u)),
{
    let mut members: Vec<(String, JsonValue)> = Vec::new();
    proof {
        assert(jv_member_views(members@) =~= Seq::<(Seq<char>, JsonSpec)>::empty());
    }
    match &u.display_name {
        None => {},
        Some(None) => {
            push_member(&mut members, "name", JsonValue::Null);
        },
        Some(Some(s)) => {
            push_member(&mut members, "name", JsonValue::Str(s.clone()));
        },
    }
    proof {
        assert(jv_member_views(members@) =~= update_name_members(*u));
    }
    let ghost base1 = jv_member_views(members@);
    match &u.device_type {
        None => {},
        Some(None) => {
            push_member(&mut members, "type", JsonValue::Null);
        },
        Some(Some(DeviceType::Desktop)) => {
            push_member(&mut members, "type", JsonValue::Str(String::from_str("desktop")));
        },
        Some(Some(DeviceType::Mobile)) => {
            push_member(&mut members, "type", JsonValue::Str(String::from_str("mobile")));
        },
        Some(Some(DeviceType::Unknown)) => {},
    }
    proof {
        assert(jv_member_views(members@) =~= base1 + update_type_members(*u));
    }
    let ghost base2 = jv_member_views(members@);
    match &u.push_subscription {
        None => {},
        Some(p) => {
            push_member(&mut members, "pushCallback", JsonValue::Str(p.endpoint.clone()));
            push_member(&mut members, "pushPublicKey", JsonValue::Str(p.public_key.clone()));
            push_member(&mut members, "pushAuthKey", JsonValue::Str(p.auth_key.clone()));
        },
    }
    proof {
        assert(jv_member_views(members@) =~= base2 + update_push_members(*u));
    }
    let ghost base3 = jv_member_views(members@);
    match &u.available_commands {
        None => {},
        Some(None) => {
            push_member(&mut members, "availableCommands", JsonValue::Null);
        },
        Some(Some(m)) => {
            let cmds = crate::wire::strmap_to_json(m);
            push_member(&mut members, "availableCommands", cmds);
        },
    }
    proof {
        assert(jv_member_views(members@) =~= base3 + update_commands_members(*u));
        assert(jv_member_views(members@) =~= update_members(*u));
    }
    JsonValue::Obj(members)
}

/// A builder for a device update; every field starts untouched.
pub struct DeviceUpdateRequestBuilder {
    device_type: Option<Option<DeviceType>>,
    display_name: Option<Option<String>>,
    push_subscription: Option<PushSubscription>,
    available_commands: Option<Option<StringMap<String>>>,
}

impl DeviceUpdateRequestBuilder {
    /// What the builder will build.
    pub closed spec fn as_update(&self) -> DeviceUpdateRequest {
        DeviceUpdateRequest {
            display_name: self.display_name,
            device_type: self.device_type,
            push_subscription: self.push_subscription,
            available_commands: self.available_commands,
        }
    }

    /// An update that changes nothing.
    pub fn new() -> (r: DeviceUpdateRequestBuilder)
        ensures
            r.as_update() == (DeviceUpdateRequest {
                display_name: None,
                device_type: None,
                push_subscription: None,
                available_commands: None,
            }),
    {
        DeviceUpdateRequestBuilder {
            device_type: None,
            display_name: None,
            push_subscription: None,
            available_commands: None,
        }
    }

    /// Set the push subscription.
    pub fn push_subscription(self, push_subscription: PushSubscription) -> (r:
        DeviceUpdateRequestBuilder)
        ensures
            r.as_update() == (DeviceUpdateRequest {
                push_subscription: Some(push_subscription),
                ..self.as_update()
            }),
    {
        DeviceUpdateRequestBuilder { push_subscription: Some(push_subscription), ..self }
    }

    /// Set the advertised command map.
    pub fn available_commands(self, available_commands: StringMap<String>) -> (r:
        DeviceUpdateRequestBuilder)
        ensures
            r.as_update() == (DeviceUpdateRequest {
                available_commands: Some(Some(available_commands)),
                ..self.as_update()
            }),
    {
        DeviceUpdateRequestBuilder { available_commands: Some(Some(available_commands)), ..self }
    }

    /// Clear the advertised command map.
    pub fn clear_available_commands(self) -> (r: DeviceUpdateRequestBuilder)
        ensures
            r.as_update() == (DeviceUpdateRequest {
                available_commands: Some(None),
                ..self.as_update()
            }),
    {
        DeviceUpdateRequestBuilder { available_commands: Some(None), ..self }
    }

    /// Set the display name.
    pub fn display_name(self, display_name: &str) -> (r: DeviceUpdateRequestBuilder)
        ensures
            r.as_update().display_name matches Some(Some(s)) && s@ == display_name@,
            r.as_update().device_type == self.as_update().device_type,
            r.as_update().push_subscription == self.as_update().push_subscription,
            r.as_update().available_commands == self.as_update().available_commands,
    {
        DeviceUpdateRequestBuilder { display_name: Some(Some(String::from_str(display_name))), ..self }
    }

    /// Clear the display name.
    pub fn clear_display_name(self) -> (r: DeviceUpdateRequestBuilder)
        ensures
            r.as_update() == (DeviceUpdateRequest { display_name: Some(None), ..self.as_update() }),
    {
        DeviceUpdateRequestBuilder { display_name: Some(None), ..self }
    }

    /// Set the device type.
    pub fn device_type(self, device_type: DeviceType) -> (r: DeviceUpdateRequestBuilder)
        ensures
            r.as_update() == (DeviceUpdateRequest {
                device_type: Some(Some(device_type)),
                ..self.as_update()
            }),
    {
        DeviceUpdateRequestBuilder { device_type: Some(Some(device_type)), ..self }
    }

    /// The finished update.
    pub fn build(self) -> (r: DeviceUpdateRequest)
        ensures
            r == self.as_update(),
    {
        DeviceUpdateRequest {
            display_name: self.display_name,
            device_type: self.device_type,
            push_subscription: self.push_subscription,
            available_commands: self.available_commands,
        }
    }
}

/// The network the account talks through. The library states nothing of what
/// comes back: every caller in it says what holds whatever the outcome, and
/// an embedder (or a test) implements this trait over its own transport.
pub trait FxAClient {
    fn oauth_token_with_code(&self, config: &Config, code: &str, code_verifier: &str) -> Result<
        OAuthTokenResponse,
        Error,
    >;

    fn oauth_token_with_refresh_token(
        &self,
        config: &Config,
        refresh_token: &str,
        scopes: &Vec<String>,
    ) -> Result<OAuthTokenResponse, Error>;

    fn destroy_oauth_token(&self, config: &Config, token: &str) -> Result<(), Error>;

    fn profile(&self, config: &Config, profile_access_token: &str, etag: Option<String>) -> Result<
        Option<ResponseAndETag<ProfileResponse>>,
        Error,
    >;

    fn pending_commands(
        &self,
        config: &Config,
        refresh_token: &str,
        index: u64,
        limit: Option<u64>,
    ) -> Result<PendingCommandsResponse, Error>;

    fn invoke_command(
        &self,
        config: &Config,
        access_token: &str,
        command: &str,
        target: &str,
        payload: &JsonValue,
    ) -> Result<(), Error>;

    fn devices(&self, config: &Config, access_token: &str) -> Result<Vec<DeviceResponse>, Error>;

    fn update_device(
        &self,
        config: &Config,
        refresh_token: &str,
        update: DeviceUpdateRequest,
    ) -> Result<(), Error>;
}

/// The body of an invoke-command call.
pub fn invoke_command_body(command: &str, target: &str, payload: &JsonValue) -> (r: JsonValue)
    ensures
        r@ == JsonSpec::Obj(
            seq![
                ("command"@, JsonSpec::Str(command@)),
                ("target"@, JsonSpec::Str(target@)),
                ("payload"@, payload@),
            ],
        ),
{
    let mut members: Vec<(String, JsonValue)> = Vec::new();
    proof {
        assert(jv_member_views(members@) =~= Seq::<(Seq<char>, JsonSpec)>::empty());
    }
    push_member(&mut members, "command", JsonValue::Str(String::from_str(command)));
    push_member(&mut members, "target", JsonValue::Str(String::from_str(target)));
    push_member(&mut members, "payload", payload.deep_clone());
    proof {
        assert(jv_member_views(members@) =~= seq![
            ("command"@, JsonSpec::Str(command@)),
            ("target"@, JsonSpec::Str(target@)),
            ("payload"@, payload@),
        ]);
    }
    JsonValue::Obj(members)
}

/// The structured error a failing relay response stands for: each field read
/// from the body where it has the right type, its zero value otherwise.
pub fn remote_error_from_json(v: &JsonValue) -> (r: Error)
    ensures
        r matches Error::RemoteError { code, errno, error, message, info } && code == (
        match jget(v@, "code"@) {
            Some(JsonSpec::UInt(n)) => n,
            _ => 0,
        }) && errno == (match jget(v@, "errno"@) {
            Some(JsonSpec::UInt(n)) => n,
            _ => 0,
        }) && error@ == (match jget(v@, "error"@) {
            Some(JsonSpec::Str(s)) => s,
            _ => Seq::<char>::empty(),
        }) && message@ == (match jget(v@, "message"@) {
            Some(JsonSpec::Str(s)) => s,
            _ => Seq::<char>::empty(),
        }) && info@ == (match jget(v@, "info"@) {
            Some(JsonSpec::Str(s)) => s,
            _ => Seq::<char>::empty(),
        }),
{
    let code = match crate::wire::get_u64_field(v, "code") {
        Some(n) => n,
        None => 0,
    };
    let errno = match crate::wire::get_u64_field(v, "errno") {
        Some(n) => n,
        None => 0,
    };
    let error = match crate::wire::get_str_field(v, "error") {
        Some(s) => s.clone(),
        None => String::new(),
    };
    let message = match crate::wire::get_str_field(v, "message") {
        Some(s) => s.clone(),
        None => String::new(),
    };
    let info = match crate::wire::get_str_field(v, "info") {
        Some(s) => s.clone(),
        None => String::new(),
    };
    Error::RemoteError { code, errno, error, message, info }
}

/// Whether one pending-command message matches its wire document: the server
/// index, and under `data` the command name, the payload and the optional
/// sender.
pub open spec fn message_matches_json(m: PendingCommand, j: JsonSpec) -> bool {
    &&& jget(j, "index"@) == Some(JsonSpec::UInt(m.index))
    &&& (match jget(j, "data"@) {
        Some(dj) => {
            &&& jget(dj, "command"@) == Some(JsonSpec::Str(m.data.command@))
            &&& jget(dj, "payload"@) == Some(m.data.payload@)
            &&& (match m.data.sender {
                Some(s) => jget(dj, "sender"@) == Some(JsonSpec::Str(s@)),
                None => !(jget(dj, "sender"@) matches Some(JsonSpec::Str(_))),
            })
        },
        None => false,
    })
}

/// Read one pending-command message.
/// Whether a document has the shape of one pending-command message.
pub open spec fn message_json_ok(j: JsonSpec) -> bool {
    &&& jget(j, "index"@) matches Some(JsonSpec::UInt(_))
    &&& (match jget(j, "data"@) {
        Some(dj) => jget(dj, "command"@) matches Some(JsonSpec::Str(_)) && jget(dj, "payload"@)
            is Some,
        None => false,
    })
}

fn pending_command_from_json(v: &JsonValue) -> (r: Result<PendingCommand, Error>)
    ensures
        (match r {
            Ok(m) => message_matches_json(m, v@),
            Err(e) => e is JsonError,
        }),
        message_json_ok(v@) ==> r is Ok,
{
    let index = match crate::wire::get_u64_field(v, "index") {
        Some(n) => n,
        None => {
            return Err(Error::JsonError);
        },
    };
    let data = match v.get("data") {
        Some(d) => d,
        None => {
            return Err(Error::JsonError);
        },
    };
    let command = match crate::wire::get_str_field(data, "command") {
        Some(t) => t.clone(),
        None => {
            return Err(Error::JsonError);
        },
    };
    let payload = match data.get("payload") {
        Some(p) => p.deep_clone(),
        None => {
            return Err(Error::JsonError);
        },
    };
    let sender = match crate::wire::get_str_field(data, "sender") {
        Some(t) => Some(t.clone()),
        None => None,
    };
    Ok(PendingCommand { index, data: CommandData { command, payload, sender } })
}

/// Read a pending-commands response: the batch index, the optional `last`
/// flag, and the messages in their wire order.
#[verifier::loop_isolation(false)]
pub fn pending_commands_from_json(v: &JsonValue) -> (r: Result<PendingCommandsResponse, Error>)
    ensures
        (match r {
            Ok(p) => jget(v@, "index"@) == Some(JsonSpec::UInt(p.index)) && (match jget(
                v@,
                "messages"@,
            ) {
                Some(JsonSpec::Arr(items)) => p.messages@.len() == items.len() && (forall|t: int|
                    0 <= t < items.len() ==> message_matches_json(#[trigger] p.messages@[t], items[t])),
                _ => false,
            }),
            Err(e) => e is JsonError,
        }),
        (jget(v@, "index"@) matches Some(JsonSpec::UInt(_)) && (match jget(v@, "messages"@) {
            Some(JsonSpec::Arr(items)) => forall|t: int|
                0 <= t < items.len() ==> message_json_ok(#[trigger] items[t]),
            _ => false,
        })) ==> r is Ok,
{
    let index = match crate::wire::get_u64_field(v, "index") {
        Some(n) => n,
        None => {
            return Err(Error::JsonError);
        },
    };
    let last = crate::wire::get_bool_field(v, "last");
    let items = match v.get("messages") {
        Some(f) => match f.as_arr() {
            Some(items) => items,
            None => {
                return Err(Error::JsonError);
            },
        },
        None => {
            return Err(Error::JsonError);
        },
    };
    let n = items.len();
    let mut messages: Vec<PendingCommand> = Vec::new();
    let mut i: usize = 0;
    proof {
        crate::json::lemma_jv_views_index(items@);
    }
    while i < n
        invariant
            n == items@.len(),
            i <= n,
            messages@.len() == i,
            forall|t: int|
                0 <= t < i ==> message_matches_json(#[trigger] messages@[t], jv_views(items@)[t]),
        decreases n - i,
    {
        let m = match pending_command_from_json(&items[i]) {
            Ok(m) => m,
            Err(e) => {
                proof {
                    match jget(v@, "messages"@) {
                        Some(JsonSpec::Arr(s)) => {
                            assert(s == jv_views(items@));
                            assert(s[i as int] == items@[i as int]@);
                            assert(!message_json_ok(s[i as int]));
                        },
                        _ => {},
                    }
                }
                return Err(e);
            },
        };
        messages.push(m);
        i = i + 1;
    }
    Ok(PendingCommandsResponse { index, last, messages })
}

/// Whether one device record matches its wire document.
pub open spec fn device_matches_json(d: DeviceResponse, j: JsonSpec) -> bool {
    &&& jget(j, "id"@) == Some(JsonSpec::Str(d.id@))
    &&& jget(j, "name"@) == Some(JsonSpec::Str(d.display_name@))
    &&& (match jget(j, "type"@) {
        Some(JsonSpec::Str(t)) => d.device_type == device_type_of(t),
        _ => false,
    })
    &&& jget(j, "pushEndpointExpired"@) == Some(JsonSpec::Bool(d.push_endpoint_expired))
    &&& (match jget(j, "availableCommands"@) {
        Some(cj) => cj == JsonSpec::Obj(
            str_entries_members(str_entry_views(d.available_commands.entries_seq())),
        ) && d.available_commands.wf(),
        None => false,
    })
    &&& (match d.push_subscription {
        Some(p) => jget(j, "pushCallback"@) == Some(JsonSpec::Str(p.endpoint@)) && jget(
            j,
            "pushPublicKey"@,
        ) == Some(JsonSpec::Str(p.public_key@)) && jget(j, "pushAuthKey"@) == Some(
            JsonSpec::Str(p.auth_key@),
        ),
        None => true,
    })
}

/// Read one device record: `id`, `name`, `type`, `availableCommands` and
/// `pushEndpointExpired` are required; the flattened push-subscription
/// fields count only when all three are present.
/// Whether a document has the shape of one device record: the required
/// fields, and an advertised-command object of strings under unique keys.
pub open spec fn device_json_ok(j: JsonSpec) -> bool {
    &&& jget(j, "id"@) matches Some(JsonSpec::Str(_))
    &&& jget(j, "name"@) matches Some(JsonSpec::Str(_))
    &&& jget(j, "type"@) matches Some(JsonSpec::Str(_))
    &&& jget(j, "pushEndpointExpired"@) matches Some(JsonSpec::Bool(_))
    &&& (exists|pairs: Seq<(Seq<char>, Seq<char>)>|
        jget(j, "availableCommands"@) == Some(
            JsonSpec::Obj(#[trigger] str_entries_members(pairs)),
        ) && (forall|a: int, b: int| 0 <= a < b < pairs.len() ==> pairs[a].0 != pairs[b].0))
}

pub fn device_from_json(v: &JsonValue) -> (r: Result<DeviceResponse, Error>)
    ensures
        (match r {
            Ok(d) => device_matches_json(d, v@),
            Err(e) => e is JsonError,
        }),
        device_json_ok(v@) ==> r is Ok,
{
    let id = match crate::wire::get_str_field(v, "id") {
        Some(t) => t.clone(),
        None => {
            return Err(Error::JsonError);
        },
    };
    let display_name = match crate::wire::get_str_field(v, "name") {
        Some(t) => t.clone(),
        None => {
            return Err(Error::JsonError);
        },
    };
    let device_type = match crate::wire::get_str_field(v, "type") {
        Some(t) => {
            if crate::strutil::string_eq_str(t, "desktop") {
                DeviceType::Desktop
            } else if crate::strutil::string_eq_str(t, "mobile") {
                DeviceType::Mobile
            } else {
                DeviceType::Unknown
            }
        },
        None => {
            return Err(Error::JsonError);
        },
    };
    let push_endpoint_expired = match crate::wire::get_bool_field(v, "pushEndpointExpired") {
        Some(b) => b,
        None => {
            return Err(Error::JsonError);
        },
    };
    let available_commands = match v.get("availableCommands") {
        Some(f) => match crate::wire::strmap_from_json(f) {
            Ok(m) => m,
            Err(e) => {
                return Err(e);
            },
        },
        None => {
            return Err(Error::JsonError);
        },
    };
    let push_subscription = match (
        crate::wire::get_str_field(v, "pushCallback"),
        crate::wire::get_str_field(v, "pushPublicKey"),
        crate::wire::get_str_field(v, "pushAuthKey"),
    ) {
        (Some(endpoint), Some(public_key), Some(auth_key)) => Some(
            PushSubscription {
                endpoint: endpoint.clone(),
                public_key: public_key.clone(),
                auth_key: auth_key.clone(),
            },
        ),
        _ => None,
    };
    Ok(
        DeviceResponseCommon {
            id,
            display_name,
            device_type,
            push_subscription,
            available_commands,
            push_endpoint_expired,
        },
    )
}

/// Read a whole device directory: an array of device records.
#[verifier::loop_isolation(false)]
pub fn devices_from_json(v: &JsonValue) -> (r: Result<Vec<DeviceResponse>, Error>)
    ensures
        (match r {
            Ok(ds) => (match v@ {
                JsonSpec::Arr(items) => ds@.len() == items.len() && (forall|t: int|
                    0 <= t < items.len() ==> device_matches_json(#[trigger] ds@[t], items[t])),
                _ => false,
            }),
            Err(e) => e is JsonError,
        }),
        (match v@ {
            JsonSpec::Arr(items) => (forall|t: int|
                0 <= t < items.len() ==> device_json_ok(#[trigger] items[t])) ==> r is Ok,
            _ => r is Err,
        }),
{
    let items = match v.as_arr() {
        Some(items) => items,
        None => {
            return Err(Error::JsonError);
        },
    };
    let n = items.len();
    let mut out: Vec<DeviceResponse> = Vec::new();
    let mut i: usize = 0;
    proof {
        crate::json::lemma_jv_views_index(items@);
    }
    while i < n
        invariant
            n == items@.len(),
            i <= n,
            out@.len() == i,
            forall|t: int|
                0 <= t < i ==> device_matches_json(#[trigger] out@[t], jv_views(items@)[t]),
        decreases n - i,
    {
        let d = match device_from_json(&items[i]) {
            Ok(d) => d,
            Err(e) => {
                proof {
                    match v@ {
                        JsonSpec::Arr(s) => {
                            assert(s == jv_views(items@));
                            assert(s[i as int] == items@[i as int]@);
                            assert(!device_json_ok(s[i as int]));
                        },
                        _ => {},
                    }
                }
                return Err(e);
            },
        };
        out.push(d);
        i = i + 1;
    }
    Ok(out)
}

/// Read a token endpoint response: `expires_in`, `scope` and `access_token`
/// are required.
pub fn oauth_token_from_json(v: &JsonValue) -> (r: Result<OAuthTokenResponse, Error>)
    ensures
        (match r {
            Ok(t) => jget(v@, "expires_in"@) == Some(JsonSpec::UInt(t.expires_in)) && jget(
                v@,
                "scope"@,
            ) == Some(JsonSpec::Str(t.scope@)) && jget(v@, "access_token"@) == Some(
                JsonSpec::Str(t.access_token@),
            ),
            Err(e) => e is JsonError,
        }),
        (jget(v@, "expires_in"@) matches Some(JsonSpec::UInt(_)) && jget(v@, "scope"@) matches Some(
            JsonSpec::Str(_),
        ) && jget(v@, "access_token"@) matches Some(JsonSpec::Str(_))) ==> r is Ok,
{
    let keys_jwe = match crate::wire::get_str_field(v, "keys_jwe") {
        Some(t) => Some(t.clone()),
        None => None,
    };
    let refresh_token = match crate::wire::get_str_field(v, "refresh_token") {
        Some(t) => Some(t.clone()),
        None => None,
    };
    let expires_in = match crate::wire::get_u64_field(v, "expires_in") {
        Some(n) => n,
        None => {
            return Err(Error::JsonError);
        },
    };
    let scope = match crate::wire::get_str_field(v, "scope") {
        Some(t) => t.clone(),
        None => {
            return Err(Error::JsonError);
        },
    };
    let access_token = match crate::wire::get_str_field(v, "access_token") {
        Some(t) => t.clone(),
        None => {
            return Err(Error::JsonError);
        },
    };
    Ok(OAuthTokenResponse { keys_jwe, refresh_token, expires_in, scope, access_token })
}

/// Read a userinfo response: `uid`, `email`, `locale`, `avatar`,
/// `avatarDefault` and `twoFactorAuthentication` are required, the display
/// name and authentication-method values optional.
#[verifier::loop_isolation(false)]
pub fn profile_from_json(v: &JsonValue) -> (r: Result<ProfileResponse, Error>)
    ensures
        (match r {
            Ok(p) => jget(v@, "uid"@) == Some(JsonSpec::Str(p.uid@)) && jget(v@, "email"@) == Some(
                JsonSpec::Str(p.email@),
            ) && jget(v@, "locale"@) == Some(JsonSpec::Str(p.locale@)) && jget(v@, "avatar"@)
                == Some(JsonSpec::Str(p.avatar@)) && jget(v@, "avatarDefault"@) == Some(
                JsonSpec::Bool(p.avatar_default),
            ) && jget(v@, "twoFactorAuthentication"@) == Some(
                JsonSpec::Bool(p.two_factor_authentication),
            ) && (match p.display_name {
                Some(d) => jget(v@, "displayName"@) == Some(JsonSpec::Str(d@)),
                None => !(jget(v@, "displayName"@) matches Some(JsonSpec::Str(_))),
            }),
            Err(e) => e is JsonError,
        }),
        (jget(v@, "uid"@) matches Some(JsonSpec::Str(_)) && jget(v@, "email"@) matches Some(
            JsonSpec::Str(_),
        ) && jget(v@, "locale"@) matches Some(JsonSpec::Str(_)) && jget(v@, "avatar"@) matches Some(
            JsonSpec::Str(_),
        ) && jget(v@, "avatarDefault"@) matches Some(JsonSpec::Bool(_)) && jget(
            v@,
            "twoFactorAuthentication"@,
        ) matches Some(JsonSpec::Bool(_)) && (match jget(v@, "amrValues"@) {
            Some(JsonSpec::Arr(items)) => forall|t: int|
                0 <= t < items.len() ==> (#[trigger] items[t]) is Str,
            Some(_) => false,
            None => true,
        })) ==> r is Ok,
{
    let uid = match crate::wire::get_str_field(v, "uid") {
        Some(t) => t.clone(),
        None => {
            return Err(Error::JsonError);
        },
    };
    let email = match crate::wire::get_str_field(v, "email") {
        Some(t) => t.clone(),
        None => {
            return Err(Error::JsonError);
        },
    };
    let locale = match crate::wire::get_str_field(v, "locale") {
        Some(t) => t.clone(),
        None => {
            return Err(Error::JsonError);
        },
    };
    let display_name = match crate::wire::get_str_field(v, "displayName") {
        Some(t) => Some(t.clone()),
        None => None,
    };
    let avatar = match crate::wire::get_str_field(v, "avatar") {
        Some(t) => t.clone(),
        None => {
            return Err(Error::JsonError);
        },
    };
    let avatar_default = match crate::wire::get_bool_field(v, "avatarDefault") {
        Some(b) => b,
        None => {
            return Err(Error::JsonError);
        },
    };
    let two_factor_authentication = match crate::wire::get_bool_field(
        v,
        "twoFactorAuthentication",
    ) {
        Some(b) => b,
        None => {
            return Err(Error::JsonError);
        },
    };
    let mut amr_values: Vec<String> = Vec::new();
    match v.get("amrValues") {
        Some(f) => match f.as_arr() {
            Some(items) => {
                let n = items.len();
                let mut i: usize = 0;
                while i < n
                    invariant
                        i <= n,
                        n == items@.len(),
                    decreases n - i,
                {
                    match items[i].as_str() {
                        Some(t) => {
                            amr_values.push(t.clone());
                        },
                        None => {
                            proof {
                                crate::json::lemma_jv_views_index(items@);
                                match jget(v@, "amrValues"@) {
                                    Some(JsonSpec::Arr(s)) => {
                                        assert(s == jv_views(items@));
                                        assert(s[i as int] == items@[i as int]@);
                                        assert(!(s[i as int] is Str));
                                    },
                                    _ => {},
                                }
                            }
                            return Err(Error::JsonError);
                        },
                    }
                    i = i + 1;
                }
            },
            None => {
                return Err(Error::JsonError);
            },
        },
        None => {},
    }
    Ok(
        ProfileResponse {
            uid,
            email,
            locale,
            display_name,
            avatar,
            avatar_default,
            amr_values,
            two_factor_authentication,
        },
    )
}

} // verus!
