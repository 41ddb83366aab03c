//! The decisions of the push server protocol: which configurations are
//! acceptable, which URLs the calls go to, and how responses are read. The
//! HTTP transport itself lives with the embedder, which implements
//! `Connection` over it.

use vstd::prelude::*;
use crate::json::{jget, JsonSpec, JsonValue};
use crate::push::error::ErrorKind;
use crate::push::storage::Store;
use crate::strmap::StringMap;

verus! {

/// The server registration response.
#[allow(non_snake_case)]
#[derive(Debug)]
pub struct RegisterResponse {
    /// The user-agent id the registration belongs to.
    pub uaid: String,
    /// The channel id it echoes back.
    pub channelID: String,
    /// Auth token for subsequent calls; only handed out for new uaids.
    pub secret: Option<String>,
    /// The push endpoint for third parties.
    pub endpoint: String,
    /// The sender or group id echoed back, if applicable.
    pub senderid: Option<String>,
}

/// A broadcast value: a plain string or a nested named set of them.
pub enum BroadcastValue {
    Value(String),
    Nested(StringMap<BroadcastValue>),
}

/// How the push server is reached.
#[derive(Debug)]
pub struct PushConfiguration {
    pub server_host: String,
    pub http_protocol: Option<String>,
    pub socket_protocol: Option<String>,
    pub bridge_type: Option<String>,
    pub application_id: Option<String>,
    pub sender_id: String,
    pub request_timeout: u64,
}

/// A connection to the push server; the embedder implements it over its
/// transport of choice.
pub trait Connection {
    fn reset_uaid(&self) -> Result<bool, ErrorKind>;

    fn subscribe(
        &mut self,
        channel_id: &str,
        vapid_public_key: Option<&str>,
        registration_token: Option<&str>,
    ) -> Result<RegisterResponse, ErrorKind>;

    fn unsubscribe(&self, channel_id: Option<&str>, auth: &str) -> Result<bool, ErrorKind>;

    fn update(&self, channel_id: &str, auth: &str, new_token: &str) -> Result<bool, ErrorKind>;

    fn channel_list(&self) -> Result<Vec<String>, ErrorKind>;

    fn verify_connection(&self, store: &Store) -> Result<bool, ErrorKind>;

    fn broadcast_subscribe(&self, broadcast: BroadcastValue) -> Result<BroadcastValue, ErrorKind>;

    fn broadcasts(&self) -> Result<BroadcastValue, ErrorKind>;
}

/// Whether a configuration can be connected to at all: the two protocols are
/// mutually exclusive, and sockets are not supported.
pub fn validate_push_config(options: &PushConfiguration) -> (r: Result<(), ErrorKind>)
    ensures
        options.socket_protocol is Some && options.http_protocol is Some ==> (r matches Err(e)
            && e is CommunicationError),
        options.socket_protocol is Some && options.http_protocol is None ==> (r matches Err(e)
            && e is GeneralError),
        options.socket_protocol is None <==> r is Ok,
{
    if options.socket_protocol.is_some() && options.http_protocol.is_some() {
        return Err(
            ErrorKind::CommunicationError(
                String::from_str("Both socket and HTTP protocols cannot be set."),
            ),
        );
    }
    if options.socket_protocol.is_some() {
        return Err(ErrorKind::GeneralError(String::from_str("Unsupported")));
    }
    Ok(())
}

/// The base registration URL:
/// `{protocol}://{host}/v1/{bridge}/{application}/registration`. Absent
/// protocol, bridge type or application id make the call impossible.
pub fn subscribe_url(options: &PushConfiguration) -> (r: Result<String, ErrorKind>)
    ensures
        r is Ok <==> options.http_protocol is Some && options.bridge_type is Some
            && options.application_id is Some,
        (match r {
            Ok(u) => u@ == options.http_protocol.unwrap()@ + "://"@ + options.server_host@ + "/v1/"@
                + options.bridge_type.unwrap()@ + "/"@ + options.application_id.unwrap()@
                + "/registration"@,
            Err(e) => e is CommunicationError,
        }),
{
    let protocol = match &options.http_protocol {
        Some(p) => p,
        None => {
            return Err(missing_config_error());
        },
    };
    let bridge = match &options.bridge_type {
        Some(b) => b,
        None => {
            return Err(missing_config_error());
        },
    };
    let app_id = match &options.application_id {
        Some(a) => a,
        None => {
            return Err(missing_config_error());
        },
    };
    let mut url = protocol.clone();
    url.append("://");
    url.append(options.server_host.as_str());
    url.append("/v1/");
    url.append(bridge.as_str());
    url.append("/");
    url.append(app_id.as_str());
    url.append("/registration");
    Ok(url)
}

/// The error for a configuration that cannot make bridged calls.
fn missing_config_error() -> (r: ErrorKind)
    ensures
        r is CommunicationError,
{
    ErrorKind::CommunicationError(String::from_str("Bridge type or application id not set."))
}

/// The per-uaid registration URL: the base URL, a slash, and the uaid.
pub fn registration_url(options: &PushConfiguration, uaid: &str) -> (r: Result<String, ErrorKind>)
    ensures
        r is Ok <==> options.http_protocol is Some && options.bridge_type is Some
            && options.application_id is Some,
        (match r {
            Ok(u) => u@ == options.http_protocol.unwrap()@ + "://"@ + options.server_host@ + "/v1/"@
                + options.bridge_type.unwrap()@ + "/"@ + options.application_id.unwrap()@
                + "/registration/"@ + uaid@,
            Err(e) => e is CommunicationError,
        }),
{
    let mut url = subscribe_url(options)?;
    url.append("/");
    url.append(uaid);
    proof {
        reveal_strlit("/registration");
        reveal_strlit("/registration/");
        reveal_strlit("/");
        assert(url@ =~= options.http_protocol.unwrap()@ + "://"@ + options.server_host@ + "/v1/"@
            + options.bridge_type.unwrap()@ + "/"@ + options.application_id.unwrap()@
            + "/registration/"@ + uaid@);
    }
    Ok(url)
}

/// The per-channel subscription URL under a registration.
pub fn subscription_url(options: &PushConfiguration, uaid: &str, channel_id: &str) -> (r: Result<
    String,
    ErrorKind,
>)
    ensures
        r is Ok <==> options.http_protocol is Some && options.bridge_type is Some
            && options.application_id is Some,
        (match r {
            Ok(u) => u@ == options.http_protocol.unwrap()@ + "://"@ + options.server_host@ + "/v1/"@
                + options.bridge_type.unwrap()@ + "/"@ + options.application_id.unwrap()@
                + "/registration/"@ + uaid@ + "/subscription/"@ + channel_id@,
            Err(e) => e is CommunicationError,
        }),
{
    let mut url = registration_url(options, uaid)?;
    url.append("/subscription/");
    url.append(channel_id);
    proof {
        assert(url@ =~= options.http_protocol.unwrap()@ + "://"@ + options.server_host@ + "/v1/"@
            + options.bridge_type.unwrap()@ + "/"@ + options.application_id.unwrap()@
            + "/registration/"@ + uaid@ + "/subscription/"@ + channel_id@);
    }
    Ok(url)
}

/// A call that needs the server secret and a known uaid refuses to run
/// without them.
pub fn check_authorized(auth: &Option<String>, uaid: &Option<String>) -> (r: Result<(), ErrorKind>)
    ensures
        r is Ok <==> auth is Some && uaid is Some,
        (match r {
            Ok(_u) => true,
            Err(e) => e is CommunicationError,
        }),
{
    if auth.is_none() {
        return Err(ErrorKind::CommunicationError(String::from_str("Connection is unauthorized")));
    }
    if uaid.is_none() {
        return Err(ErrorKind::CommunicationError(String::from_str("No UAID set")));
    }
    Ok(())
}

/// Whether the server's channel list agrees with what the store holds: equal
/// lists, or an empty remote list when the store has none.
#[verifier::loop_isolation(false)]
pub fn channel_lists_match(remote: &Vec<String>, stored: Option<&Vec<String>>) -> (r: bool)
    ensures
        (match stored {
            Some(s) => r == (remote@.len() == s@.len() && (forall|i: int|
                0 <= i < remote@.len() ==> (#[trigger] remote@[i])@ == s@[i]@)),
            None => r == (remote@.len() == 0),
        }),
{
    match stored {
        Some(s) => {
            let n = remote.len();
            if s.len() != n {
                return false;
            }
            let mut i: usize = 0;
            while i < n
                invariant
                    i <= n,
                    n == remote@.len(),
                    n == s@.len(),
                    forall|t: int| 0 <= t < i ==> (#[trigger] remote@[t])@ == s@[t]@,
                decreases n - i,
            {
                if !crate::strutil::string_eq_str(&remote[i], s[i].as_str()) {
                    proof {
                        assert((remote@[i as int])@ != s@[i as int]@);
                    }
                    return false;
                }
                i = i + 1;
            }
            true
        },
        None => remote.len() == 0,
    }
}

/// Read a registration response: `uaid`, `channelID` and `endpoint` are
/// required, `secret` and `senderid` optional.
pub fn register_response_from_json(v: &JsonValue) -> (r: Result<RegisterResponse, ErrorKind>)
    ensures
        (match r {
            Ok(resp) => jget(v@, "uaid"@) == Some(JsonSpec::Str(resp.uaid@)) && jget(
                v@,
                "channelID"@,
            ) == Some(JsonSpec::Str(resp.channelID@)) && jget(v@, "endpoint"@) == Some(
                JsonSpec::Str(resp.endpoint@),
            ) && (match resp.secret {
                Some(s) => jget(v@, "secret"@) == Some(JsonSpec::Str(s@)),
                None => !(jget(v@, "secret"@) matches Some(JsonSpec::Str(_))),
            }) && (match resp.senderid {
                Some(s) => jget(v@, "senderid"@) == Some(JsonSpec::Str(s@)),
                None => !(jget(v@, "senderid"@) matches Some(JsonSpec::Str(_))),
            }),
            Err(e) => e is CommunicationError,
        }),
        (jget(v@, "uaid"@) matches Some(JsonSpec::Str(_)) && jget(v@, "channelID"@) matches Some(
            JsonSpec::Str(_),
        ) && jget(v@, "endpoint"@) matches Some(JsonSpec::Str(_))) ==> r is Ok,
{
    let uaid = match crate::wire::get_str_field(v, "uaid") {
        Some(t) => t.clone(),
        None => {
            return Err(bad_response_error());
        },
    };
    let channel_id = match crate::wire::get_str_field(v, "channelID") {
        Some(t) => t.clone(),
        None => {
            return Err(bad_response_error());
        },
    };
    let endpoint = match crate::wire::get_str_field(v, "endpoint") {
        Some(t) => t.clone(),
        None => {
            return Err(bad_response_error());
        },
    };
    let secret = match crate::wire::get_str_field(v, "secret") {
        Some(t) => Some(t.clone()),
        None => None,
    };
    let senderid = match crate::wire::get_str_field(v, "senderid") {
        Some(t) => Some(t.clone()),
        None => None,
    };
    Ok(RegisterResponse { uaid, channelID: channel_id, secret, endpoint, senderid })
}

/// The error for a response that misses a required field.
fn bad_response_error() -> (r: ErrorKind)
    ensures
        r is CommunicationError,
{
    ErrorKind::CommunicationError(String::from_str("Could not parse response"))
}

} // verus!
