//! The account session: the serializable state, the client it talks through,
//! and the persistence callback. Exclusive access is assumed: the embedder
//! serializes foreground calls and the background poll loop onto one owner,
//! and the persistence callback must not reenter any session operation.

use vstd::prelude::*;
use crate::config::Config;
use crate::errors::Error;
use crate::http_client::{DeviceResponse, FxAClient};
use crate::json::{jget, JsonSpec, JsonValue};
use crate::state_persistence::{state_from_json, state_to_json, StateV2};
use crate::strmap::StringMap;
use crate::commands::send_tab::SendTabPayload;

verus! {

/// A sink the account writes its serialized state to whenever the state
/// changed durably. Implementations must not call back into the account.
pub trait PersistCallback {
    fn call(&self, json: &str);
}

/// One signed-in account: its state, its transport, and where it persists.
pub struct FirefoxAccount<C: FxAClient, P: PersistCallback> {
    pub client: C,
    pub state: StateV2,
    pub persist_callback: Option<P>,
}

/// Something that happened to the account, for the embedding application.
#[derive(Debug)]
pub enum AccountEvent {
    /// A peer sent a tab: the resolved sender, if any, and the payload.
    TabReceived((Option<DeviceResponse>, SendTabPayload)),
}

/// A push message addressed to this account.
#[derive(Debug)]
pub enum PushPayload {
    /// The relay says commands are pending (wire tag
    /// `fxaccounts:command_received`).
    CommandReceived(CommandReceivedPushPayload),
}

/// The data of a command-received push message.
#[derive(Debug)]
pub struct CommandReceivedPushPayload {
    pub command: String,
    pub index: u64,
    pub sender: String,
    pub url: String,
}

/// Read a push message from its JSON document: an object tagged
/// `"command": "fxaccounts:command_received"` whose `data` carries the
/// message fields; anything else is an unknown command.
pub fn push_payload_from_json(v: &JsonValue) -> (r: Result<PushPayload, Error>)
    ensures
        (match r {
            Ok(p) => jget(v@, "command"@) == Some(
                JsonSpec::Str("fxaccounts:command_received"@),
            ) && (match p {
                PushPayload::CommandReceived(d) => (match jget(v@, "data"@) {
                    Some(data) => jget(data, "command"@) == Some(JsonSpec::Str(d.command@)) && jget(
                        data,
                        "index"@,
                    ) == Some(JsonSpec::UInt(d.index)) && jget(data, "sender"@) == Some(
                        JsonSpec::Str(d.sender@),
                    ) && jget(data, "url"@) == Some(JsonSpec::Str(d.url@)),
                    None => false,
                }),
            }),
            Err(e) => e is JsonError || e is UnknownCommand,
        }),
        (jget(v@, "command"@) == Some(JsonSpec::Str("fxaccounts:command_received"@)) && (match jget(
            v@,
            "data"@,
        ) {
            Some(data) => jget(data, "command"@) matches Some(JsonSpec::Str(_)) && jget(
                data,
                "index"@,
            ) matches Some(JsonSpec::UInt(_)) && jget(data, "sender"@) matches Some(
                JsonSpec::Str(_),
            ) && jget(data, "url"@) matches Some(JsonSpec::Str(_)),
            None => false,
        })) ==> r is Ok,
{
    let tag = match crate::wire::get_str_field(v, "command") {
        Some(t) => t,
        None => {
            return Err(Error::JsonError);
        },
    };
    if !crate::strutil::string_eq_str(tag, "fxaccounts:command_received") {
        return Err(Error::UnknownCommand(tag.clone()));
    }
    let data = match v.get("data") {
        Some(d) => d,
        None => {
            return Err(Error::JsonError);
        },
    };
    let command = match crate::wire::get_str_field(data, "command") {
        Some(t) => t.clone(),
        None => {
            return Err(Error::JsonError);
        },
    };
    let index = match crate::wire::get_u64_field(data, "index") {
        Some(n) => n,
        None => {
            return Err(Error::JsonError);
        },
    };
    let sender = match crate::wire::get_str_field(data, "sender") {
        Some(t) => t.clone(),
        None => {
            return Err(Error::JsonError);
        },
    };
    let url = match crate::wire::get_str_field(data, "url") {
        Some(t) => t.clone(),
        None => {
            return Err(Error::JsonError);
        },
    };
    Ok(PushPayload::CommandReceived(CommandReceivedPushPayload { command, index, sender, url }))
}

impl<C: FxAClient, P: PersistCallback> FirefoxAccount<C, P> {
    /// An account around existing state, talking through `client`.
    pub fn from_state(client: C, state: StateV2) -> (r: FirefoxAccount<C, P>)
        ensures
            r.state == state,
            r.persist_callback is None,
    {
        FirefoxAccount { client, state, persist_callback: None }
    }

    /// A fresh, unauthenticated account under `config`.
    pub fn with_config(client: C, config: Config) -> (r: FirefoxAccount<C, P>)
        ensures
            r.state.config == config,
            r.state.refresh_token is None,
            r.state.last_handled_command is None,
            r.state.scoped_keys@ == Map::<Seq<char>, crate::scoped_keys::ScopedKey>::empty(),
            r.state.commands_data@ == Map::<Seq<char>, String>::empty(),
            r.state.wf(),
            r.persist_callback is None,
    {
        Self::from_state(
            client,
            StateV2 {
                config,
                refresh_token: None,
                scoped_keys: StringMap::new(),
                last_handled_command: None,
                commands_data: StringMap::new(),
            },
        )
    }

    /// A fresh account from the three configuration parts.
    pub fn new(client: C, content_url: &str, client_id: &str, redirect_uri: &str) -> (r:
        FirefoxAccount<C, P>)
        ensures
            r.state.config.content_url@ == content_url@,
            r.state.config.client_id@ == client_id@,
            r.state.config.redirect_uri@ == redirect_uri@,
            r.state.refresh_token is None,
            r.state.last_handled_command is None,
            r.state.wf(),
            r.persist_callback is None,
    {
        let config = Config::new(content_url, client_id, redirect_uri);
        Self::with_config(client, config)
    }

    /// Replace the transport; for tests.
    pub fn set_client(&mut self, client: C)
        ensures
            final(self).state == old(self).state,
            final(self).persist_callback == old(self).persist_callback,
    {
        self.client = client;
    }

    /// An account restored from serialized state: exactly the canonical texts
    /// of well-formed states restore.
    pub fn from_json(client: C, data: &str) -> (r: Result<FirefoxAccount<C, P>, Error>)
        ensures
            (match r {
                Ok(a) => crate::json::sparse_doc(data@) == Some(
                    crate::state_persistence::state_json(a.state),
                ) && a.state.wf() && a.persist_callback is None,
                Err(e) => e is JsonError,
            }),
            forall|st: StateV2|
                (st.wf() && crate::json::sparse_doc(data@) == Some(
                    #[trigger] crate::state_persistence::state_json(st),
                )) ==> r is Ok,
    {
        let state = state_from_json(data)?;
        Ok(Self::from_state(client, state))
    }

    /// The canonical serialized form of the account's state.
    pub fn to_json(&self) -> (r: Result<String, Error>)
        ensures
            r is Ok,
            r.unwrap()@ == crate::json::jser(crate::state_persistence::state_json(self.state)),
    {
        state_to_json(&self.state)
    }

    /// The URL a newly connected device is sent to, with the success banner.
    pub fn get_connection_success_url(&self) -> (r: Result<String, Error>)
        ensures
            r is Ok <==> crate::config::url_with_path_and_query(
                self.state.config.content_url@,
                "connect_another_device"@,
                "showSuccessMessage"@,
                "true"@,
            ) is Some,
            r is Ok ==> r.unwrap()@ == crate::config::url_with_path_and_query(
                self.state.config.content_url@,
                "connect_another_device"@,
                "showSuccessMessage"@,
                "true"@,
            ).unwrap(),
    {
        self.state.config.content_url_path_with_query(
            "connect_another_device",
            "showSuccessMessage",
            "true",
        )
    }

    /// The token-server endpoint this account's sync storage lives under.
    pub fn get_token_server_endpoint_url(&self) -> (r: Result<String, Error>)
        ensures
            r is Ok <==> crate::config::url_with_path(
                self.state.config.content_url@,
                "token/1.0/sync/1.5"@,
            ) is Some,
            r is Ok ==> r.unwrap()@ == crate::config::url_with_path(
                self.state.config.content_url@,
                "token/1.0/sync/1.5"@,
            ).unwrap(),
    {
        self.state.config.token_server_endpoint_url()
    }

    /// React to a push message: any command-received message triggers a poll.
    pub fn handle_push_message(&mut self, payload: PushPayload) -> (r: Result<
        Vec<AccountEvent>,
        Error,
    >)
        requires
            old(self).state.wf(),
        ensures
            final(self).state.wf(),
            r is Err ==> final(self).state == old(self).state,
            old(self).state.refresh_token is None ==> (r matches Err(e) && e is NoRefreshToken),
            final(self).state.commands_data == old(self).state.commands_data,
            final(self).state.scoped_keys == old(self).state.scoped_keys,
            final(self).state.refresh_token == old(self).state.refresh_token,
            final(self).state.config == old(self).state.config,
            old(self).state.last_handled_command matches Some(m) ==> (final(self).state.last_handled_command matches Some(m2) && m2 >= m),
    {
        match payload {
            PushPayload::CommandReceived(_) => self.poll_remote_commands(),
        }
    }

    /// The refresh token, or the error of an unauthenticated session.
    pub(crate) fn get_refresh_token<'a>(&'a self) -> (r: Result<&'a String, Error>)
        ensures
            (match r {
                Ok(t) => self.state.refresh_token matches Some(rt) && rt.token == *t,
                Err(e) => self.state.refresh_token is None && e is NoRefreshToken,
            }),
    {
        match &self.state.refresh_token {
            Some(token_info) => Ok(&token_info.token),
            None => Err(Error::NoRefreshToken),
        }
    }

    /// Install the persistence callback.
    pub fn register_persist_callback(&mut self, persist_callback: P)
        ensures
            final(self).state == old(self).state,
            final(self).persist_callback == Some(persist_callback),
    {
        self.persist_callback = Some(persist_callback);
    }

    /// Remove the persistence callback.
    pub fn unregister_persist_callback(&mut self)
        ensures
            final(self).state == old(self).state,
            final(self).persist_callback is None,
    {
        self.persist_callback = None;
    }

    /// Hand the serialized state to the callback, if one is installed.
    pub(crate) fn maybe_call_persist_callback(&self) {
        match &self.persist_callback {
            Some(cb) => {
                match self.to_json() {
                    Ok(json) => cb.call(json.as_str()),
                    Err(_e) => {},
                }
            },
            None => {},
        }
    }
}

} // verus!
