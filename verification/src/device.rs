//! Device-directory operations and the command poller: fetch pending
//! commands past the high-water mark, resolve senders, dispatch each message,
//! then advance the mark and persist — at-least-once delivery with
//! crash-safe resumption.

use vstd::prelude::*;
use crate::account::{AccountEvent, FirefoxAccount, PersistCallback};
use crate::commands::send_tab;
use crate::commands::send_tab::{sendtab_open, tab_views, SendTabPayload};
use crate::errors::Error;
use crate::http_client::{
    CommandData, DeviceResponse, DeviceUpdateRequest, DeviceUpdateRequestBuilder, FxAClient,
    PushSubscription,
};
use crate::json::{jget, JsonSpec, JsonValue};
use crate::strmap::StringMap;

verus! {

broadcast use vstd::seq::group_seq_axioms, vstd::std_specs::vec::group_vec_axioms;

/// The index of the first device at or after `i` whose id is `id`.
pub open spec fn first_device_index(devices: Seq<DeviceResponse>, id: Seq<char>, i: int) -> Option<
    int,
>
    decreases devices.len() - i,
{
    if !(0 <= i < devices.len()) {
        None
    } else if devices[i].id@ == id {
        Some(i)
    } else {
        first_device_index(devices, id, i + 1)
    }
}

/// The sender-resolution rule: no sender id, or an id no device carries,
/// resolves to nothing — legitimately, not as an error; an id some device
/// carries resolves to a copy of the first such device.
pub open spec fn sender_matches(
    resolved: Option<DeviceResponse>,
    sender: Option<String>,
    devices: Seq<DeviceResponse>,
) -> bool {
    match sender {
        None => resolved is None,
        Some(id) => match first_device_index(devices, id@, 0) {
            None => resolved is None,
            Some(i) => resolved matches Some(d) && d.id@ == devices[i].id@ && d.display_name@
                == devices[i].display_name@ && d.device_type == devices[i].device_type
                && d.push_endpoint_expired == devices[i].push_endpoint_expired
                && d.available_commands@ == devices[i].available_commands@,
        },
    }
}

/// The cached entry a command dispatch reads, if any.
pub open spec fn cached_command_entry(state: crate::state_persistence::StateV2) -> Option<
    Seq<char>,
> {
    if state.commands_data@.contains_key(send_tab::COMMAND_NAME@) {
        Some(state.commands_data@[send_tab::COMMAND_NAME@]@)
    } else {
        None
    }
}

/// What dispatching one message yields: the resolved-sender index and the tab
/// views when the message is a well-formed command this device can decrypt,
/// nothing when it must be skipped.
pub open spec fn dispatch_outcome(
    entry: Option<Seq<char>>,
    msg: CommandData,
    devices: Seq<DeviceResponse>,
) -> Option<(Option<int>, Seq<(Seq<char>, Seq<char>)>)> {
    if msg.command@ != send_tab::COMMAND_NAME@ {
        None
    } else {
        match entry {
            None => None,
            Some(text) => if exists|t: (Seq<u8>, Seq<u8>, Seq<u8>)|
                crate::json::sparse_doc(text) == Some(
                    send_tab::keys_json_views(t.0, t.1, t.2),
                ) {
                let t = choose|t: (Seq<u8>, Seq<u8>, Seq<u8>)|
                    crate::json::sparse_doc(text) == Some(
                        send_tab::keys_json_views(t.0, t.1, t.2),
                    );
                match jget(msg.payload@, "encrypted"@) {
                    Some(JsonSpec::Str(enc)) => match sendtab_open(enc, t.1, t.0, t.2) {
                        Ok(tabs) => Some(
                            (
                                (match msg.sender {
                                    None => None,
                                    Some(id) => first_device_index(devices, id@, 0),
                                }),
                                tabs,
                            ),
                        ),
                        Err(_e) => None,
                    },
                    _ => None,
                }
            } else {
                None
            },
        }
    }
}

/// The message contents of a batch, in order.
pub open spec fn msg_datas(msgs: Seq<crate::http_client::PendingCommand>) -> Seq<CommandData> {
    Seq::new(msgs.len(), |i: int| msgs[i].data)
}

/// The outcomes of a batch, in message order, skips dropped.
pub open spec fn batch_outcomes(
    entry: Option<Seq<char>>,
    msgs: Seq<CommandData>,
    devices: Seq<DeviceResponse>,
) -> Seq<(Option<int>, Seq<(Seq<char>, Seq<char>)>)>
    decreases msgs.len(),
{
    if msgs.len() == 0 {
        Seq::empty()
    } else {
        match dispatch_outcome(entry, msgs[0], devices) {
            Some(o) => seq![o] + batch_outcomes(entry, msgs.drop_first(), devices),
            None => batch_outcomes(entry, msgs.drop_first(), devices),
        }
    }
}

/// Whether one emitted event carries exactly one outcome: the tabs, and the
/// resolved sender under the sender rule.
pub open spec fn event_matches_outcome(
    e: AccountEvent,
    o: (Option<int>, Seq<(Seq<char>, Seq<char>)>),
    devices: Seq<DeviceResponse>,
) -> bool {
    match e {
        AccountEvent::TabReceived((s, p)) => tab_views(p.entries@) == o.1 && (match o.0 {
            None => s is None,
            Some(i) => s matches Some(d) && 0 <= i < devices.len() && d.id@ == devices[i].id@
                && d.display_name@ == devices[i].display_name@ && d.device_type
                == devices[i].device_type && d.push_endpoint_expired
                == devices[i].push_endpoint_expired && d.available_commands@
                == devices[i].available_commands@,
        }),
    }
}

/// Events match outcomes pointwise.
pub open spec fn events_match_outcomes(
    events: Seq<AccountEvent>,
    outcomes: Seq<(Option<int>, Seq<(Seq<char>, Seq<char>)>)>,
    devices: Seq<DeviceResponse>,
) -> bool {
    events.len() == outcomes.len() && (forall|t: int|
        0 <= t < events.len() ==> event_matches_outcome(#[trigger] events[t], outcomes[t], devices))
}

proof fn lemma_batch_outcomes_snoc(
    entry: Option<Seq<char>>,
    msgs: Seq<CommandData>,
    m: CommandData,
    devices: Seq<DeviceResponse>,
)
    ensures
        batch_outcomes(entry, msgs.push(m), devices) == (match dispatch_outcome(
            entry,
            m,
            devices,
        ) {
            Some(o) => batch_outcomes(entry, msgs, devices).push(o),
            None => batch_outcomes(entry, msgs, devices),
        }),
    decreases msgs.len(),
{
    assert(msgs.push(m).len() == msgs.len() + 1);
    if msgs.len() == 0 {
        assert(msgs.push(m)[0] == m);
        assert(msgs.push(m).drop_first() =~= Seq::<CommandData>::empty());
        assert(msgs =~= Seq::<CommandData>::empty());
        assert(batch_outcomes(entry, msgs.push(m).drop_first(), devices) == batch_outcomes(
            entry,
            msgs,
            devices,
        ));
        assert(batch_outcomes(entry, msgs, devices) =~= Seq::<
            (Option<int>, Seq<(Seq<char>, Seq<char>)>),
        >::empty());
        match dispatch_outcome(entry, m, devices) {
            Some(o) => {
                assert(batch_outcomes(entry, msgs.push(m), devices) =~= batch_outcomes(
                    entry,
                    msgs,
                    devices,
                ).push(o));
            },
            None => {},
        }
    } else {
        assert(msgs.push(m)[0] == msgs[0]);
        assert(msgs.push(m).drop_first() =~= msgs.drop_first().push(m));
        assert(batch_outcomes(entry, msgs.push(m).drop_first(), devices) == batch_outcomes(
            entry,
            msgs.drop_first().push(m),
            devices,
        ));
        lemma_batch_outcomes_snoc(entry, msgs.drop_first(), m, devices);
        match (dispatch_outcome(entry, msgs[0], devices), dispatch_outcome(entry, m, devices)) {
            (Some(o0), Some(o)) => {
                assert(batch_outcomes(entry, msgs.push(m), devices) =~= batch_outcomes(
                    entry,
                    msgs,
                    devices,
                ).push(o));
            },
            (None, Some(o)) => {
                assert(batch_outcomes(entry, msgs.push(m), devices) =~= batch_outcomes(
                    entry,
                    msgs,
                    devices,
                ).push(o));
            },
            (_, None) => {
                assert(batch_outcomes(entry, msgs.push(m), devices) =~= batch_outcomes(
                    entry,
                    msgs,
                    devices,
                ));
            },
        }
    }
}

/// A found index is in range and names a device with the searched id.
pub proof fn lemma_first_device_index_bounds(devices: Seq<DeviceResponse>, id: Seq<char>, i: int)
    requires
        0 <= i,
    ensures
        (match first_device_index(devices, id, i) {
            Some(j) => i <= j < devices.len() && devices[j].id@ == id,
            None => true,
        }),
    decreases devices.len() - i,
{
    if 0 <= i < devices.len() && devices[i].id@ != id {
        lemma_first_device_index_bounds(devices, id, i + 1);
    }
}

/// From what the send-tab handler and the sender lookup guarantee, one
/// message's result is exactly its dispatch outcome.
#[verifier::rlimit(100)]
proof fn lemma_handle_gives_outcome(
    entry: Option<Seq<char>>,
    msg: CommandData,
    resolved: Option<DeviceResponse>,
    devices: Seq<DeviceResponse>,
    r: Result<(Option<DeviceResponse>, SendTabPayload), Error>,
)
    requires
        msg.command@ == send_tab::COMMAND_NAME@,
        (match msg.sender {
            None => resolved is None,
            Some(id) => (match first_device_index(devices, id@, 0) {
                None => resolved is None,
                Some(i) => resolved matches Some(d) && d.id@ == devices[i].id@ && d.display_name@
                    == devices[i].display_name@ && d.device_type == devices[i].device_type
                    && d.push_endpoint_expired == devices[i].push_endpoint_expired
                    && d.available_commands@ == devices[i].available_commands@,
            }),
        }),
        entry is None ==> (r matches Err(e) && e is IllegalState),
        entry matches Some(text) && (forall|pk: Seq<u8>, sk: Seq<u8>, au: Seq<u8>|
            crate::json::sparse_doc(text) != Some(
                #[trigger] send_tab::keys_json_views(pk, sk, au),
            )) ==> (r matches Err(e) && e is JsonError),
        forall|pk: Seq<u8>, sk: Seq<u8>, au: Seq<u8>|
            (entry matches Some(text) && crate::json::sparse_doc(text) == Some(
                #[trigger] send_tab::keys_json_views(pk, sk, au),
            )) ==> (match jget(msg.payload@, "encrypted"@) {
                Some(JsonSpec::Str(enc)) => (match sendtab_open(enc, sk, pk, au) {
                    Ok(tabs) => r matches Ok((s, p)) && s == resolved && tab_views(p.entries@)
                        == tabs,
                    Err(e) => r == Err::<(Option<DeviceResponse>, SendTabPayload), Error>(e),
                }),
                _ => r matches Err(e) && e is JsonError,
            }),
    ensures
        (match dispatch_outcome(entry, msg, devices) {
            Some(o) => r matches Ok((s, p)) && tab_views(p.entries@) == o.1 && (match o.0 {
                None => s is None,
                Some(i) => s matches Some(d) && 0 <= i < devices.len() && d.id@ == devices[i].id@
                    && d.display_name@ == devices[i].display_name@ && d.device_type
                    == devices[i].device_type && d.push_endpoint_expired
                    == devices[i].push_endpoint_expired && d.available_commands@
                    == devices[i].available_commands@,
            }),
            None => r is Err,
        }),
{
    match msg.sender {
        None => {},
        Some(id) => {
            lemma_first_device_index_bounds(devices, id@, 0);
        },
    }
    match entry {
        None => {},
        Some(text) => {
            if exists|t: (Seq<u8>, Seq<u8>, Seq<u8>)|
                crate::json::sparse_doc(text) == Some(send_tab::keys_json_views(t.0, t.1, t.2)) {
                let t = choose|t: (Seq<u8>, Seq<u8>, Seq<u8>)|
                    crate::json::sparse_doc(text) == Some(send_tab::keys_json_views(t.0, t.1, t.2));
                assert(crate::json::sparse_doc(text) == Some(
                    send_tab::keys_json_views(t.0, t.1, t.2),
                ));
                match jget(msg.payload@, "encrypted"@) {
                    Some(JsonSpec::Str(enc)) => {
                        match sendtab_open(enc, t.1, t.0, t.2) {
                            Ok(tabs) => {
                                assert(dispatch_outcome(entry, msg, devices) matches Some(o)
                                    && o.1 == tabs && o.0 == (match msg.sender {
                                    None => None::<int>,
                                    Some(id) => first_device_index(devices, id@, 0),
                                }));
                            },
                            Err(_e) => {
                                assert(dispatch_outcome(entry, msg, devices) is None);
                            },
                        }
                    },
                    _ => {
                        assert(dispatch_outcome(entry, msg, devices) is None);
                    },
                }
            } else {
                assert forall|pk: Seq<u8>, sk: Seq<u8>, au: Seq<u8>|
                    crate::json::sparse_doc(text) != Some(
                        send_tab::keys_json_views(pk, sk, au),
                    ) by {
                    if crate::json::sparse_doc(text) == Some(send_tab::keys_json_views(pk, sk, au)) {
                        let w = (pk, sk, au);
                        assert(crate::json::sparse_doc(text) == Some(
                            send_tab::keys_json_views(w.0, w.1, w.2),
                        ));
                    }
                }
            }
        },
    }
}

impl<C: FxAClient, P: PersistCallback> FirefoxAccount<C, P> {
    /// The account's current device list, from the directory.
    pub fn get_devices(&mut self) -> (r: Result<Vec<DeviceResponse>, Error>)
        ensures
            *final(self) == *old(self),
            old(self).state.refresh_token is None ==> (r matches Err(e) && e is NoRefreshToken),
    {
        let access_token = self.get_refresh_token()?;
        self.client.devices(&self.state.config, access_token.as_str())
    }

    /// Submit an invoke-command call for one target device.
    pub(crate) fn invoke_command(
        &mut self,
        command: &str,
        target: &DeviceResponse,
        payload: &JsonValue,
    ) -> (r: Result<(), Error>)
        ensures
            *final(self) == *old(self),
            old(self).state.refresh_token is None ==> (r matches Err(e) && e is NoRefreshToken),
    {
        let access_token = self.get_refresh_token()?;
        self.client.invoke_command(
            &self.state.config,
            access_token.as_str(),
            command,
            target.id.as_str(),
            payload,
        )
    }

    /// Fetch and handle the commands past the high-water mark. An empty batch
    /// (or the not-found answer a brand-new account with no command history
    /// gets) is a no-op that mutates nothing; a device-directory failure
    /// mid-poll aborts the whole poll without advancing the mark, so the
    /// batch is retried on the next cycle; otherwise `apply_batch` dispatches
    /// the messages and advances the mark. The mark is monotonic
    /// non-decreasing across every outcome.
    pub fn poll_remote_commands(&mut self) -> (r: Result<Vec<AccountEvent>, Error>)
        requires
            old(self).state.wf(),
        ensures
            final(self).state.wf(),
            r is Err ==> final(self).state == old(self).state,
            old(self).state.refresh_token is None ==> (r matches Err(e) && e is NoRefreshToken),
            old(self).state.refresh_token is Some && old(self).state.last_handled_command == Some(
                u64::MAX,
            ) ==> (r matches Err(e) && e is IllegalState),
            final(self).state.commands_data == old(self).state.commands_data,
            final(self).state.scoped_keys == old(self).state.scoped_keys,
            final(self).state.refresh_token == old(self).state.refresh_token,
            final(self).state.config == old(self).state.config,
            old(self).state.last_handled_command matches Some(m) ==> (final(self).state.last_handled_command matches Some(m2) && m2 >= m),
            final(self).state.last_handled_command == old(self).state.last_handled_command || (
            exists|i: u64| final(self).state.last_handled_command == Some(i)),
    {
        let refresh_token = self.get_refresh_token()?.clone();
        let last_command_index = match &self.state.last_handled_command {
            Some(i) => *i,
            None => 0,
        };
        if last_command_index == u64::MAX {
            return Err(Error::IllegalState(String::from_str("command index exhausted")));
        }
        // The server's filter is inclusive, so ask from the next index on.
        let pending_commands = match self.client.pending_commands(
            &self.state.config,
            refresh_token.as_str(),
            last_command_index + 1,
            None,
        ) {
            Ok(p) => p,
            Err(e) => {
                if is_not_found(&e) {
                    // A brand-new account has no command history yet; the
                    // relay answers not-found, which means an empty batch,
                    // not a failure.
                    return Ok(Vec::new());
                }
                return Err(e);
            },
        };
        if pending_commands.messages.len() == 0 {
            return Ok(Vec::new());
        }
        let devices = self.get_devices()?;
        let account_events = self.apply_batch(pending_commands, &devices);
        Ok(account_events)
    }

    /// Apply one fetched batch against a resolved device list: dispatch every
    /// message in order into exactly the decodable messages' events, advance
    /// the high-water mark to the server-reported batch index (never
    /// backwards) and hand the new state to the persistence callback before
    /// returning.
    pub fn apply_batch(
        &mut self,
        batch: crate::http_client::PendingCommandsResponse,
        devices: &Vec<DeviceResponse>,
    ) -> (r: Vec<AccountEvent>)
        requires
            old(self).state.wf(),
        ensures
            final(self).state.wf(),
            final(self).state.commands_data == old(self).state.commands_data,
            final(self).state.scoped_keys == old(self).state.scoped_keys,
            final(self).state.refresh_token == old(self).state.refresh_token,
            final(self).state.config == old(self).state.config,
            final(self).state.last_handled_command == Some(
                (match old(self).state.last_handled_command {
                    Some(m) => if m > batch.index {
                        m
                    } else {
                        batch.index
                    },
                    None => batch.index,
                }),
            ),
            events_match_outcomes(
                r@,
                batch_outcomes(
                    cached_command_entry(old(self).state),
                    msg_datas(batch.messages@),
                    devices@,
                ),
                devices@,
            ),
    {
        let ghost orig = batch.messages@;
        let mut messages = batch.messages;
        let n = messages.len();
        let mut commands: Vec<CommandData> = Vec::new();
        let mut k: usize = 0;
        proof {
            assert(msg_datas(orig).subrange(0, 0) =~= Seq::<CommandData>::empty());
        }
        while k < n
            invariant
                k <= n,
                n == orig.len(),
                messages@ =~= orig.subrange(k as int, n as int),
                commands@ =~= msg_datas(orig).subrange(0, k as int),
            decreases n - k,
        {
            proof {
                assert(messages@[0] == orig[k as int]);
                assert(msg_datas(orig)[k as int] == orig[k as int].data);
            }
            let m = messages.remove(0);
            commands.push(m.data);
            proof {
                assert(messages@ =~= orig.subrange(k + 1 as int, n as int));
                assert(commands@ =~= msg_datas(orig).subrange(0, k + 1 as int));
            }
            k = k + 1;
        }
        proof {
            assert(msg_datas(orig).subrange(0, n as int) =~= msg_datas(orig));
        }
        let account_events = self.dispatch_batch(commands, devices);
        let new_index: u64 = match &self.state.last_handled_command {
            Some(m) => if *m > batch.index {
                *m
            } else {
                batch.index
            },
            None => batch.index,
        };
        self.state.last_handled_command = Some(new_index);
        self.maybe_call_persist_callback();
        account_events
    }

    /// Dispatch each message of a batch in order: the result carries exactly,
    /// in message order, the outcomes of the messages that decode; the ones
    /// that fail are skipped without aborting the rest (partial-failure
    /// isolation).
    #[verifier::loop_isolation(false)]
    pub fn dispatch_batch(&self, commands: Vec<CommandData>, devices: &Vec<DeviceResponse>) -> (r:
        Vec<AccountEvent>)
        requires
            self.state.wf(),
        ensures
            events_match_outcomes(
                r@,
                batch_outcomes(cached_command_entry(self.state), commands@, devices@),
                devices@,
            ),
            r@.len() <= commands@.len(),
            forall|t: int| 0 <= t < r@.len() ==> r@[t] is TabReceived,
    {
        let ghost entry = cached_command_entry(self.state);
        let ghost full = commands@;
        let n = commands.len();
        let mut commands = commands;
        let mut events: Vec<AccountEvent> = Vec::new();
        let mut k: usize = 0;
        proof {
            assert(full.subrange(0, 0) =~= Seq::<CommandData>::empty());
            assert(full.subrange(0, n as int) =~= full);
        }
        while k < n
            invariant
                k <= n,
                commands@ =~= full.subrange(k as int, n as int),
                events@.len() <= k,
                events_match_outcomes(
                    events@,
                    batch_outcomes(entry, full.subrange(0, k as int), devices@),
                    devices@,
                ),
                forall|t: int| 0 <= t < events@.len() ==> events@[t] is TabReceived,
            decreases n - k,
        {
            let ghost before = full.subrange(0, k as int);
            proof {
                assert(commands@[0] == full[k as int]);
                lemma_batch_outcomes_snoc(entry, before, full[k as int], devices@);
                assert(before.push(full[k as int]) =~= full.subrange(0, k + 1 as int));
            }
            let data = commands.remove(0);
            proof {
                assert(commands@ =~= full.subrange(k + 1 as int, n as int));
            }
            match self.handle_command(data, devices) {
                Ok((sender, tab)) => {
                    events.push(AccountEvent::TabReceived((sender, tab)));
                },
                Err(_e) => {
                    // A message that cannot be decoded is skipped; the rest of
                    // the batch still goes through.
                },
            }
            k = k + 1;
        }
        events
    }

    /// Dispatch one message: resolve the sender by id (a missing sender is
    /// legitimate, not an error), then route by command name. The result is
    /// exactly the message's dispatch outcome: an unknown name, missing local
    /// key material, a malformed payload or a failed decryption is an error,
    /// and a decodable message yields its tabs with the resolved sender.
    #[verifier::rlimit(100)]
    pub fn handle_command(&self, command_data: CommandData, devices: &Vec<DeviceResponse>) -> (r:
        Result<(Option<DeviceResponse>, SendTabPayload), Error>)
        requires
            self.state.wf(),
        ensures
            command_data.command@ != send_tab::COMMAND_NAME@ ==> (r matches Err(e) && (e matches Error::UnknownCommand(n) && n@ == command_data.command@)),
            command_data.command@ == send_tab::COMMAND_NAME@ && !self.state.commands_data@.contains_key(send_tab::COMMAND_NAME@)
                ==> (r matches Err(e) && e is IllegalState),
            (match dispatch_outcome(cached_command_entry(self.state), command_data, devices@) {
                Some(o) => r matches Ok((s, p)) && tab_views(p.entries@) == o.1 && (match o.0 {
                    None => s is None,
                    Some(i) => s matches Some(d) && 0 <= i < devices@.len() && d.id@
                        == devices@[i].id@ && d.display_name@ == devices@[i].display_name@
                        && d.device_type == devices@[i].device_type && d.push_endpoint_expired
                        == devices@[i].push_endpoint_expired && d.available_commands@
                        == devices@[i].available_commands@,
                }),
                None => r is Err,
            }),
            (match r {
                Ok((s, _p)) => sender_matches(s, command_data.sender, devices@),
                Err(_e) => true,
            }),
    {
        let sender: Option<DeviceResponse> = match &command_data.sender {
            Some(s) => self.find_device_by_id(devices, s.as_str()),
            None => None,
        };
        let ghost resolved = sender;
        let ghost entry = cached_command_entry(self.state);
        if crate::strutil::string_eq_str(&command_data.command, send_tab::COMMAND_NAME) {
            let ghost msg = command_data;
            let r = self.handle_send_tab_command(sender, command_data.payload);
            proof {
                lemma_handle_gives_outcome(entry, msg, resolved, devices@, r);
            }
            r
        } else {
            Err(Error::UnknownCommand(command_data.command))
        }
    }

    /// The first device with this id, cloned, if the list holds one.
    #[verifier::loop_isolation(false)]
    fn find_device_by_id(&self, devices: &Vec<DeviceResponse>, id: &str) -> (r: Option<
        DeviceResponse,
    >)
        ensures
            (match first_device_index(devices@, id@, 0) {
                None => r is None,
                Some(i) => r matches Some(d) && d.id@ == devices@[i].id@ && d.display_name@
                    == devices@[i].display_name@ && d.device_type == devices@[i].device_type
                    && d.push_endpoint_expired == devices@[i].push_endpoint_expired
                    && d.available_commands@ == devices@[i].available_commands@,
            }),
    {
        let n = devices.len();
        let mut k: usize = 0;
        while k < n
            invariant
                k <= n,
                n == devices@.len(),
                first_device_index(devices@, id@, 0) == first_device_index(devices@, id@, k as int),
            decreases n - k,
        {
            if crate::strutil::string_eq_str(&devices[k].id, id) {
                return Some(clone_device(&devices[k]));
            }
            k = k + 1;
        }
        None
    }

    /// Change this device's display name.
    pub fn set_display_name(&mut self, name: &str) -> (r: Result<(), Error>)
        ensures
            *final(self) == *old(self),
            old(self).state.refresh_token is None ==> (r matches Err(e) && e is NoRefreshToken),
    {
        let update = DeviceUpdateRequestBuilder::new().display_name(name).build();
        self.update_device(update)
    }

    /// Clear this device's display name.
    pub fn clear_display_name(&mut self) -> (r: Result<(), Error>)
        ensures
            *final(self) == *old(self),
            old(self).state.refresh_token is None ==> (r matches Err(e) && e is NoRefreshToken),
    {
        let update = DeviceUpdateRequestBuilder::new().clear_display_name().build();
        self.update_device(update)
    }

    /// Change this device's push subscription.
    pub fn set_push_subscription(&mut self, push_subscription: PushSubscription) -> (r: Result<
        (),
        Error,
    >)
        ensures
            *final(self) == *old(self),
            old(self).state.refresh_token is None ==> (r matches Err(e) && e is NoRefreshToken),
    {
        let update = DeviceUpdateRequestBuilder::new().push_subscription(push_subscription).build();
        self.update_device(update)
    }

    /// Publish one command's wrapped registration data. The update overwrites
    /// the whole advertised command set with this single entry, which is the
    /// server API's current overwrite semantics for this field.
    pub(crate) fn register_command(&mut self, command: &str, value: &str) -> (r: Result<(), Error>)
        ensures
            *final(self) == *old(self),
            old(self).state.refresh_token is None ==> (r matches Err(e) && e is NoRefreshToken),
    {
        let mut commands: StringMap<String> = StringMap::new();
        commands.insert(String::from_str(command), String::from_str(value));
        let update = DeviceUpdateRequestBuilder::new().available_commands(commands).build();
        self.update_device(update)
    }

    /// Withdraw every advertised command (the server API's current overwrite
    /// semantics clear the whole set).
    pub(crate) fn unregister_command(&mut self, _command: &str) -> (r: Result<(), Error>)
        ensures
            *final(self) == *old(self),
            old(self).state.refresh_token is None ==> (r matches Err(e) && e is NoRefreshToken),
    {
        let commands: StringMap<String> = StringMap::new();
        let update = DeviceUpdateRequestBuilder::new().available_commands(commands).build();
        self.update_device(update)
    }

    /// Clear the advertised command set outright.
    pub(crate) fn clear_commands(&mut self) -> (r: Result<(), Error>)
        ensures
            *final(self) == *old(self),
            old(self).state.refresh_token is None ==> (r matches Err(e) && e is NoRefreshToken),
    {
        let update = DeviceUpdateRequestBuilder::new().clear_available_commands().build();
        self.update_device(update)
    }

    /// Send one device update.
    fn update_device(&mut self, update: DeviceUpdateRequest) -> (r: Result<(), Error>)
        ensures
            *final(self) == *old(self),
            old(self).state.refresh_token is None ==> (r matches Err(e) && e is NoRefreshToken),
    {
        let refresh_token = self.get_refresh_token()?;
        self.client.update_device(&self.state.config, refresh_token.as_str(), update)
    }
}

/// Whether a relay error is the not-found answer (a 404: no command history
/// exists yet).
fn is_not_found(e: &Error) -> (r: bool)
    ensures
        r == (e matches Error::RemoteError { code, .. } && code == 404),
{
    match e {
        Error::RemoteError { code, .. } => *code == 404,
        _ => false,
    }
}

/// A structural copy of one device record.
fn clone_device(d: &DeviceResponse) -> (r: DeviceResponse)
    ensures
        r.id@ == d.id@,
        r.display_name@ == d.display_name@,
        r.device_type == d.device_type,
        r.push_endpoint_expired == d.push_endpoint_expired,
        r.available_commands@ == d.available_commands@,
{
    DeviceResponse {
        id: d.id.clone(),
        display_name: d.display_name.clone(),
        device_type: d.device_type,
        push_subscription: (match &d.push_subscription {
            Some(p) => Some(
                PushSubscription {
                    endpoint: p.endpoint.clone(),
                    public_key: p.public_key.clone(),
                    auth_key: p.auth_key.clone(),
                },
            ),
            None => None,
        }),
        available_commands: d.available_commands.duplicate(),
        push_endpoint_expired: d.push_endpoint_expired,
    }
}

} // verus!
