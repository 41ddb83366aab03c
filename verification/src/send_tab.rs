//! The account-level Send Tab operations: registering this device's
//! capability, sending a tab to a peer, and handling a received tab.

use vstd::prelude::*;
use crate::account::{FirefoxAccount, PersistCallback};
use crate::commands::send_tab::{
    self, sendtab_open, tab_views, EncryptedSendTabPayload, KeyEncryptingKey, PrivateSendTabKeys,
    PublicSendTabKeys, SendTabPayload,
};
use crate::encoding::b64_decode_of;
use crate::errors::Error;
use crate::http_client::{DeviceResponse, FxAClient};
use crate::json::{jget, sparse_doc, JsonSpec, JsonValue};
use crate::scoped_keys::ScopedKey;
use crate::webpush::{ec_importable, keypair_matches};

verus! {

/// The first index of `c` in `s`, or the length when `c` does not occur.
pub open spec fn char_index(s: Seq<char>, c: char, i: int) -> int
    decreases s.len() - i,
{
    if !(0 <= i < s.len()) {
        i
    } else if s[i] == c {
        i
    } else {
        char_index(s, c, i + 1)
    }
}

/// What deriving the key-encrypting key from the oldsync scoped key yields:
/// `ksync` is the base64url-decoded key, `kxcs` the base64url-decoded text
/// after the first dash of the key id.
pub open spec fn kek_of_scoped_key(kid: Seq<char>, k: Seq<char>) -> Result<
    (Seq<u8>, Seq<u8>),
    Error,
> {
    match b64_decode_of(true, k) {
        None => Err(Error::Base64DecodeError),
        Some(ksync) => {
            let d = char_index(kid, '-', 0);
            if d >= kid.len() {
                Err(Error::IllegalState(arbitrary()))
            } else {
                match b64_decode_of(true, kid.subrange(d + 1, kid.len() as int)) {
                    None => Err(Error::Base64DecodeError),
                    Some(kxcs) => Ok((ksync, kxcs)),
                }
            }
        },
    }
}

impl<C: FxAClient, P: PersistCallback> FirefoxAccount<C, P> {
    /// Make sure this device's Send Tab capability is registered: create and
    /// cache key material if none is cached yet (persisting the new state),
    /// then publish the wrapped public half through a device update.
    ///
    /// Re-entering with cached key material never regenerates it — the cached
    /// bytes stay identical, since changing keys would invalidate every
    /// peer's already-fetched public key for this device.
    pub fn ensure_send_tab_registered(&mut self) -> (r: Result<(), Error>)
        requires
            old(self).state.wf(),
        ensures
            final(self).state.wf(),
            old(self).state.commands_data@.contains_key(send_tab::COMMAND_NAME@) ==> final(self).state.commands_data == old(self).state.commands_data,
            final(self).state.config == old(self).state.config,
            final(self).state.refresh_token == old(self).state.refresh_token,
            final(self).state.scoped_keys == old(self).state.scoped_keys,
            final(self).state.last_handled_command == old(self).state.last_handled_command,
            r is Ok ==> final(self).state.commands_data@.contains_key(send_tab::COMMAND_NAME@),
            !old(self).state.commands_data@.contains_key(send_tab::COMMAND_NAME@) && r is Ok
                ==> (exists|pk: Seq<u8>, sk: Seq<u8>, au: Seq<u8>|
                keypair_matches(sk, pk) && ec_importable(sk, pk) && pk.len() == 65 && au.len()
                    == 16 && sparse_doc(
                    final(self).state.commands_data@[send_tab::COMMAND_NAME@]@,
                ) == Some(#[trigger] send_tab::keys_json_views(pk, sk, au))),
    {
        let own_keys: PrivateSendTabKeys = match self.state.commands_data.get(
            send_tab::COMMAND_NAME,
        ) {
            Some(s) => PrivateSendTabKeys::from_json_string(s.as_str())?,
            None => {
                let keys = PrivateSendTabKeys::from_random()?;
                let cached = keys.to_json_string();
                proof {
                    crate::json::lemma_json_round_trip(send_tab::private_keys_json(keys));
                }
                self.state.commands_data.insert(String::from_str(send_tab::COMMAND_NAME), cached);
                proof {
                    assert(sparse_doc(self.state.commands_data@[send_tab::COMMAND_NAME@]@) == Some(
                        send_tab::keys_json_views(
                            keys.public_key@,
                            keys.private_key@,
                            keys.auth_secret@,
                        ),
                    ));
                }
                self.maybe_call_persist_callback();
                keys
            },
        };
        let ghost gk = own_keys;
        let public_keys: PublicSendTabKeys = PublicSendTabKeys::from(own_keys);
        let kek = self.sync_keys_as_send_tab_kek()?;
        let command_data: String = public_keys.as_command_data(&kek)?;
        self.register_command(send_tab::COMMAND_NAME, command_data.as_str())?;
        proof {
            if !old(self).state.commands_data@.contains_key(send_tab::COMMAND_NAME@) {
                assert(keypair_matches(gk.private_key@, gk.public_key@));
                assert(ec_importable(gk.private_key@, gk.public_key@));
                assert(gk.public_key@.len() == 65);
                assert(gk.auth_secret@.len() == 16);
                assert(sparse_doc(self.state.commands_data@[send_tab::COMMAND_NAME@]@) == Some(
                    send_tab::keys_json_views(gk.public_key@, gk.private_key@, gk.auth_secret@),
                ));
            }
        }
        Ok(())
    }

    /// Send one tab to the device with this id: find it in the directory,
    /// build the encrypted command against its advertised Send Tab keys, and
    /// invoke the command on it.
    pub fn send_tab(&mut self, target_device_id: &str, title: &str, url: &str) -> (r: Result<
        (),
        Error,
    >)
        requires
            old(self).state.wf(),
        ensures
            *final(self) == *old(self),
            old(self).state.refresh_token is None ==> (r matches Err(e) && e is NoRefreshToken),
    {
        let devices = self.get_devices()?;
        let target = match self.find_target(&devices, target_device_id) {
            Some(t) => t,
            None => {
                return Err(Error::UnknownTargetDevice(String::from_str(target_device_id)));
            },
        };
        let payload = SendTabPayload::single_tab(title, url);
        let kek = self.sync_keys_as_send_tab_kek()?;
        if !target.available_commands.wf_exec() {
            return Err(Error::IllegalState(String::from_str("malformed device record")));
        }
        let command_payload = send_tab::build_send_command(&kek, target, &payload)?;
        self.invoke_command(send_tab::COMMAND_NAME, target, &command_payload)
    }

    /// The decision of which fetched device a send goes to: the first device
    /// of the list with this id, or nothing — which `send_tab` reports as an
    /// unknown target device.
    pub fn find_target<'a>(&self, devices: &'a Vec<DeviceResponse>, id: &str) -> (r: Option<
        &'a DeviceResponse,
    >)
        ensures
            (match r {
                Some(d) => d.id@ == id@,
                None => forall|i: int| 0 <= i < devices@.len() ==> devices@[i].id@ != id@,
            }),
    {
        let n = devices.len();
        let mut k: usize = 0;
        while k < n
            invariant
                k <= n,
                n == devices@.len(),
                forall|i: int| 0 <= i < k ==> devices@[i].id@ != id@,
            decreases n - k,
        {
            if crate::strutil::string_eq_str(&devices[k].id, id) {
                return Some(&devices[k]);
            }
            k = k + 1;
        }
        None
    }

    /// Decrypt one received Send Tab message with this device's cached key
    /// material. Without cached material the account has never registered the
    /// capability, and decoding is an illegal-state error.
    pub fn handle_send_tab_command(
        &self,
        sender: Option<DeviceResponse>,
        payload: JsonValue,
    ) -> (r: Result<(Option<DeviceResponse>, SendTabPayload), Error>)
        requires
            self.state.wf(),
        ensures
            !self.state.commands_data@.contains_key(send_tab::COMMAND_NAME@) ==> (r matches Err(e)
                && e is IllegalState),
            (match r {
                Ok((s, p)) => s == sender && self.state.commands_data@.contains_key(
                    send_tab::COMMAND_NAME@,
                ) && (exists|k: PrivateSendTabKeys, enc: Seq<char>|
                    sparse_doc(self.state.commands_data@[send_tab::COMMAND_NAME@]@) == Some(
                        send_tab::private_keys_json(k),
                    ) && jget(payload@, "encrypted"@) == Some(JsonSpec::Str(enc)) && sendtab_open(
                        enc,
                        k.private_key@,
                        k.public_key@,
                        k.auth_secret@,
                    ) == Ok::<Seq<(Seq<char>, Seq<char>)>, Error>(tab_views(p.entries@))),
                Err(_e) => true,
            }),
            self.state.commands_data@.contains_key(send_tab::COMMAND_NAME@) && (forall|
                pk: Seq<u8>,
                sk: Seq<u8>,
                au: Seq<u8>,
            |
                sparse_doc(self.state.commands_data@[send_tab::COMMAND_NAME@]@) != Some(
                    send_tab::keys_json_views(pk, sk, au),
                )) ==> (r matches Err(e) && e is JsonError),
            forall|pk: Seq<u8>, sk: Seq<u8>, au: Seq<u8>|
                (self.state.commands_data@.contains_key(send_tab::COMMAND_NAME@) && sparse_doc(
                    self.state.commands_data@[send_tab::COMMAND_NAME@]@,
                ) == Some(send_tab::keys_json_views(pk, sk, au))) ==> (match jget(
                payload@,
                "encrypted"@,
            ) {
                Some(JsonSpec::Str(enc)) => (match sendtab_open(enc, sk, pk, au) {
                    Ok(tabs) => r matches Ok((s, p)) && s == sender && tab_views(p.entries@)
                        == tabs,
                    Err(e) => r == Err::<(Option<DeviceResponse>, SendTabPayload), Error>(e),
                }),
                _ => r matches Err(e) && e is JsonError,
            }),
    {
        let send_tab_key: PrivateSendTabKeys = match self.state.commands_data.get(
            send_tab::COMMAND_NAME,
        ) {
            Some(s) => {
                match PrivateSendTabKeys::from_json_string(s.as_str()) {
                    Ok(k) => {
                        proof {
                            assert forall|pk: Seq<u8>, sk: Seq<u8>, au: Seq<u8>|
                                sparse_doc(s@) == Some(send_tab::keys_json_views(pk, sk, au))
                                    implies k.public_key@ == pk && k.private_key@ == sk
                                && k.auth_secret@ == au by {
                                send_tab::lemma_keys_json_views_injective(
                                    k.public_key@,
                                    k.private_key@,
                                    k.auth_secret@,
                                    pk,
                                    sk,
                                    au,
                                );
                            }
                        }
                        k
                    },
                    Err(e) => {
                        return Err(e);
                    },
                }
            },
            None => {
                return Err(
                    Error::IllegalState(
                        String::from_str(
                            "cannot decode a command before the capability was ever registered",
                        ),
                    ),
                );
            },
        };
        let encrypted_payload = EncryptedSendTabPayload::from_json_value(&payload)?;
        let tab = encrypted_payload.decrypt(&send_tab_key)?;
        Ok((sender, tab))
    }

    /// Derive the key-encrypting key from the account's oldsync scoped key:
    /// `ksync` from the key text, `kxcs` from the part of the key id after
    /// its first dash.
    pub(crate) fn sync_keys_as_send_tab_kek(&self) -> (r: Result<KeyEncryptingKey, Error>)
        requires
            self.state.wf(),
        ensures
            !self.state.scoped_keys@.contains_key(crate::scopes::OLD_SYNC@) ==> (r matches Err(e)
                && e is NoScopedKey),
            (match r {
                Ok(kek) => self.state.scoped_keys@.contains_key(crate::scopes::OLD_SYNC@) && (
                match kek {
                    KeyEncryptingKey::SyncKeys(ksync, kxcs) => {
                        let key = self.state.scoped_keys@[crate::scopes::OLD_SYNC@];
                        kek_of_scoped_key(key.kid@, key.k@) matches Ok(p) && p.0 == ksync@ && p.1
                            == kxcs@
                    },
                }),
                Err(_e) => true,
            }),
            self.state.scoped_keys@.contains_key(crate::scopes::OLD_SYNC@) ==> ({
                let key = self.state.scoped_keys@[crate::scopes::OLD_SYNC@];
                &&& (crate::encoding::b64_decode_of(true, key.k@) is None ==> (r matches Err(e)
                    && e is Base64DecodeError))
                &&& (crate::encoding::b64_decode_of(true, key.k@) is Some && char_index(
                    key.kid@,
                    '-',
                    0,
                ) >= key.kid@.len() ==> (r matches Err(e) && e is IllegalState))
                &&& (crate::encoding::b64_decode_of(true, key.k@) is Some && char_index(
                    key.kid@,
                    '-',
                    0,
                ) < key.kid@.len() && crate::encoding::b64_decode_of(
                    true,
                    key.kid@.subrange(char_index(key.kid@, '-', 0) + 1, key.kid@.len() as int),
                ) is None ==> (r matches Err(e) && e is Base64DecodeError))
                &&& (kek_of_scoped_key(key.kid@, key.k@) matches Ok(p) ==> (r matches Ok(kek)
                    && (kek matches KeyEncryptingKey::SyncKeys(ksync, kxcs) && ksync@ == p.0
                    && kxcs@ == p.1)))
            }),
    {
        let oldsync_key: &ScopedKey = match self.state.scoped_keys.get(crate::scopes::OLD_SYNC) {
            Some(k) => k,
            None => {
                return Err(Error::NoScopedKey(String::from_str(crate::scopes::OLD_SYNC)));
            },
        };
        let ksync = crate::encoding::b64url_decode_nopad(oldsync_key.k.as_str())?;
        let kid_chars = crate::strutil::str_to_chars(oldsync_key.kid.as_str());
        let n = kid_chars.len();
        let mut d: usize = 0;
        while d < n && kid_chars[d] != '-'
            invariant
                n == kid_chars@.len(),
                d <= n,
                char_index(kid_chars@, '-', 0) == char_index(kid_chars@, '-', d as int),
            decreases n - d,
        {
            d = d + 1;
        }
        if d >= n {
            return Err(Error::IllegalState(String::from_str("scoped key id has no key-check part")));
        }
        let mut kxcs_chars: Vec<char> = Vec::new();
        let mut t: usize = d + 1;
        while t < n
            invariant
                d + 1 <= t <= n,
                n == kid_chars@.len(),
                kxcs_chars@ == kid_chars@.subrange(d + 1, t as int),
            decreases n - t,
        {
            kxcs_chars.push(kid_chars[t]);
            proof {
                assert(kxcs_chars@ =~= kid_chars@.subrange(d + 1, t + 1 as int));
            }
            t = t + 1;
        }
        let kxcs_text = crate::strutil::chars_to_string(&kxcs_chars);
        let kxcs = crate::encoding::b64url_decode_nopad(kxcs_text.as_str())?;
        Ok(KeyEncryptingKey::SyncKeys(ksync, kxcs))
    }
}

} // verus!
