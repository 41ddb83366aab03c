//! The Send Tab command: its payload, its per-device key material, and the
//! two encryption layers around them.
//!
//! The key-wrap layer protects a device's published public keys against the
//! untrusted relay with the account's shared sync key; the WebPush layer
//! protects the tab payload end-to-end between exactly two devices. They are
//! distinct trust boundaries: the first decides who may read the public key,
//! the second protects the payload itself.

use vstd::prelude::*;
use crate::encoding::{b64_decode_of, b64_of, hex_decode_spec, hex_of};
use crate::errors::Error;
use crate::http_client::{push_member, DeviceResponse};
use crate::json::{jget, jser, jv_member_views, jv_views, sparse_doc, JsonSpec, JsonValue};
use crate::keys::{aes256cbc_open_of, hmac_sha256_of, KeyBundle};
use crate::webpush::{ec_importable, keypair_matches, webpush_open_of};
use crate::wire::bytes_jsons;

verus! {

broadcast use vstd::seq::group_seq_axioms, vstd::std_specs::vec::group_vec_axioms;

/// The identifier under which the Send Tab capability is advertised.
pub const COMMAND_NAME: &'static str = "https://identity.mozilla.com/cmd/open-uri";

/// One shared tab: a title and a URL.
#[derive(Debug)]
pub struct TabData {
    pub title: String,
    pub url: String,
}

/// The members of one tab's JSON object.
pub open spec fn tab_members(t: TabData) -> Seq<(Seq<char>, JsonSpec)> {
    seq![("title"@, JsonSpec::Str(t.title@)), ("url"@, JsonSpec::Str(t.url@))]
}

/// The (title, url) views of a tab sequence.
pub open spec fn tab_views(ts: Seq<TabData>) -> Seq<(Seq<char>, Seq<char>)> {
    Seq::new(ts.len(), |i: int| (ts[i].title@, ts[i].url@))
}

/// The plaintext a Send Tab command carries: tabs in order.
#[derive(Debug)]
pub struct SendTabPayload {
    pub entries: Vec<TabData>,
}

/// The JSON document of a payload: `{"entries":[{"title":..,"url":..},..]}`.
pub open spec fn payload_json(entries: Seq<TabData>) -> JsonSpec {
    JsonSpec::Obj(
        seq![
            (
                "entries"@,
                JsonSpec::Arr(Seq::new(entries.len(), |i: int| JsonSpec::Obj(tab_members(entries[i])))),
            ),
        ],
    )
}

impl SendTabPayload {
    /// A payload holding one tab.
    pub fn single_tab(title: &str, url: &str) -> (r: SendTabPayload)
        ensures
            tab_views(r.entries@) == seq![(title@, url@)],
    {
        let mut entries: Vec<TabData> = Vec::new();
        entries.push(
            TabData { title: String::from_str(title), url: String::from_str(url) },
        );
        proof {
            assert(tab_views(entries@) =~= seq![(title@, url@)]);
        }
        SendTabPayload { entries }
    }

    /// The payload as its JSON document.
    pub fn to_json_value(&self) -> (r: JsonValue)
        ensures
            r@ == payload_json(self.entries@),
    {
        let n = self.entries.len();
        let mut items: Vec<JsonValue> = Vec::new();
        let mut i: usize = 0;
        while i < n
            invariant
                n == self.entries@.len(),
                i <= n,
                items@.len() == i,
                forall|t: int|
                    0 <= t < i ==> jv_views(items@)[t] == JsonSpec::Obj(
                        tab_members(self.entries@[t]),
                    ),
            decreases n - i,
        {
            let mut members: Vec<(String, JsonValue)> = Vec::new();
            proof {
                assert(jv_member_views(members@) =~= Seq::<(Seq<char>, JsonSpec)>::empty());
            }
            push_member(&mut members, "title", JsonValue::Str(self.entries[i].title.clone()));
            push_member(&mut members, "url", JsonValue::Str(self.entries[i].url.clone()));
            let ghost old_items = items@;
            items.push(JsonValue::Obj(members));
            proof {
                crate::json::lemma_jv_views_index(items@);
                crate::json::lemma_jv_views_index(old_items);
                assert(jv_member_views(members@) =~= tab_members(self.entries@[i as int]));
                assert forall|t: int|
                    0 <= t < i + 1 implies jv_views(items@)[t] == JsonSpec::Obj(
                    tab_members(self.entries@[t]),
                ) by {
                    if t < i {
                        assert(items@[t] == old_items[t]);
                        assert(jv_views(old_items)[t] == old_items[t]@);
                    }
                }
            }
            i = i + 1;
        }
        let mut obj: Vec<(String, JsonValue)> = Vec::new();
        proof {
            assert(jv_member_views(obj@) =~= Seq::<(Seq<char>, JsonSpec)>::empty());
        }
        push_member(&mut obj, "entries", JsonValue::Arr(items));
        proof {
            crate::json::lemma_jv_views_index(items@);
            assert(jv_views(items@) =~= Seq::new(
                self.entries@.len(),
                |t: int| JsonSpec::Obj(tab_members(self.entries@[t])),
            ));
            assert(jv_member_views(obj@) =~= seq![
                ("entries"@, JsonSpec::Arr(jv_views(items@))),
            ]);
        }
        JsonValue::Obj(obj)
    }
}

/// What reading a JSON document as a payload yields: the tab views, or
/// nothing when the shape is wrong.
pub open spec fn payload_of_json(j: JsonSpec) -> Option<Seq<(Seq<char>, Seq<char>)>> {
    match jget(j, "entries"@) {
        Some(JsonSpec::Arr(items)) => tabs_of_jsons(items),
        _ => None,
    }
}

/// The tab views of a JSON element sequence, or nothing when one element is
/// not an object with string `title` and `url` fields.
pub open spec fn tabs_of_jsons(items: Seq<JsonSpec>) -> Option<Seq<(Seq<char>, Seq<char>)>>
    decreases items.len(),
{
    if items.len() == 0 {
        Some(Seq::empty())
    } else {
        match (jget(items[0], "title"@), jget(items[0], "url"@)) {
            (Some(JsonSpec::Str(title)), Some(JsonSpec::Str(url))) => match tabs_of_jsons(
                items.drop_first(),
            ) {
                Some(rest) => Some(seq![(title, url)] + rest),
                None => None,
            },
            _ => None,
        }
    }
}

/// Read a payload back from its JSON document.
#[verifier::loop_isolation(false)]
pub fn payload_from_json(v: &JsonValue) -> (r: Result<SendTabPayload, Error>)
    ensures
        (match r {
            Ok(p) => payload_of_json(v@) == Some(tab_views(p.entries@)),
            Err(e) => payload_of_json(v@) is None && e is JsonError,
        }),
{
    let items = match v.get("entries") {
        Some(f) => match f.as_arr() {
            Some(items) => items,
            None => {
                return Err(Error::JsonError);
            },
        },
        None => {
            return Err(Error::JsonError);
        },
    };
    let n = items.len();
    let mut entries: Vec<TabData> = Vec::new();
    let mut i: usize = 0;
    proof {
        crate::json::lemma_jv_views_index(items@);
        assert(jv_views(items@).subrange(0, n as int) =~= jv_views(items@));
        assert(tab_views(entries@) =~= Seq::<(Seq<char>, Seq<char>)>::empty());
        if tabs_of_jsons(jv_views(items@)) is Some {
            assert(tab_views(entries@) + tabs_of_jsons(jv_views(items@)).unwrap()
                =~= tabs_of_jsons(jv_views(items@)).unwrap());
        }
    }
    while i < n
        invariant
            n == items@.len(),
            i <= n,
            entries@.len() == i,
            (match tabs_of_jsons(jv_views(items@).subrange(i as int, n as int)) {
                Some(rest) => tabs_of_jsons(jv_views(items@)) == Some(tab_views(entries@) + rest),
                None => tabs_of_jsons(jv_views(items@)) is None,
            }),
        decreases n - i,
    {
        let title = match crate::wire::get_str_field(&items[i], "title") {
            Some(t) => t.clone(),
            None => {
                return Err(Error::JsonError);
            },
        };
        let url = match crate::wire::get_str_field(&items[i], "url") {
            Some(t) => t.clone(),
            None => {
                return Err(Error::JsonError);
            },
        };
        let ghost old_entries = entries@;
        let ghost gt = title@;
        let ghost gu = url@;
        entries.push(TabData { title, url });
        proof {
            let tail = jv_views(items@).subrange(i as int, n as int);
            assert(tail[0] == jv_views(items@)[i as int]);
            assert(tail.drop_first() =~= jv_views(items@).subrange(i + 1, n as int));
            if tabs_of_jsons(jv_views(items@).subrange(i + 1, n as int)) is Some {
                let rest = tabs_of_jsons(jv_views(items@).subrange(i + 1, n as int)).unwrap();
                assert(tabs_of_jsons(tail) == Some(seq![(gt, gu)] + rest));
                assert(tab_views(old_entries) + (seq![(gt, gu)] + rest) =~= tab_views(entries@)
                    + rest) by {
                    assert(tab_views(entries@) =~= tab_views(old_entries).push((gt, gu)));
                }
            }
        }
        i = i + 1;
    }
    proof {
        assert(jv_views(items@).subrange(n as int, n as int)
            =~= Seq::<JsonSpec>::empty());
        assert(tab_views(entries@) + Seq::<(Seq<char>, Seq<char>)>::empty() =~= tab_views(
            entries@,
        ));
    }
    Ok(SendTabPayload { entries })
}

/// This device's per-command key material: the raw key pair and auth secret.
/// Created lazily, exactly once per account and command, and never
/// regenerated while cached: new keys would invalidate every peer's cached
/// copy of the public half.
#[derive(Debug)]
pub struct PrivateSendTabKeys {
    pub public_key: Vec<u8>,
    pub private_key: Vec<u8>,
    pub auth_secret: Vec<u8>,
}

/// The JSON document of cached key material, over the raw byte views.
pub open spec fn keys_json_views(
    public_key: Seq<u8>,
    private_key: Seq<u8>,
    auth_secret: Seq<u8>,
) -> JsonSpec {
    JsonSpec::Obj(
        seq![
            ("public_key"@, JsonSpec::Arr(bytes_jsons(public_key))),
            ("private_key"@, JsonSpec::Arr(bytes_jsons(private_key))),
            ("auth_secret"@, JsonSpec::Arr(bytes_jsons(auth_secret))),
        ],
    )
}

/// The JSON document under which the key material is cached.
pub open spec fn private_keys_json(k: PrivateSendTabKeys) -> JsonSpec {
    keys_json_views(k.public_key@, k.private_key@, k.auth_secret@)
}

/// Two byte sequences with the same JSON array form are the same.
pub proof fn lemma_bytes_jsons_injective(a: Seq<u8>, b: Seq<u8>)
    requires
        bytes_jsons(a) == bytes_jsons(b),
    ensures
        a == b,
{
    assert(bytes_jsons(a).len() == a.len() && bytes_jsons(b).len() == b.len());
    assert forall|i: int| 0 <= i < a.len() implies a[i] == b[i] by {
        assert(bytes_jsons(a)[i] == JsonSpec::UInt(a[i] as u64));
        assert(bytes_jsons(b)[i] == JsonSpec::UInt(b[i] as u64));
    }
    assert(a =~= b);
}

/// The cache document determines the key bytes: the form is injective.
pub proof fn lemma_keys_json_views_injective(
    a0: Seq<u8>,
    a1: Seq<u8>,
    a2: Seq<u8>,
    b0: Seq<u8>,
    b1: Seq<u8>,
    b2: Seq<u8>,
)
    requires
        keys_json_views(a0, a1, a2) == keys_json_views(b0, b1, b2),
    ensures
        a0 == b0,
        a1 == b1,
        a2 == b2,
{
    let ma = keys_json_views(a0, a1, a2)->Obj_0;
    let mb = keys_json_views(b0, b1, b2)->Obj_0;
    assert(ma == mb);
    assert(ma[0].1 == mb[0].1 && ma[1].1 == mb[1].1 && ma[2].1 == mb[2].1);
    lemma_bytes_jsons_injective(a0, b0);
    lemma_bytes_jsons_injective(a1, b1);
    lemma_bytes_jsons_injective(a2, b2);
}

/// Where the cache document's fields sit.
proof fn lemma_keys_doc_fields(pk: Seq<u8>, sk: Seq<u8>, au: Seq<u8>)
    ensures
        jget(keys_json_views(pk, sk, au), "public_key"@) == Some(
            JsonSpec::Arr(bytes_jsons(pk)),
        ),
        jget(keys_json_views(pk, sk, au), "private_key"@) == Some(
            JsonSpec::Arr(bytes_jsons(sk)),
        ),
        jget(keys_json_views(pk, sk, au), "auth_secret"@) == Some(
            JsonSpec::Arr(bytes_jsons(au)),
        ),
{
    reveal_strlit("public_key");
    reveal_strlit("private_key");
    reveal_strlit("auth_secret");
    let j = keys_json_views(pk, sk, au);
    let ms = j->Obj_0;
    let ms1 = ms.drop_first();
    let ms2 = ms1.drop_first();
    assert(ms1 =~= seq![
        ("private_key"@, JsonSpec::Arr(bytes_jsons(sk))),
        ("auth_secret"@, JsonSpec::Arr(bytes_jsons(au))),
    ]);
    assert(ms2 =~= seq![("auth_secret"@, JsonSpec::Arr(bytes_jsons(au)))]);
    assert("public_key"@.len() == 10 && "private_key"@.len() == 11 && "auth_secret"@.len() == 11);
    assert("public_key"@ != "private_key"@ && "public_key"@ != "auth_secret"@);
    assert("private_key"@ != "auth_secret"@) by {
        assert("private_key"@[0] == 'p' && "auth_secret"@[0] == 'a');
    }
    assert(jget(j, "public_key"@) == Some(JsonSpec::Arr(bytes_jsons(pk))));
    assert(crate::json::obj_lookup(ms1, "private_key"@) == Some(JsonSpec::Arr(bytes_jsons(sk))));
    assert(jget(j, "private_key"@) == Some(JsonSpec::Arr(bytes_jsons(sk))));
    assert(crate::json::obj_lookup(ms2, "auth_secret"@) == Some(JsonSpec::Arr(bytes_jsons(au))));
    assert(crate::json::obj_lookup(ms1, "auth_secret"@) == crate::json::obj_lookup(
        ms2,
        "auth_secret"@,
    ));
    assert(jget(j, "auth_secret"@) == Some(JsonSpec::Arr(bytes_jsons(au))));
}

impl PrivateSendTabKeys {
    /// Fresh key material: a newly generated key pair and a 16-byte auth
    /// secret from the OS random number generator; no bytes are reused
    /// across calls.
    pub fn from_random() -> (r: Result<PrivateSendTabKeys, Error>)
        ensures
            (match r {
                Ok(k) => keypair_matches(k.private_key@, k.public_key@) && ec_importable(
                    k.private_key@,
                    k.public_key@,
                ) && k.public_key@.len() == 65 && k.auth_secret@.len() == 16,
                Err(e) => e is CryptoError || e is RngFailure,
            }),
    {
        let (private_key, public_key) = crate::webpush::ece_generate_keypair()?;
        let auth_secret = crate::keys::rand_bytes(16)?;
        Ok(PrivateSendTabKeys { public_key, private_key, auth_secret })
    }

    /// The cached JSON form of this key material.
    pub fn to_json_string(&self) -> (r: String)
        ensures
            r@ == jser(private_keys_json(*self)),
    {
        let mut members: Vec<(String, JsonValue)> = Vec::new();
        proof {
            assert(jv_member_views(members@) =~= Seq::<(Seq<char>, JsonSpec)>::empty());
        }
        push_member(&mut members, "public_key", crate::wire::bytes_to_json(&self.public_key));
        push_member(&mut members, "private_key", crate::wire::bytes_to_json(&self.private_key));
        push_member(&mut members, "auth_secret", crate::wire::bytes_to_json(&self.auth_secret));
        proof {
            assert(jv_member_views(members@) =~= private_keys_json(*self)->Obj_0);
            assert(JsonSpec::Obj(jv_member_views(members@)) =~~= private_keys_json(*self));
        }
        let v = JsonValue::Obj(members);
        crate::json::json_to_string(&v)
    }

    /// Read cached key material back from its JSON text: succeeds exactly on
    /// the canonical cache document of some key material, and returns it.
    pub fn from_json_string(s: &str) -> (r: Result<PrivateSendTabKeys, Error>)
        ensures
            (match r {
                Ok(k) => sparse_doc(s@) == Some(private_keys_json(k)),
                Err(e) => e is JsonError && (forall|pk: Seq<u8>, sk: Seq<u8>, au: Seq<u8>|
                    sparse_doc(s@) != Some(keys_json_views(pk, sk, au))),
            }),
    {
        let v = match crate::json::json_parse(s) {
            Some(v) => v,
            None => {
                return Err(Error::JsonError);
            },
        };
        let public_key = match Self::keys_field(&v, "public_key") {
            Ok(b) => b,
            Err(e) => {
                proof {
                    Self::lemma_no_canonical_doc(s@, v@, "public_key"@);
                }
                return Err(e);
            },
        };
        let private_key = match Self::keys_field(&v, "private_key") {
            Ok(b) => b,
            Err(e) => {
                proof {
                    Self::lemma_no_canonical_doc(s@, v@, "private_key"@);
                }
                return Err(e);
            },
        };
        let auth_secret = match Self::keys_field(&v, "auth_secret") {
            Ok(b) => b,
            Err(e) => {
                proof {
                    Self::lemma_no_canonical_doc(s@, v@, "auth_secret"@);
                }
                return Err(e);
            },
        };
        let keys = PrivateSendTabKeys { public_key, private_key, auth_secret };
        if !json_is_private_keys(&v, &keys) {
            proof {
                assert forall|pk: Seq<u8>, sk: Seq<u8>, au: Seq<u8>|
                    sparse_doc(s@) != Some(keys_json_views(pk, sk, au)) by {
                    if sparse_doc(s@) == Some(keys_json_views(pk, sk, au)) {
                        lemma_keys_doc_fields(pk, sk, au);
                        lemma_bytes_jsons_injective(keys.public_key@, pk);
                        lemma_bytes_jsons_injective(keys.private_key@, sk);
                        lemma_bytes_jsons_injective(keys.auth_secret@, au);
                        assert(private_keys_json(keys) =~~= keys_json_views(pk, sk, au));
                    }
                }
            }
            return Err(Error::JsonError);
        }
        Ok(keys)
    }

    /// One byte-array field of the cache document.
    fn keys_field(v: &JsonValue, key: &str) -> (r: Result<Vec<u8>, Error>)
        ensures
            (match r {
                Ok(b) => jget(v@, key@) == Some(JsonSpec::Arr(bytes_jsons(b@))),
                Err(e) => e is JsonError && (forall|b: Seq<u8>|
                    jget(v@, key@) != Some(JsonSpec::Arr(bytes_jsons(b)))),
            }),
    {
        match v.get(key) {
            Some(f) => crate::wire::bytes_from_json(f),
            None => Err(Error::JsonError),
        }
    }

    /// When one canonical field is missing or malformed, the whole text is
    /// not a canonical cache document.
    proof fn lemma_no_canonical_doc(s: Seq<char>, doc: JsonSpec, key: Seq<char>)
        requires
            sparse_doc(s) == Some(doc),
            forall|b: Seq<u8>| jget(doc, key) != Some(JsonSpec::Arr(bytes_jsons(b))),
            key == "public_key"@ || key == "private_key"@ || key == "auth_secret"@,
        ensures
            forall|pk: Seq<u8>, sk: Seq<u8>, au: Seq<u8>|
                sparse_doc(s) != Some(keys_json_views(pk, sk, au)),
    {
        assert forall|pk: Seq<u8>, sk: Seq<u8>, au: Seq<u8>|
            sparse_doc(s) != Some(keys_json_views(pk, sk, au)) by {
            if sparse_doc(s) == Some(keys_json_views(pk, sk, au)) {
                lemma_keys_doc_fields(pk, sk, au);
            }
        }
    }
}

/// Check that `v` is exactly the canonical cache document of `k`, by
/// comparing canonical serializations (the parse lemma makes them injective).
fn json_is_private_keys(v: &JsonValue, k: &PrivateSendTabKeys) -> (r: bool)
    ensures
        r == (v@ == private_keys_json(*k)),
{
    let canon = k.to_json_string();
    let own = crate::json::json_to_string(v);
    proof {
        crate::json::lemma_json_round_trip(v@);
        crate::json::lemma_json_round_trip(private_keys_json(*k));
    }
    crate::strutil::str_eq(canon.as_str(), own.as_str())
}

/// The exported, shareable half of this device's command keys, both halves
/// as URL-safe base64 without padding.
#[derive(Debug)]
pub struct PublicSendTabKeys {
    /// Wire name `publicKey`.
    pub public_key: String,
    /// Wire name `authSecret`.
    pub auth_secret: String,
}

/// The cleartext document the key-wrap layer protects:
/// `{"publicKey":..,"authSecret":..}`.
pub open spec fn public_keys_json(public_key: Seq<char>, auth_secret: Seq<char>) -> JsonSpec {
    JsonSpec::Obj(
        seq![
            ("publicKey"@, JsonSpec::Str(public_key)),
            ("authSecret"@, JsonSpec::Str(auth_secret)),
        ],
    )
}

/// A wrapped registration blob as published through the relay:
/// `{"kid": hex, "IV": base64, "hmac": hex, "ciphertext": base64}`.
#[derive(Debug)]
pub struct SendTabKeysPayload {
    /// Hex text of the account's key-check value.
    pub kid: String,
    /// Standard base64 of the AES IV (wire name `IV`).
    pub iv: String,
    /// Hex text of the HMAC over the base64 ciphertext text.
    pub hmac: String,
    /// Standard base64 of the AES ciphertext.
    pub ciphertext: String,
}

/// The JSON document of a registration blob.
pub open spec fn blob_json(kid: Seq<char>, iv: Seq<char>, hmac: Seq<char>, ct: Seq<char>) -> JsonSpec {
    JsonSpec::Obj(
        seq![
            ("kid"@, JsonSpec::Str(kid)),
            ("IV"@, JsonSpec::Str(iv)),
            ("hmac"@, JsonSpec::Str(hmac)),
            ("ciphertext"@, JsonSpec::Str(ct)),
        ],
    )
}

/// What unwrapping a registration blob yields: the (publicKey, authSecret)
/// texts, or the exact error. The key id is checked first, before any HMAC
/// or decryption work; the HMAC is over the base64 text of the ciphertext.
pub open spec fn keywrap_open(
    kid: Seq<char>,
    ivt: Seq<char>,
    hmac: Seq<char>,
    ct: Seq<char>,
    ksync: Seq<u8>,
    kxcs: Seq<u8>,
) -> Result<(Seq<char>, Seq<char>), Error> {
    match hex_decode_spec(kid) {
        None => Err(Error::HexDecodeError),
        Some(kidb) => if kidb != kxcs {
            Err(Error::MismatchedKeys)
        } else if ksync.len() != 64 {
            Err(Error::CryptoError)
        } else if hmac != hex_of(
            hmac_sha256_of(ksync.subrange(32, 64), vstd::utf8::encode_utf8(ct)),
        ) {
            Err(Error::HmacMismatch)
        } else {
            match b64_decode_of(false, ivt) {
                None => Err(Error::Base64DecodeError),
                Some(ivb) => match b64_decode_of(false, ct) {
                    None => Err(Error::Base64DecodeError),
                    Some(ctb) => if ivb.len() != 16 {
                        Err(Error::CryptoError)
                    } else {
                        match aes256cbc_open_of(ksync.subrange(0, 32), ivb, ctb) {
                            None => Err(Error::CryptoError),
                            Some(plain) => if !vstd::utf8::valid_utf8(plain) {
                                Err(Error::Utf8Error)
                            } else {
                                match sparse_doc(vstd::utf8::decode_utf8(plain)) {
                                    None => Err(Error::JsonError),
                                    Some(j) => match (
                                        jget(j, "publicKey"@),
                                        jget(j, "authSecret"@),
                                    ) {
                                        (
                                            Some(JsonSpec::Str(pk)),
                                            Some(JsonSpec::Str(au)),
                                        ) => Ok((pk, au)),
                                        _ => Err(Error::JsonError),
                                    },
                                }
                            },
                        }
                    },
                },
            }
        },
    }
}

impl SendTabKeysPayload {
    /// Unwrap the blob with the account's key-encrypting key. A key id other
    /// than `kxcs` fails before any HMAC verification runs; a bad HMAC fails
    /// before any decryption runs; a failed check never falls back to
    /// accepting the data.
    pub fn decrypt(self, ksync: &[u8], kxcs: &[u8]) -> (r: Result<PublicSendTabKeys, Error>)
        ensures
            (match r {
                Ok(k) => keywrap_open(self.kid@, self.iv@, self.hmac@, self.ciphertext@, ksync@, kxcs@)
                    == Ok::<(Seq<char>, Seq<char>), Error>((k.public_key@, k.auth_secret@)),
                Err(e) => keywrap_open(
                    self.kid@,
                    self.iv@,
                    self.hmac@,
                    self.ciphertext@,
                    ksync@,
                    kxcs@,
                ) == Err::<(Seq<char>, Seq<char>), Error>(e),
            }),
    {
        let kidb = crate::encoding::hex_decode(self.kid.as_str())?;
        if !crate::strutil::bytes_eq(kidb.as_slice(), kxcs) {
            return Err(Error::MismatchedKeys);
        }
        let key = KeyBundle::from_ksync_bytes(ksync)?;
        if !key.verify_hmac_string(self.hmac.as_str(), self.ciphertext.as_str().as_bytes()) {
            return Err(Error::HmacMismatch);
        }
        let iv = crate::encoding::b64_decode(self.iv.as_str())?;
        let ciphertext = crate::encoding::b64_decode(self.ciphertext.as_str())?;
        let cleartext = key.decrypt(ciphertext.as_slice(), iv.as_slice())?;
        let v = match crate::json::json_parse(cleartext.as_str()) {
            Some(v) => v,
            None => {
                return Err(Error::JsonError);
            },
        };
        let public_key = match crate::wire::get_str_field(&v, "publicKey") {
            Some(t) => t.clone(),
            None => {
                return Err(Error::JsonError);
            },
        };
        let auth_secret = match crate::wire::get_str_field(&v, "authSecret") {
            Some(t) => t.clone(),
            None => {
                return Err(Error::JsonError);
            },
        };
        Ok(PublicSendTabKeys { public_key, auth_secret })
    }

    /// The blob as its JSON document.
    pub fn to_json_value(&self) -> (r: JsonValue)
        ensures
            r@ == blob_json(self.kid@, self.iv@, self.hmac@, self.ciphertext@),
    {
        let mut members: Vec<(String, JsonValue)> = Vec::new();
        proof {
            assert(jv_member_views(members@) =~= Seq::<(Seq<char>, JsonSpec)>::empty());
        }
        push_member(&mut members, "kid", JsonValue::Str(self.kid.clone()));
        push_member(&mut members, "IV", JsonValue::Str(self.iv.clone()));
        push_member(&mut members, "hmac", JsonValue::Str(self.hmac.clone()));
        push_member(&mut members, "ciphertext", JsonValue::Str(self.ciphertext.clone()));
        proof {
            assert(jv_member_views(members@) =~= blob_json(
                self.kid@,
                self.iv@,
                self.hmac@,
                self.ciphertext@,
            )->Obj_0);
            assert(JsonSpec::Obj(jv_member_views(members@)) =~~= blob_json(
                self.kid@,
                self.iv@,
                self.hmac@,
                self.ciphertext@,
            ));
        }
        JsonValue::Obj(members)
    }

    /// Read a blob back from its JSON document: the four string fields.
    pub fn from_json_value(v: &JsonValue) -> (r: Result<SendTabKeysPayload, Error>)
        ensures
            (match r {
                Ok(b) => jget(v@, "kid"@) == Some(JsonSpec::Str(b.kid@)) && jget(v@, "IV"@)
                    == Some(JsonSpec::Str(b.iv@)) && jget(v@, "hmac"@) == Some(
                    JsonSpec::Str(b.hmac@),
                ) && jget(v@, "ciphertext"@) == Some(JsonSpec::Str(b.ciphertext@)),
                Err(e) => e is JsonError && !(jget(v@, "kid"@) matches Some(JsonSpec::Str(_))
                    && jget(v@, "IV"@) matches Some(JsonSpec::Str(_)) && jget(v@, "hmac"@) matches Some(
                    JsonSpec::Str(_),
                ) && jget(v@, "ciphertext"@) matches Some(JsonSpec::Str(_))),
            }),
    {
        let kid = match crate::wire::get_str_field(v, "kid") {
            Some(t) => t.clone(),
            None => {
                return Err(Error::JsonError);
            },
        };
        let iv = match crate::wire::get_str_field(v, "IV") {
            Some(t) => t.clone(),
            None => {
                return Err(Error::JsonError);
            },
        };
        let hmac = match crate::wire::get_str_field(v, "hmac") {
            Some(t) => t.clone(),
            None => {
                return Err(Error::JsonError);
            },
        };
        let ciphertext = match crate::wire::get_str_field(v, "ciphertext") {
            Some(t) => t.clone(),
            None => {
                return Err(Error::JsonError);
            },
        };
        Ok(SendTabKeysPayload { kid, iv, hmac, ciphertext })
    }
}

impl PublicSendTabKeys {
    /// The exported half of freshly generated private key material.
    pub fn from(internal: PrivateSendTabKeys) -> (r: PublicSendTabKeys)
        ensures
            r.public_key@ == b64_of(true, internal.public_key@),
            r.auth_secret@ == b64_of(true, internal.auth_secret@),
            b64_decode_of(true, r.public_key@) == Some(internal.public_key@),
            b64_decode_of(true, r.auth_secret@) == Some(internal.auth_secret@),
    {
        PublicSendTabKeys {
            public_key: crate::encoding::b64url_encode_nopad(internal.public_key.as_slice()),
            auth_secret: crate::encoding::b64url_encode_nopad(internal.auth_secret.as_slice()),
        }
    }

    /// The cleartext document to be wrapped.
    pub fn to_json_value(&self) -> (r: JsonValue)
        ensures
            r@ == public_keys_json(self.public_key@, self.auth_secret@),
    {
        let mut members: Vec<(String, JsonValue)> = Vec::new();
        proof {
            assert(jv_member_views(members@) =~= Seq::<(Seq<char>, JsonSpec)>::empty());
        }
        push_member(&mut members, "publicKey", JsonValue::Str(self.public_key.clone()));
        push_member(&mut members, "authSecret", JsonValue::Str(self.auth_secret.clone()));
        proof {
            assert(jv_member_views(members@) =~= public_keys_json(
                self.public_key@,
                self.auth_secret@,
            )->Obj_0);
            assert(JsonSpec::Obj(jv_member_views(members@)) =~~= public_keys_json(
                self.public_key@,
                self.auth_secret@,
            ));
        }
        JsonValue::Obj(members)
    }

    /// Wrap these public keys with the account's sync key: a fresh random IV,
    /// AES under the first half of the sync key, the HMAC over the base64
    /// text of the ciphertext, and the hex of `kxcs` as the key id. Whatever
    /// blob comes back — the IV is random — unwrapping it under the same key
    /// material returns exactly these keys (the key-wrap round trip).
    #[verifier::rlimit(100)]
    pub fn encrypt(&self, ksync: &[u8], kxcs: &[u8]) -> (r: Result<SendTabKeysPayload, Error>)
        ensures
            (match r {
                Ok(b) => b.kid@ == hex_of(kxcs@) && keywrap_open(
                    b.kid@,
                    b.iv@,
                    b.hmac@,
                    b.ciphertext@,
                    ksync@,
                    kxcs@,
                ) == Ok::<(Seq<char>, Seq<char>), Error>((self.public_key@, self.auth_secret@)),
                Err(_e) => true,
            }),
            r is Ok ==> ksync@.len() == 64,
    {
        let key = KeyBundle::from_ksync_bytes(ksync)?;
        let v = self.to_json_value();
        let cleartext_str = crate::json::json_to_string(&v);
        let cleartext = cleartext_str.as_str().as_bytes_vec();
        let (enc_bytes, iv) = key.encrypt_bytes_rand_iv(cleartext.as_slice())?;
        let iv_base64 = crate::encoding::b64_encode(iv.as_slice());
        let enc_base64 = crate::encoding::b64_encode(enc_bytes.as_slice());
        let hmac = key.hmac_string(enc_base64.as_str().as_bytes());
        let kid = crate::encoding::hex_encode(kxcs);
        let blob = SendTabKeysPayload { kid, iv: iv_base64, hmac, ciphertext: enc_base64 };
        proof {
            crate::encoding::lemma_hex_round_trip(kxcs@);
            vstd::utf8::encode_utf8_valid_utf8(cleartext_str@);
            vstd::utf8::encode_utf8_decode_utf8(cleartext_str@);
            let j = public_keys_json(self.public_key@, self.auth_secret@);
            crate::json::lemma_json_round_trip(j);
            reveal_strlit("publicKey");
            reveal_strlit("authSecret");
            reveal_with_fuel(crate::json::obj_lookup, 4);
            let ms = j->Obj_0;
            assert(ms[0].0 == "publicKey"@ && ms[0].1 == JsonSpec::Str(self.public_key@));
            assert("publicKey"@ != "authSecret"@);
            assert(ms.drop_first() =~= seq![("authSecret"@, JsonSpec::Str(self.auth_secret@))]);
            assert(jget(j, "publicKey"@) == Some(JsonSpec::Str(self.public_key@)));
            assert(jget(j, "authSecret"@) == Some(JsonSpec::Str(self.auth_secret@)));
            assert(hex_decode_spec(blob.kid@) == Some(kxcs@));
            assert(cleartext@ == vstd::utf8::encode_utf8(cleartext_str@));
            assert(blob.hmac@ == hex_of(
                hmac_sha256_of(ksync@.subrange(32, 64), vstd::utf8::encode_utf8(blob.ciphertext@)),
            ));
            assert(b64_decode_of(false, blob.iv@) == Some(iv@));
            assert(b64_decode_of(false, blob.ciphertext@) == Some(enc_bytes@));
            assert(aes256cbc_open_of(ksync@.subrange(0, 32), iv@, enc_bytes@) == Some(cleartext@));
            assert(vstd::utf8::valid_utf8(cleartext@));
            assert(vstd::utf8::decode_utf8(cleartext@) == cleartext_str@);
            assert(sparse_doc(cleartext_str@) == Some(j));
            assert(keywrap_open(blob.kid@, blob.iv@, blob.hmac@, blob.ciphertext@, ksync@, kxcs@)
                == Ok::<(Seq<char>, Seq<char>), Error>((self.public_key@, self.auth_secret@)));
        }
        Ok(blob)
    }

    /// The wrapped blob as the JSON text published under this command's name
    /// in the device's advertised commands.
    #[verifier::rlimit(100)]
    pub fn as_command_data(&self, kek: &KeyEncryptingKey) -> (r: Result<String, Error>)
        ensures
            (match r {
                Ok(s) => (match *kek {
                    KeyEncryptingKey::SyncKeys(ksync, kxcs) => command_data_opens(s@, ksync@, kxcs@)
                        == Ok::<(Seq<char>, Seq<char>), Error>((
                        self.public_key@,
                        self.auth_secret@,
                    )),
                }),
                Err(_e) => true,
            }),
    {
        let (ksync, kxcs) = match kek {
            KeyEncryptingKey::SyncKeys(ksync, kxcs) => (ksync, kxcs),
        };
        let blob = self.encrypt(ksync.as_slice(), kxcs.as_slice())?;
        let ghost gb = blob;
        let v = blob.to_json_value();
        let s = crate::json::json_to_string(&v);
        proof {
            crate::json::lemma_json_round_trip(v@);
            reveal_strlit("kid");
            reveal_strlit("IV");
            reveal_strlit("hmac");
            reveal_strlit("ciphertext");
            reveal_with_fuel(crate::json::obj_lookup, 6);
            let ms = v@->Obj_0;
            let ms1 = ms.drop_first();
            let ms2 = ms1.drop_first();
            let ms3 = ms2.drop_first();
            assert(ms1 =~= seq![
                ("IV"@, JsonSpec::Str(gb.iv@)),
                ("hmac"@, JsonSpec::Str(gb.hmac@)),
                ("ciphertext"@, JsonSpec::Str(gb.ciphertext@)),
            ]);
            assert(ms2 =~= seq![
                ("hmac"@, JsonSpec::Str(gb.hmac@)),
                ("ciphertext"@, JsonSpec::Str(gb.ciphertext@)),
            ]);
            assert(ms3 =~= seq![("ciphertext"@, JsonSpec::Str(gb.ciphertext@))]);
            assert(jget(v@, "kid"@) == Some(JsonSpec::Str(gb.kid@)));
            assert(jget(v@, "IV"@) == Some(JsonSpec::Str(gb.iv@)));
            assert(crate::json::obj_lookup(ms2, "hmac"@) == Some(JsonSpec::Str(gb.hmac@)));
            assert(ms1.len() == 3);
            assert(ms1[0].0 == "IV"@);
            assert("IV"@.len() == 2 && "hmac"@.len() == 4);
            assert("IV"@ != "hmac"@);
            assert(crate::json::obj_lookup(ms1, "hmac"@) == crate::json::obj_lookup(ms2, "hmac"@));
            assert(jget(v@, "hmac"@) == Some(JsonSpec::Str(gb.hmac@)));
            assert(crate::json::obj_lookup(ms3, "ciphertext"@) == Some(
                JsonSpec::Str(gb.ciphertext@),
            ));
            assert(crate::json::obj_lookup(ms2, "ciphertext"@) == crate::json::obj_lookup(
                ms3,
                "ciphertext"@,
            ));
            assert(crate::json::obj_lookup(ms1, "ciphertext"@) == crate::json::obj_lookup(
                ms2,
                "ciphertext"@,
            ));
            assert(jget(v@, "ciphertext"@) == Some(JsonSpec::Str(gb.ciphertext@)));
        }
        Ok(s)
    }
}

/// What opening a published command-data text yields: parse the blob JSON,
/// take its four string fields, and unwrap.
pub open spec fn command_data_opens(s: Seq<char>, ksync: Seq<u8>, kxcs: Seq<u8>) -> Result<
    (Seq<char>, Seq<char>),
    Error,
> {
    match sparse_doc(s) {
        None => Err(Error::JsonError),
        Some(j) => match (
            jget(j, "kid"@),
            jget(j, "IV"@),
            jget(j, "hmac"@),
            jget(j, "ciphertext"@),
        ) {
            (
                Some(JsonSpec::Str(kid)),
                Some(JsonSpec::Str(iv)),
                Some(JsonSpec::Str(hmac)),
                Some(JsonSpec::Str(ct)),
            ) => keywrap_open(kid, iv, hmac, ct, ksync, kxcs),
            _ => Err(Error::JsonError),
        },
    }
}

/// The key-encrypting key: the account's sync key `ksync` and the key-check
/// value `kxcs` derived from the scoped key's id.
pub enum KeyEncryptingKey {
    SyncKeys(Vec<u8>, Vec<u8>),
}

/// An encrypted Send Tab payload on the wire:
/// `{"encrypted": base64url-no-pad}`.
#[derive(Debug)]
pub struct EncryptedSendTabPayload {
    pub encrypted: String,
}

/// What opening an encrypted payload under a device's key material yields:
/// the tab views, or the exact error. Any authentication failure (wrong key,
/// truncation, corruption, tampering) is an error — the data is never
/// accepted partially.
pub open spec fn sendtab_open(
    encrypted: Seq<char>,
    private_key: Seq<u8>,
    public_key: Seq<u8>,
    auth: Seq<u8>,
) -> Result<Seq<(Seq<char>, Seq<char>)>, Error> {
    match b64_decode_of(true, encrypted) {
        None => Err(Error::Base64DecodeError),
        Some(ct) => if !ec_importable(private_key, public_key) {
            Err(Error::CryptoError)
        } else {
            match webpush_open_of(private_key, public_key, auth, ct) {
                None => Err(Error::DecryptError),
                Some(bytes) => if !vstd::utf8::valid_utf8(bytes) {
                    Err(Error::Utf8Error)
                } else {
                    match sparse_doc(vstd::utf8::decode_utf8(bytes)) {
                        None => Err(Error::JsonError),
                        Some(j) => match payload_of_json(j) {
                            Some(tabs) => Ok(tabs),
                            None => Err(Error::JsonError),
                        },
                    }
                },
            }
        },
    }
}

impl EncryptedSendTabPayload {
    /// Decrypt with this device's own key material.
    pub fn decrypt(self, keys: &PrivateSendTabKeys) -> (r: Result<SendTabPayload, Error>)
        ensures
            (match r {
                Ok(p) => sendtab_open(
                    self.encrypted@,
                    keys.private_key@,
                    keys.public_key@,
                    keys.auth_secret@,
                ) == Ok::<Seq<(Seq<char>, Seq<char>)>, Error>(tab_views(p.entries@)),
                Err(e) => sendtab_open(
                    self.encrypted@,
                    keys.private_key@,
                    keys.public_key@,
                    keys.auth_secret@,
                ) == Err::<Seq<(Seq<char>, Seq<char>)>, Error>(e),
            }),
    {
        let encrypted = crate::encoding::b64url_decode_nopad(self.encrypted.as_str())?;
        if !crate::webpush::p256_key_importable(
            keys.private_key.as_slice(),
            keys.public_key.as_slice(),
        ) {
            return Err(Error::CryptoError);
        }
        let decrypted = crate::webpush::ece_decrypt(
            keys.private_key.as_slice(),
            keys.public_key.as_slice(),
            keys.auth_secret.as_slice(),
            encrypted.as_slice(),
        )?;
        let text = match crate::strutil::utf8_to_string(decrypted) {
            Some(t) => t,
            None => {
                return Err(Error::Utf8Error);
            },
        };
        proof {
            vstd::utf8::encode_utf8_valid_utf8(text@);
            vstd::utf8::encode_utf8_decode_utf8(text@);
        }
        let v = match crate::json::json_parse(text.as_str()) {
            Some(v) => v,
            None => {
                return Err(Error::JsonError);
            },
        };
        payload_from_json(&v)
    }

    /// The wire document of this encrypted payload.
    pub fn to_json_value(&self) -> (r: JsonValue)
        ensures
            r@ == JsonSpec::Obj(seq![("encrypted"@, JsonSpec::Str(self.encrypted@))]),
    {
        let mut members: Vec<(String, JsonValue)> = Vec::new();
        proof {
            assert(jv_member_views(members@) =~= Seq::<(Seq<char>, JsonSpec)>::empty());
        }
        push_member(&mut members, "encrypted", JsonValue::Str(self.encrypted.clone()));
        proof {
            assert(jv_member_views(members@) =~= seq![
                ("encrypted"@, JsonSpec::Str(self.encrypted@)),
            ]);
        }
        JsonValue::Obj(members)
    }

    /// Read an encrypted payload back from its wire document.
    pub fn from_json_value(v: &JsonValue) -> (r: Result<EncryptedSendTabPayload, Error>)
        ensures
            (match r {
                Ok(e) => jget(v@, "encrypted"@) == Some(JsonSpec::Str(e.encrypted@)),
                Err(e) => e is JsonError && !(jget(v@, "encrypted"@) matches Some(
                    JsonSpec::Str(_),
                )),
            }),
    {
        match crate::wire::get_str_field(v, "encrypted") {
            Some(t) => Ok(EncryptedSendTabPayload { encrypted: t.clone() }),
            None => Err(Error::JsonError),
        }
    }
}

/// The canonical JSON of a payload reads back as exactly its tab views.
proof fn lemma_payload_json_of(entries: Seq<TabData>)
    ensures
        payload_of_json(payload_json(entries)) == Some(tab_views(entries)),
{
    reveal_strlit("entries");
    let j = payload_json(entries);
    let items = Seq::new(entries.len(), |i: int| JsonSpec::Obj(tab_members(entries[i])));
    assert(jget(j, "entries"@) == Some(JsonSpec::Arr(items)));
    lemma_tabs_of_jsons(entries);
}

proof fn lemma_tabs_of_jsons(entries: Seq<TabData>)
    ensures
        tabs_of_jsons(Seq::new(entries.len(), |i: int| JsonSpec::Obj(tab_members(entries[i]))))
            == Some(tab_views(entries)),
    decreases entries.len(),
{
    reveal_strlit("title");
    reveal_strlit("url");
    let items = Seq::new(entries.len(), |i: int| JsonSpec::Obj(tab_members(entries[i])));
    if entries.len() == 0 {
        assert(tabs_of_jsons(items) == Some(Seq::<(Seq<char>, Seq<char>)>::empty()));
        assert(tab_views(entries) =~= Seq::<(Seq<char>, Seq<char>)>::empty());
    } else {
        let e0 = entries[0];
        assert(items[0] == JsonSpec::Obj(tab_members(e0)));
        assert(tab_members(e0).drop_first() =~= seq![("url"@, JsonSpec::Str(e0.url@))]);
        assert("title"@.len() == 5 && "url"@.len() == 3);
        assert("title"@ != "url"@);
        assert(tab_members(e0)[0].0 == "title"@ && tab_members(e0)[0].1 == JsonSpec::Str(
            e0.title@,
        ));
        assert(crate::json::obj_lookup(tab_members(e0), "title"@) == Some(
            JsonSpec::Str(e0.title@),
        ));
        assert(crate::json::obj_lookup(tab_members(e0).drop_first(), "url"@) == Some(
            JsonSpec::Str(e0.url@),
        ));
        assert(crate::json::obj_lookup(tab_members(e0), "url"@) == crate::json::obj_lookup(
            tab_members(e0).drop_first(),
            "url"@,
        ));
        assert(jget(items[0], "title"@) == Some(JsonSpec::Str(e0.title@)));
        assert(jget(items[0], "url"@) == Some(JsonSpec::Str(e0.url@)));
        lemma_tabs_of_jsons(entries.drop_first());
        assert(items.drop_first() =~= Seq::new(
            entries.drop_first().len(),
            |i: int| JsonSpec::Obj(tab_members(entries.drop_first()[i])),
        ));
        assert(seq![(e0.title@, e0.url@)] + tab_views(entries.drop_first()) =~= tab_views(entries));
    }
}

impl SendTabPayload {
    /// Encrypt this payload against a peer's exported keys. Whatever
    /// ciphertext comes back — the scheme draws fresh randomness — the holder
    /// of the matching private key material decrypts it back to exactly this
    /// payload: the payload round trip.
    pub fn encrypt(&self, keys: PublicSendTabKeys) -> (r: Result<EncryptedSendTabPayload, Error>)
        ensures
            (b64_decode_of(true, keys.public_key@) is None || b64_decode_of(
                true,
                keys.auth_secret@,
            ) is None || (b64_decode_of(true, keys.public_key@) matches Some(pkb) && pkb.len()
                != 65)) ==> r == Err::<EncryptedSendTabPayload, Error>(Error::CryptoError),
            (match r {
                Ok(e) => b64_decode_of(true, keys.public_key@) matches Some(pkb) && b64_decode_of(
                    true,
                    keys.auth_secret@,
                ) matches Some(aub) && (forall|d: Seq<u8>|
                    keypair_matches(d, pkb) && ec_importable(d, pkb) ==> sendtab_open(
                        e.encrypted@,
                        d,
                        pkb,
                        aub,
                    ) == Ok::<Seq<(Seq<char>, Seq<char>)>, Error>(tab_views(self.entries@))),
                Err(e) => e is CryptoError || e is RngFailure,
            }),
    {
        let public_key = match crate::encoding::b64url_decode_nopad(keys.public_key.as_str()) {
            Ok(b) => b,
            Err(_e) => {
                return Err(Error::CryptoError);
            },
        };
        let auth_secret = match crate::encoding::b64url_decode_nopad(keys.auth_secret.as_str()) {
            Ok(b) => b,
            Err(_e) => {
                return Err(Error::CryptoError);
            },
        };
        // Only the 65-byte uncompressed point form can be handed to the
        // encryption backend; a compressed or otherwise-sized key is
        // malformed recipient key material.
        if public_key.len() != 65 {
            return Err(Error::CryptoError);
        }
        let v = self.to_json_value();
        let text = crate::json::json_to_string(&v);
        let bytes = text.as_str().as_bytes_vec();
        let ct = crate::webpush::ece_encrypt(
            public_key.as_slice(),
            auth_secret.as_slice(),
            bytes.as_slice(),
        )?;
        let encrypted = crate::encoding::b64url_encode_nopad(ct.as_slice());
        proof {
            vstd::utf8::encode_utf8_valid_utf8(text@);
            vstd::utf8::encode_utf8_decode_utf8(text@);
            crate::json::lemma_json_round_trip(payload_json(self.entries@));
            lemma_payload_json_of(self.entries@);
            assert forall|d: Seq<u8>|
                keypair_matches(d, public_key@) && ec_importable(d, public_key@) implies sendtab_open(
                encrypted@,
                d,
                public_key@,
                auth_secret@,
            ) == Ok::<Seq<(Seq<char>, Seq<char>)>, Error>(tab_views(self.entries@)) by {
                assert(webpush_open_of(d, public_key@, auth_secret@, ct@) == Some(bytes@));
            }
        }
        Ok(EncryptedSendTabPayload { encrypted })
    }
}

/// The payload round trip: when the ciphertext carries the tabs for every
/// matching private half (which is what `encrypt` ensures of its result),
/// decrypting with this device's own generated key material yields exactly
/// those tabs.
pub proof fn lemma_send_tab_round_trip(tabs: Seq<(Seq<char>, Seq<char>)>, keys: PrivateSendTabKeys, encrypted: Seq<char>)
    requires
        keypair_matches(keys.private_key@, keys.public_key@),
        ec_importable(keys.private_key@, keys.public_key@),
        forall|d: Seq<u8>|
            keypair_matches(d, keys.public_key@) && ec_importable(d, keys.public_key@)
                ==> sendtab_open(encrypted, d, keys.public_key@, keys.auth_secret@) == Ok::<
                Seq<(Seq<char>, Seq<char>)>,
                Error,
            >(tabs),
    ensures
        sendtab_open(encrypted, keys.private_key@, keys.public_key@, keys.auth_secret@) == Ok::<
            Seq<(Seq<char>, Seq<char>)>,
            Error,
        >(tabs),
{
}

/// Build the body of an invoke call for one target device: look the command
/// up among the target's advertised commands, unwrap the registration blob
/// with the local key-encrypting key, encrypt the payload against the
/// unwrapped public keys, and frame the ciphertext.
pub fn build_send_command(
    kek: &KeyEncryptingKey,
    target: &DeviceResponse,
    send_tab_payload: &SendTabPayload,
) -> (r: Result<JsonValue, Error>)
    requires
        target.available_commands.wf(),
    ensures
        !target.available_commands@.contains_key(COMMAND_NAME@) <==> (r matches Err(e)
            && e is UnsupportedCommand),
        target.available_commands@.contains_key(COMMAND_NAME@) ==> (match *kek {
            KeyEncryptingKey::SyncKeys(ksync, kxcs) => {
                let opened = command_data_opens(
                    target.available_commands@[COMMAND_NAME@]@,
                    ksync@,
                    kxcs@,
                );
                &&& (opened matches Err(e) ==> r == Err::<JsonValue, Error>(e))
                &&& (match r {
                    Ok(v) => opened matches Ok(pk) && (exists|enc: Seq<char>|
                        v@ == JsonSpec::Obj(seq![("encrypted"@, JsonSpec::Str(enc))])
                            && (b64_decode_of(true, pk.0) matches Some(pkb) && b64_decode_of(
                            true,
                            pk.1,
                        ) matches Some(aub) && forall|d: Seq<u8>|
                            keypair_matches(d, pkb) && ec_importable(d, pkb) ==> sendtab_open(
                                enc,
                                d,
                                pkb,
                                aub,
                            ) == Ok::<Seq<(Seq<char>, Seq<char>)>, Error>(
                                tab_views(send_tab_payload.entries@),
                            ))),
                    Err(_e) => true,
                })
            },
        }),
{
    let (ksync, kxcs) = match kek {
        KeyEncryptingKey::SyncKeys(ksync, kxcs) => (ksync, kxcs),
    };
    let command = match target.available_commands.get(COMMAND_NAME) {
        Some(c) => c,
        None => {
            return Err(Error::UnsupportedCommand(String::from_str("Send Tab")));
        },
    };
    let v = match crate::json::json_parse(command.as_str()) {
        Some(v) => v,
        None => {
            return Err(Error::JsonError);
        },
    };
    let bundle = SendTabKeysPayload::from_json_value(&v)?;
    let public_keys = bundle.decrypt(ksync.as_slice(), kxcs.as_slice())?;
    let ghost gpk = public_keys;
    let encrypted_payload = match send_tab_payload.encrypt(public_keys) {
        Ok(e) => e,
        Err(e) => {
            proof {
                assert(!(e is UnsupportedCommand));
            }
            return Err(e);
        },
    };
    let out = encrypted_payload.to_json_value();
    proof {
        assert(out@ == JsonSpec::Obj(
            seq![("encrypted"@, JsonSpec::Str(encrypted_payload.encrypted@))],
        ));
    }
    Ok(out)
}

} // verus!
