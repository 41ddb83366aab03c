//! Serialization of the account state. The state round trip is part of the
//! library's contract: serializing a state and reading it back yields a state
//! that serializes to the identical text.

use vstd::prelude::*;
use crate::config::Config;
use crate::errors::Error;
use crate::http_client::push_member;
use crate::json::{jser, jv_member_views, sparse_doc, JsonSpec, JsonValue};
use crate::oauth::RefreshToken;
use crate::scoped_keys::ScopedKey;
use crate::strmap::StringMap;
use crate::wire::{str_entries_members, str_entry_views};

verus! {

broadcast use vstd::seq::group_seq_axioms, vstd::std_specs::vec::group_vec_axioms;

/// The persisted account state. `last_handled_command` is the high-water
/// mark: the last server batch index fully processed and persisted. The
/// cached command key material in `commands_data` is never transmitted
/// verbatim; only its wrapped public projection is published.
pub struct StateV2 {
    pub config: Config,
    pub refresh_token: Option<RefreshToken>,
    pub scoped_keys: StringMap<ScopedKey>,
    pub last_handled_command: Option<u64>,
    pub commands_data: StringMap<String>,
}

impl StateV2 {
    /// The maps hold no repeated key.
    pub open spec fn wf(&self) -> bool {
        self.scoped_keys.wf() && self.commands_data.wf()
    }
}

/// The members of one scoped key's JSON object.
pub open spec fn scoped_key_json(k: ScopedKey) -> JsonSpec {
    JsonSpec::Obj(seq![("kid"@, JsonSpec::Str(k.kid@)), ("k"@, JsonSpec::Str(k.k@))])
}

/// The scoped-keys map as JSON members, in insertion order.
pub open spec fn scoped_keys_members(s: Seq<(String, ScopedKey)>) -> Seq<(Seq<char>, JsonSpec)> {
    Seq::new(s.len(), |i: int| (s[i].0@, scoped_key_json(s[i].1)))
}

/// The JSON document of a whole state.
pub open spec fn state_json(s: StateV2) -> JsonSpec {
    JsonSpec::Obj(
        seq![
            (
                "config"@,
                JsonSpec::Obj(
                    seq![
                        ("content_url"@, JsonSpec::Str(s.config.content_url@)),
                        ("client_id"@, JsonSpec::Str(s.config.client_id@)),
                        ("redirect_uri"@, JsonSpec::Str(s.config.redirect_uri@)),
                    ],
                ),
            ),
            (
                "refresh_token"@,
                match s.refresh_token {
                    None => JsonSpec::Null,
                    Some(t) => JsonSpec::Str(t.token@),
                },
            ),
            ("scoped_keys"@, JsonSpec::Obj(scoped_keys_members(s.scoped_keys.entries_seq()))),
            (
                "last_handled_command"@,
                match s.last_handled_command {
                    None => JsonSpec::Null,
                    Some(n) => JsonSpec::UInt(n),
                },
            ),
            (
                "commands_data"@,
                JsonSpec::Obj(str_entries_members(str_entry_views(s.commands_data.entries_seq()))),
            ),
        ],
    )
}

/// Serialize a state to its canonical JSON text.
pub fn state_to_json(state: &StateV2) -> (r: Result<String, Error>)
    ensures
        r is Ok,
        r.unwrap()@ == jser(state_json(*state)),
{
    let v = state_to_json_value(state);
    Ok(crate::json::json_to_string(&v))
}

/// The state as its JSON document.
fn state_to_json_value(state: &StateV2) -> (r: JsonValue)
    ensures
        r@ == state_json(*state),
{
    let mut config_members: Vec<(String, JsonValue)> = Vec::new();
    proof {
        assert(jv_member_views(config_members@) =~= Seq::<(Seq<char>, JsonSpec)>::empty());
    }
    push_member(&mut config_members, "content_url", JsonValue::Str(state.config.content_url.clone()));
    push_member(&mut config_members, "client_id", JsonValue::Str(state.config.client_id.clone()));
    push_member(
        &mut config_members,
        "redirect_uri",
        JsonValue::Str(state.config.redirect_uri.clone()),
    );
    proof {
        assert(jv_member_views(config_members@) =~= seq![
            ("content_url"@, JsonSpec::Str(state.config.content_url@)),
            ("client_id"@, JsonSpec::Str(state.config.client_id@)),
            ("redirect_uri"@, JsonSpec::Str(state.config.redirect_uri@)),
        ]);
    }
    let refresh = match &state.refresh_token {
        None => JsonValue::Null,
        Some(t) => JsonValue::Str(t.token.clone()),
    };
    let scoped = scoped_keys_to_json(&state.scoped_keys);
    let last = match &state.last_handled_command {
        None => JsonValue::Null,
        Some(n) => JsonValue::UInt(*n),
    };
    let commands = crate::wire::strmap_to_json(&state.commands_data);
    let mut members: Vec<(String, JsonValue)> = Vec::new();
    proof {
        assert(jv_member_views(members@) =~= Seq::<(Seq<char>, JsonSpec)>::empty());
    }
    push_member(&mut members, "config", JsonValue::Obj(config_members));
    push_member(&mut members, "refresh_token", refresh);
    push_member(&mut members, "scoped_keys", scoped);
    push_member(&mut members, "last_handled_command", last);
    push_member(&mut members, "commands_data", commands);
    proof {
        assert(jv_member_views(members@) =~~= state_json(*state)->Obj_0);
        assert(JsonSpec::Obj(jv_member_views(members@)) =~~= state_json(*state));
    }
    JsonValue::Obj(members)
}

/// The scoped-keys map as a JSON object.
#[verifier::loop_isolation(false)]
fn scoped_keys_to_json(m: &StringMap<ScopedKey>) -> (r: JsonValue)
    ensures
        r@ == JsonSpec::Obj(scoped_keys_members(m.entries_seq())),
{
    let entries = m.entries();
    let n = entries.len();
    let mut members: Vec<(String, JsonValue)> = Vec::new();
    let mut i: usize = 0;
    proof {
        assert(jv_member_views(members@) =~= scoped_keys_members(
            m.entries_seq().subrange(0, 0),
        ));
    }
    while i < n
        invariant
            n == entries@.len(),
            entries@ == m.entries_seq(),
            i <= n,
            jv_member_views(members@) == scoped_keys_members(m.entries_seq().subrange(0, i as int)),
        decreases n - i,
    {
        let mut km: Vec<(String, JsonValue)> = Vec::new();
        proof {
            assert(jv_member_views(km@) =~= Seq::<(Seq<char>, JsonSpec)>::empty());
        }
        push_member(&mut km, "kid", JsonValue::Str(entries[i].1.kid.clone()));
        push_member(&mut km, "k", JsonValue::Str(entries[i].1.k.clone()));
        let key = entries[i].0.clone();
        let ghost old_members = members@;
        members.push((key, JsonValue::Obj(km)));
        proof {
            assert(jv_member_views(km@) =~= scoped_key_json(entries@[i as int].1)->Obj_0);
            assert(members@ =~= old_members.push(
                (members@.last().0, members@.last().1),
            ));
            crate::json::lemma_jv_member_views_snoc(old_members, members@.last().0, members@.last().1);
            assert(crate::json::jv_view(members@.last().1) =~~= scoped_key_json(
                entries@[i as int].1,
            ));
            assert(jv_member_views(members@) =~= scoped_keys_members(
                m.entries_seq().subrange(0, i + 1 as int),
            ));
        }
        i = i + 1;
    }
    proof {
        assert(m.entries_seq().subrange(0, n as int) =~= m.entries_seq());
    }
    JsonValue::Obj(members)
}

/// Where a state document's five fields sit.
proof fn lemma_state_doc_fields(st: StateV2)
    ensures
        crate::json::jget(state_json(st), "config"@) == Some(
            JsonSpec::Obj(
                seq![
                    ("content_url"@, JsonSpec::Str(st.config.content_url@)),
                    ("client_id"@, JsonSpec::Str(st.config.client_id@)),
                    ("redirect_uri"@, JsonSpec::Str(st.config.redirect_uri@)),
                ],
            ),
        ),
        crate::json::jget(state_json(st), "refresh_token"@) == Some(
            match st.refresh_token {
                None => JsonSpec::Null,
                Some(t) => JsonSpec::Str(t.token@),
            },
        ),
        crate::json::jget(state_json(st), "scoped_keys"@) == Some(
            JsonSpec::Obj(scoped_keys_members(st.scoped_keys.entries_seq())),
        ),
        crate::json::jget(state_json(st), "last_handled_command"@) == Some(
            match st.last_handled_command {
                None => JsonSpec::Null,
                Some(n) => JsonSpec::UInt(n),
            },
        ),
        crate::json::jget(state_json(st), "commands_data"@) == Some(
            JsonSpec::Obj(str_entries_members(str_entry_views(st.commands_data.entries_seq()))),
        ),
{
    reveal_strlit("config");
    reveal_strlit("refresh_token");
    reveal_strlit("scoped_keys");
    reveal_strlit("last_handled_command");
    reveal_strlit("commands_data");
    let ms = state_json(st)->Obj_0;
    let ms1 = ms.drop_first();
    let ms2 = ms1.drop_first();
    let ms3 = ms2.drop_first();
    let ms4 = ms3.drop_first();
    assert(ms1 =~= ms.subrange(1, 5) && ms2 =~= ms.subrange(2, 5) && ms3 =~= ms.subrange(3, 5)
        && ms4 =~= ms.subrange(4, 5));
    assert("config"@.len() == 6 && "refresh_token"@.len() == 13 && "scoped_keys"@.len() == 11
        && "last_handled_command"@.len() == 20 && "commands_data"@.len() == 13);
    assert("refresh_token"@ != "commands_data"@) by {
        assert("refresh_token"@[0] == 'r' && "commands_data"@[0] == 'c');
    }
    assert(crate::json::obj_lookup(ms1, "refresh_token"@) == Some(ms[1].1));
    assert(crate::json::jget(state_json(st), "refresh_token"@) == Some(ms[1].1));
    assert(crate::json::obj_lookup(ms2, "scoped_keys"@) == Some(ms[2].1));
    assert(crate::json::obj_lookup(ms1, "scoped_keys"@) == crate::json::obj_lookup(
        ms2,
        "scoped_keys"@,
    ));
    assert(crate::json::jget(state_json(st), "scoped_keys"@) == Some(ms[2].1));
    assert(crate::json::obj_lookup(ms3, "last_handled_command"@) == Some(ms[3].1));
    assert(crate::json::obj_lookup(ms2, "last_handled_command"@) == crate::json::obj_lookup(
        ms3,
        "last_handled_command"@,
    ));
    assert(crate::json::obj_lookup(ms1, "last_handled_command"@) == crate::json::obj_lookup(
        ms2,
        "last_handled_command"@,
    ));
    assert(crate::json::jget(state_json(st), "last_handled_command"@) == Some(ms[3].1));
    assert(crate::json::obj_lookup(ms4, "commands_data"@) == Some(ms[4].1));
    assert(crate::json::obj_lookup(ms3, "commands_data"@) == crate::json::obj_lookup(
        ms4,
        "commands_data"@,
    ));
    assert(crate::json::obj_lookup(ms2, "commands_data"@) == crate::json::obj_lookup(
        ms3,
        "commands_data"@,
    ));
    assert(crate::json::obj_lookup(ms1, "commands_data"@) == crate::json::obj_lookup(
        ms2,
        "commands_data"@,
    ));
    assert(crate::json::jget(state_json(st), "commands_data"@) == Some(ms[4].1));
}

/// Where the configuration's three fields sit.
proof fn lemma_config_doc_fields(st: StateV2)
    ensures
        ({
            let cj = JsonSpec::Obj(
                seq![
                    ("content_url"@, JsonSpec::Str(st.config.content_url@)),
                    ("client_id"@, JsonSpec::Str(st.config.client_id@)),
                    ("redirect_uri"@, JsonSpec::Str(st.config.redirect_uri@)),
                ],
            );
            &&& crate::json::jget(cj, "content_url"@) == Some(
                JsonSpec::Str(st.config.content_url@),
            )
            &&& crate::json::jget(cj, "client_id"@) == Some(JsonSpec::Str(st.config.client_id@))
            &&& crate::json::jget(cj, "redirect_uri"@) == Some(
                JsonSpec::Str(st.config.redirect_uri@),
            )
        }),
{
    reveal_strlit("content_url");
    reveal_strlit("client_id");
    reveal_strlit("redirect_uri");
    let cj = JsonSpec::Obj(
        seq![
            ("content_url"@, JsonSpec::Str(st.config.content_url@)),
            ("client_id"@, JsonSpec::Str(st.config.client_id@)),
            ("redirect_uri"@, JsonSpec::Str(st.config.redirect_uri@)),
        ],
    );
    let ms = cj->Obj_0;
    let ms1 = ms.drop_first();
    let ms2 = ms1.drop_first();
    assert(ms1 =~= ms.subrange(1, 3) && ms2 =~= ms.subrange(2, 3));
    assert("content_url"@.len() == 11 && "client_id"@.len() == 9 && "redirect_uri"@.len() == 12);
    assert(crate::json::jget(cj, "content_url"@) == Some(JsonSpec::Str(st.config.content_url@)));
    assert(crate::json::obj_lookup(ms1, "client_id"@) == Some(JsonSpec::Str(st.config.client_id@)));
    assert(crate::json::jget(cj, "client_id"@) == Some(JsonSpec::Str(st.config.client_id@)));
    assert(crate::json::obj_lookup(ms2, "redirect_uri"@) == Some(
        JsonSpec::Str(st.config.redirect_uri@),
    ));
    assert(crate::json::obj_lookup(ms1, "redirect_uri"@) == crate::json::obj_lookup(
        ms2,
        "redirect_uri"@,
    ));
    assert(crate::json::jget(cj, "redirect_uri"@) == Some(JsonSpec::Str(st.config.redirect_uri@)));
}

/// The serialized form of two states is the same exactly when their JSON
/// documents are: re-serializing what `state_from_json` returned for a
/// serialized state yields the identical text (the state round trip).
pub proof fn lemma_state_round_trip(a: StateV2, b: StateV2)
    requires
        sparse_doc(jser(state_json(a))) == Some(state_json(b)),
    ensures
        jser(state_json(b)) == jser(state_json(a)),
{
    crate::json::lemma_json_round_trip(state_json(a));
}

/// Read a state back from JSON text. Only the canonical text of a state is
/// accepted: what comes back serializes to exactly the input — and the
/// canonical text of any well-formed state is accepted.
#[verifier::loop_isolation(false)]
#[verifier::rlimit(100)]
pub fn state_from_json(data: &str) -> (r: Result<StateV2, Error>)
    ensures
        (match r {
            Ok(s) => sparse_doc(data@) == Some(state_json(s)) && s.wf(),
            Err(e) => e is JsonError,
        }),
        forall|st: StateV2|
            (st.wf() && sparse_doc(data@) == Some(#[trigger] state_json(st))) ==> r is Ok,
{
    let v = match crate::json::json_parse(data) {
        Some(v) => v,
        None => {
            return Err(Error::JsonError);
        },
    };
    let config_v = match v.get("config") {
        Some(f) => f,
        None => {
            proof {
                assert forall|st: StateV2|
                    !(st.wf() && sparse_doc(data@) == Some(#[trigger] state_json(st))) by {
                    if st.wf() && sparse_doc(data@) == Some(state_json(st)) {
                        lemma_state_doc_fields(st);
                        lemma_config_doc_fields(st);
                        st.scoped_keys.lemma_wf_is_unique_keys();
                        st.commands_data.lemma_wf_is_unique_keys();
                        assert forall|a: int, b: int|
                            0 <= a < b < str_entry_views(st.commands_data.entries_seq()).len()
                                implies str_entry_views(st.commands_data.entries_seq())[a].0
                            != str_entry_views(st.commands_data.entries_seq())[b].0 by {}
                    }
                }
            }
            return Err(Error::JsonError);
        },
    };
    let content_url = match crate::wire::get_str_field(config_v, "content_url") {
        Some(t) => t.clone(),
        None => {
            proof {
                assert forall|st: StateV2|
                    !(st.wf() && sparse_doc(data@) == Some(#[trigger] state_json(st))) by {
                    if st.wf() && sparse_doc(data@) == Some(state_json(st)) {
                        lemma_state_doc_fields(st);
                        lemma_config_doc_fields(st);
                        st.scoped_keys.lemma_wf_is_unique_keys();
                        st.commands_data.lemma_wf_is_unique_keys();
                        assert forall|a: int, b: int|
                            0 <= a < b < str_entry_views(st.commands_data.entries_seq()).len()
                                implies str_entry_views(st.commands_data.entries_seq())[a].0
                            != str_entry_views(st.commands_data.entries_seq())[b].0 by {}
                    }
                }
            }
            return Err(Error::JsonError);
        },
    };
    let client_id = match crate::wire::get_str_field(config_v, "client_id") {
        Some(t) => t.clone(),
        None => {
            proof {
                assert forall|st: StateV2|
                    !(st.wf() && sparse_doc(data@) == Some(#[trigger] state_json(st))) by {
                    if st.wf() && sparse_doc(data@) == Some(state_json(st)) {
                        lemma_state_doc_fields(st);
                        lemma_config_doc_fields(st);
                        st.scoped_keys.lemma_wf_is_unique_keys();
                        st.commands_data.lemma_wf_is_unique_keys();
                        assert forall|a: int, b: int|
                            0 <= a < b < str_entry_views(st.commands_data.entries_seq()).len()
                                implies str_entry_views(st.commands_data.entries_seq())[a].0
                            != str_entry_views(st.commands_data.entries_seq())[b].0 by {}
                    }
                }
            }
            return Err(Error::JsonError);
        },
    };
    let redirect_uri = match crate::wire::get_str_field(config_v, "redirect_uri") {
        Some(t) => t.clone(),
        None => {
            proof {
                assert forall|st: StateV2|
                    !(st.wf() && sparse_doc(data@) == Some(#[trigger] state_json(st))) by {
                    if st.wf() && sparse_doc(data@) == Some(state_json(st)) {
                        lemma_state_doc_fields(st);
                        lemma_config_doc_fields(st);
                        st.scoped_keys.lemma_wf_is_unique_keys();
                        st.commands_data.lemma_wf_is_unique_keys();
                        assert forall|a: int, b: int|
                            0 <= a < b < str_entry_views(st.commands_data.entries_seq()).len()
                                implies str_entry_views(st.commands_data.entries_seq())[a].0
                            != str_entry_views(st.commands_data.entries_seq())[b].0 by {}
                    }
                }
            }
            return Err(Error::JsonError);
        },
    };
    let refresh_field = match v.get("refresh_token") {
        Some(f) => f,
        None => {
            proof {
                assert forall|st: StateV2|
                    !(st.wf() && sparse_doc(data@) == Some(#[trigger] state_json(st))) by {
                    if st.wf() && sparse_doc(data@) == Some(state_json(st)) {
                        lemma_state_doc_fields(st);
                        lemma_config_doc_fields(st);
                        st.scoped_keys.lemma_wf_is_unique_keys();
                        st.commands_data.lemma_wf_is_unique_keys();
                        assert forall|a: int, b: int|
                            0 <= a < b < str_entry_views(st.commands_data.entries_seq()).len()
                                implies str_entry_views(st.commands_data.entries_seq())[a].0
                            != str_entry_views(st.commands_data.entries_seq())[b].0 by {}
                    }
                }
            }
            return Err(Error::JsonError);
        },
    };
    let refresh_token: Option<RefreshToken> = if refresh_field.is_null() {
        None
    } else {
        match refresh_field.as_str() {
            Some(t) => Some(RefreshToken { token: t.clone() }),
            None => {
                proof {
                assert forall|st: StateV2|
                    !(st.wf() && sparse_doc(data@) == Some(#[trigger] state_json(st))) by {
                    if st.wf() && sparse_doc(data@) == Some(state_json(st)) {
                        lemma_state_doc_fields(st);
                        lemma_config_doc_fields(st);
                        st.scoped_keys.lemma_wf_is_unique_keys();
                        st.commands_data.lemma_wf_is_unique_keys();
                        assert forall|a: int, b: int|
                            0 <= a < b < str_entry_views(st.commands_data.entries_seq()).len()
                                implies str_entry_views(st.commands_data.entries_seq())[a].0
                            != str_entry_views(st.commands_data.entries_seq())[b].0 by {}
                    }
                }
            }
                return Err(Error::JsonError);
            },
        }
    };
    let scoped_keys = match v.get("scoped_keys") {
        Some(f) => match scoped_keys_from_json(f) {
            Ok(m) => m,
            Err(e) => {
                proof {
                assert forall|st: StateV2|
                    !(st.wf() && sparse_doc(data@) == Some(#[trigger] state_json(st))) by {
                    if st.wf() && sparse_doc(data@) == Some(state_json(st)) {
                        lemma_state_doc_fields(st);
                        lemma_config_doc_fields(st);
                        st.scoped_keys.lemma_wf_is_unique_keys();
                        st.commands_data.lemma_wf_is_unique_keys();
                        assert forall|a: int, b: int|
                            0 <= a < b < str_entry_views(st.commands_data.entries_seq()).len()
                                implies str_entry_views(st.commands_data.entries_seq())[a].0
                            != str_entry_views(st.commands_data.entries_seq())[b].0 by {}
                    }
                }
            }
                return Err(e);
            },
        },
        None => {
            proof {
                assert forall|st: StateV2|
                    !(st.wf() && sparse_doc(data@) == Some(#[trigger] state_json(st))) by {
                    if st.wf() && sparse_doc(data@) == Some(state_json(st)) {
                        lemma_state_doc_fields(st);
                        lemma_config_doc_fields(st);
                        st.scoped_keys.lemma_wf_is_unique_keys();
                        st.commands_data.lemma_wf_is_unique_keys();
                        assert forall|a: int, b: int|
                            0 <= a < b < str_entry_views(st.commands_data.entries_seq()).len()
                                implies str_entry_views(st.commands_data.entries_seq())[a].0
                            != str_entry_views(st.commands_data.entries_seq())[b].0 by {}
                    }
                }
            }
            return Err(Error::JsonError);
        },
    };
    let last_field = match v.get("last_handled_command") {
        Some(f) => f,
        None => {
            proof {
                assert forall|st: StateV2|
                    !(st.wf() && sparse_doc(data@) == Some(#[trigger] state_json(st))) by {
                    if st.wf() && sparse_doc(data@) == Some(state_json(st)) {
                        lemma_state_doc_fields(st);
                        lemma_config_doc_fields(st);
                        st.scoped_keys.lemma_wf_is_unique_keys();
                        st.commands_data.lemma_wf_is_unique_keys();
                        assert forall|a: int, b: int|
                            0 <= a < b < str_entry_views(st.commands_data.entries_seq()).len()
                                implies str_entry_views(st.commands_data.entries_seq())[a].0
                            != str_entry_views(st.commands_data.entries_seq())[b].0 by {}
                    }
                }
            }
            return Err(Error::JsonError);
        },
    };
    let last_handled_command: Option<u64> = if last_field.is_null() {
        None
    } else {
        match last_field.as_u64() {
            Some(n) => Some(n),
            None => {
                proof {
                assert forall|st: StateV2|
                    !(st.wf() && sparse_doc(data@) == Some(#[trigger] state_json(st))) by {
                    if st.wf() && sparse_doc(data@) == Some(state_json(st)) {
                        lemma_state_doc_fields(st);
                        lemma_config_doc_fields(st);
                        st.scoped_keys.lemma_wf_is_unique_keys();
                        st.commands_data.lemma_wf_is_unique_keys();
                        assert forall|a: int, b: int|
                            0 <= a < b < str_entry_views(st.commands_data.entries_seq()).len()
                                implies str_entry_views(st.commands_data.entries_seq())[a].0
                            != str_entry_views(st.commands_data.entries_seq())[b].0 by {}
                    }
                }
            }
                return Err(Error::JsonError);
            },
        }
    };
    let commands_data = match v.get("commands_data") {
        Some(f) => match crate::wire::strmap_from_json(f) {
            Ok(m) => m,
            Err(e) => {
                proof {
                assert forall|st: StateV2|
                    !(st.wf() && sparse_doc(data@) == Some(#[trigger] state_json(st))) by {
                    if st.wf() && sparse_doc(data@) == Some(state_json(st)) {
                        lemma_state_doc_fields(st);
                        lemma_config_doc_fields(st);
                        st.scoped_keys.lemma_wf_is_unique_keys();
                        st.commands_data.lemma_wf_is_unique_keys();
                        assert forall|a: int, b: int|
                            0 <= a < b < str_entry_views(st.commands_data.entries_seq()).len()
                                implies str_entry_views(st.commands_data.entries_seq())[a].0
                            != str_entry_views(st.commands_data.entries_seq())[b].0 by {}
                    }
                }
            }
                return Err(e);
            },
        },
        None => {
            proof {
                assert forall|st: StateV2|
                    !(st.wf() && sparse_doc(data@) == Some(#[trigger] state_json(st))) by {
                    if st.wf() && sparse_doc(data@) == Some(state_json(st)) {
                        lemma_state_doc_fields(st);
                        lemma_config_doc_fields(st);
                        st.scoped_keys.lemma_wf_is_unique_keys();
                        st.commands_data.lemma_wf_is_unique_keys();
                        assert forall|a: int, b: int|
                            0 <= a < b < str_entry_views(st.commands_data.entries_seq()).len()
                                implies str_entry_views(st.commands_data.entries_seq())[a].0
                            != str_entry_views(st.commands_data.entries_seq())[b].0 by {}
                    }
                }
            }
            return Err(Error::JsonError);
        },
    };
    let state = StateV2 {
        config: Config { content_url, client_id, redirect_uri },
        refresh_token,
        scoped_keys,
        last_handled_command,
        commands_data,
    };
    // Accept exactly the canonical text: compare canonical serializations,
    // which the parse lemma makes injective.
    let canon = state_to_json_value(&state);
    let canon_text = crate::json::json_to_string(&canon);
    let own_text = crate::json::json_to_string(&v);
    proof {
        crate::json::lemma_json_round_trip(v@);
        crate::json::lemma_json_round_trip(state_json(state));
        assert forall|st: StateV2|
            (st.wf() && sparse_doc(data@) == Some(#[trigger] state_json(st))) implies state_json(
            state,
        ) == state_json(st) by {
            lemma_state_doc_fields(st);
            lemma_config_doc_fields(st);
            st.scoped_keys.lemma_wf_is_unique_keys();
            st.commands_data.lemma_wf_is_unique_keys();
            assert(scoped_keys_members(state.scoped_keys.entries_seq()) == scoped_keys_members(
                st.scoped_keys.entries_seq(),
            ));
            assert forall|a: int, b: int|
                0 <= a < b < str_entry_views(st.commands_data.entries_seq()).len()
                    implies str_entry_views(st.commands_data.entries_seq())[a].0 != str_entry_views(
                st.commands_data.entries_seq(),
            )[b].0 by {}
            assert(JsonSpec::Obj(
                str_entries_members(str_entry_views(state.commands_data.entries_seq())),
            ) == JsonSpec::Obj(str_entries_members(str_entry_views(st.commands_data.entries_seq()))));
            assert(state_json(state)->Obj_0 =~~= state_json(st)->Obj_0);
            assert(state_json(state) =~~= state_json(st));
        }
    }
    if !crate::strutil::str_eq(canon_text.as_str(), own_text.as_str()) {
        return Err(Error::JsonError);
    }
    Ok(state)
}

/// Where one scoped key's fields sit in its JSON object.
proof fn lemma_scoped_key_fields(k: ScopedKey)
    ensures
        crate::json::jget(scoped_key_json(k), "kid"@) == Some(JsonSpec::Str(k.kid@)),
        crate::json::jget(scoped_key_json(k), "k"@) == Some(JsonSpec::Str(k.k@)),
{
    reveal_strlit("kid");
    reveal_strlit("k");
    let ms = scoped_key_json(k)->Obj_0;
    assert(ms.drop_first() =~= seq![("k"@, JsonSpec::Str(k.k@))]);
    assert("kid"@.len() == 3 && "k"@.len() == 1);
    assert(crate::json::jget(scoped_key_json(k), "kid"@) == Some(JsonSpec::Str(k.kid@)));
    assert(crate::json::obj_lookup(ms.drop_first(), "k"@) == Some(JsonSpec::Str(k.k@)));
    assert(crate::json::jget(scoped_key_json(k), "k"@) == Some(JsonSpec::Str(k.k@)));
}

/// The scoped-keys map back from its JSON object; a repeated scope or a
/// malformed entry is an error. The canonical object of any unique-keyed map
/// is accepted and reproduces exactly its entries.
#[verifier::loop_isolation(false)]
#[verifier::rlimit(100)]
fn scoped_keys_from_json(v: &JsonValue) -> (r: Result<StringMap<ScopedKey>, Error>)
    ensures
        (match r {
            Ok(m) => m.wf(),
            Err(e) => e is JsonError,
        }),
        forall|entries: Seq<(String, ScopedKey)>|
            (v@ == JsonSpec::Obj(#[trigger] scoped_keys_members(entries))
                && crate::strmap::unique_keys(entries)) ==> (r matches Ok(m)
                && scoped_keys_members(m.entries_seq()) == scoped_keys_members(entries)),
{
    let members = match v.as_obj() {
        Some(members) => members,
        None => {
            return Err(Error::JsonError);
        },
    };
    let n = members.len();
    let mut out: StringMap<ScopedKey> = StringMap::new();
    let mut i: usize = 0;
    proof {
        crate::json::lemma_jv_member_views_index(members@);
        assert forall|entries: Seq<(String, ScopedKey)>|
            v@ == JsonSpec::Obj(#[trigger] scoped_keys_members(entries)) implies scoped_keys_members(
            out.entries_seq(),
        ) =~= scoped_keys_members(entries).subrange(0, 0) by {}
    }
    while i < n
        invariant
            n == members@.len(),
            i <= n,
            out.wf(),
            out.entries_seq().len() == i,
            forall|entries: Seq<(String, ScopedKey)>|
                v@ == JsonSpec::Obj(#[trigger] scoped_keys_members(entries))
                    ==> scoped_keys_members(out.entries_seq()) == scoped_keys_members(
                    entries,
                ).subrange(0, i as int),
        decreases n - i,
    {
        let scope = members[i].0.clone();
        let kid = match crate::wire::get_str_field(&members[i].1, "kid") {
            Some(t) => t.clone(),
            None => {
                proof {
                    assert forall|entries: Seq<(String, ScopedKey)>|
                        v@ != JsonSpec::Obj(#[trigger] scoped_keys_members(entries)) by {
                        if v@ == JsonSpec::Obj(scoped_keys_members(entries)) {
                            assert(crate::json::jv_member_views(members@)[i as int]
                                == scoped_keys_members(entries)[i as int]);
                            lemma_scoped_key_fields(entries[i as int].1);
                        }
                    }
                }
                return Err(Error::JsonError);
            },
        };
        let k = match crate::wire::get_str_field(&members[i].1, "k") {
            Some(t) => t.clone(),
            None => {
                proof {
                    assert forall|entries: Seq<(String, ScopedKey)>|
                        v@ != JsonSpec::Obj(#[trigger] scoped_keys_members(entries)) by {
                        if v@ == JsonSpec::Obj(scoped_keys_members(entries)) {
                            assert(crate::json::jv_member_views(members@)[i as int]
                                == scoped_keys_members(entries)[i as int]);
                            lemma_scoped_key_fields(entries[i as int].1);
                        }
                    }
                }
                return Err(Error::JsonError);
            },
        };
        if out.contains_key(scope.as_str()) {
            proof {
                out.lemma_contains_has_entry(scope@);
                assert forall|entries: Seq<(String, ScopedKey)>|
                    (v@ == JsonSpec::Obj(#[trigger] scoped_keys_members(entries))
                        ==> !crate::strmap::unique_keys(entries)) by {
                    if v@ == JsonSpec::Obj(scoped_keys_members(entries)) {
                        let t = choose|t: int|
                            0 <= t < out.entries_seq().len() && (#[trigger] out.entries_seq()[t]).0@
                                == scope@;
                        assert(scoped_keys_members(out.entries_seq())[t] == scoped_keys_members(
                            entries,
                        ).subrange(0, i as int)[t]);
                        assert(entries[t].0@ == scope@);
                        assert(crate::json::jv_member_views(members@)[i as int]
                            == scoped_keys_members(entries)[i as int]);
                        assert(entries[i as int].0@ == scope@);
                    }
                }
            }
            return Err(Error::JsonError);
        }
        let ghost old_entries = out.entries_seq();
        let ghost gkid = kid@;
        let ghost gk = k@;
        let ghost gscope = scope@;
        out.insert(scope, ScopedKey { kid, k });
        proof {
            assert(out.entries_seq().drop_last() =~= old_entries);
            assert forall|entries: Seq<(String, ScopedKey)>|
                v@ == JsonSpec::Obj(#[trigger] scoped_keys_members(entries))
                    implies scoped_keys_members(out.entries_seq()) == scoped_keys_members(
                entries,
            ).subrange(0, i + 1 as int) by {
                assert(crate::json::jv_member_views(members@)[i as int] == scoped_keys_members(
                    entries,
                )[i as int]);
                lemma_scoped_key_fields(entries[i as int].1);
                assert(gscope == entries[i as int].0@);
                assert(gkid == entries[i as int].1.kid@ && gk == entries[i as int].1.k@);
                assert(scoped_keys_members(out.entries_seq()) =~= scoped_keys_members(
                    entries,
                ).subrange(0, i + 1 as int)) by {
                    assert forall|t: int|
                        0 <= t < i + 1 implies scoped_keys_members(out.entries_seq())[t]
                        == scoped_keys_members(entries).subrange(0, i + 1 as int)[t] by {
                        if t < i {
                            assert(out.entries_seq()[t] == old_entries[t]);
                            assert(scoped_keys_members(old_entries)[t] == scoped_keys_members(
                                entries,
                            ).subrange(0, i as int)[t]);
                        } else {
                            assert(out.entries_seq()[t] == out.entries_seq().last());
                            assert(scoped_key_json(out.entries_seq()[t].1) =~~= scoped_key_json(
                                entries[t].1,
                            ));
                        }
                    }
                }
            }
        }
        i = i + 1;
    }
    proof {
        assert forall|entries: Seq<(String, ScopedKey)>|
            v@ == JsonSpec::Obj(#[trigger] scoped_keys_members(entries))
                implies scoped_keys_members(out.entries_seq()) == scoped_keys_members(entries) by {
            assert(scoped_keys_members(entries).subrange(0, n as int) =~= scoped_keys_members(
                entries,
            ));
        }
    }
    Ok(out)
}

} // verus!
