//! Shared pieces of the wire formats: byte sequences as JSON arrays of
//! integers, string maps as JSON objects, and typed field lookups.

use vstd::prelude::*;
use crate::errors::Error;
use crate::json::{JsonSpec, JsonValue, jget, jv_views, jv_member_views};
use crate::strmap::StringMap;

verus! {

broadcast use vstd::seq::group_seq_axioms, vstd::std_specs::vec::group_vec_axioms;

/// A byte sequence as JSON documents: one unsigned integer per byte.
pub open spec fn bytes_jsons(b: Seq<u8>) -> Seq<JsonSpec> {
    Seq::new(b.len(), |i: int| JsonSpec::UInt(b[i] as u64))
}

/// The entry views of a string-to-string entry sequence.
pub open spec fn str_entry_views(s: Seq<(String, String)>) -> Seq<(Seq<char>, Seq<char>)> {
    Seq::new(s.len(), |i: int| (s[i].0@, s[i].1@))
}

/// A string-to-string entry sequence as JSON object members.
pub open spec fn str_entries_members(s: Seq<(Seq<char>, Seq<char>)>) -> Seq<(Seq<char>, JsonSpec)> {
    Seq::new(s.len(), |i: int| (s[i].0, JsonSpec::Str(s[i].1)))
}

/// A byte vector as a JSON array of integers.
pub fn bytes_to_json(b: &Vec<u8>) -> (r: JsonValue)
    ensures
        r@ == JsonSpec::Arr(bytes_jsons(b@)),
{
    let n = b.len();
    let mut items: Vec<JsonValue> = Vec::new();
    let mut i: usize = 0;
    while i < n
        invariant
            n == b@.len(),
            i <= n,
            jv_views(items@) =~= bytes_jsons(b@.subrange(0, i as int)),
            items@.len() == i,
        decreases n - i,
    {
        let ghost old_items = items@;
        items.push(JsonValue::UInt(b[i] as u64));
        proof {
            crate::json::lemma_jv_views_index(items@);
            assert(items@.drop_last() =~= old_items);
            assert(jv_views(items@) =~= bytes_jsons(b@.subrange(0, i + 1 as int))) by {
                crate::json::lemma_jv_views_index(old_items);
                assert forall|t: int|
                    0 <= t < i + 1 implies jv_views(items@)[t] == JsonSpec::UInt(
                    b@.subrange(0, i + 1 as int)[t] as u64,
                ) by {
                    assert(jv_views(items@)[t] == items@[t]@);
                    if t < i {
                        assert(items@[t] == old_items[t]);
                        assert(jv_views(old_items)[t] == old_items[t]@);
                        assert(old_items[t]@ == bytes_jsons(b@.subrange(0, i as int))[t]);
                    }
                }
            }
        }
        i = i + 1;
    }
    proof {
        assert(b@.subrange(0, n as int) =~= b@);
    }
    JsonValue::Arr(items)
}

/// Read a JSON array of integers back as bytes; an element out of byte range
/// or of another type is an error.
#[verifier::loop_isolation(false)]
pub fn bytes_from_json(v: &JsonValue) -> (r: Result<Vec<u8>, Error>)
    ensures
        (match r {
            Ok(b) => v@ == JsonSpec::Arr(bytes_jsons(b@)),
            Err(e) => e is JsonError && (forall|b: Seq<u8>| v@ != JsonSpec::Arr(bytes_jsons(b))),
        }),
{
    let items = match v.as_arr() {
        Some(items) => items,
        None => {
            proof {
                assert forall|b: Seq<u8>| v@ != JsonSpec::Arr(bytes_jsons(b)) by {}
            }
            return Err(Error::JsonError);
        },
    };
    let n = items.len();
    let mut out: Vec<u8> = Vec::new();
    let mut i: usize = 0;
    proof {
        crate::json::lemma_jv_views_index(items@);
    }
    while i < n
        invariant
            n == items@.len(),
            i <= n,
            out@.len() == i,
            forall|t: int| 0 <= t < i ==> jv_views(items@)[t] == JsonSpec::UInt(out@[t] as u64),
        decreases n - i,
    {
        let b = match items[i].as_u64() {
            Some(u) => u,
            None => {
                proof {
                    assert forall|b: Seq<u8>| v@ != JsonSpec::Arr(bytes_jsons(b)) by {
                        if v@ == JsonSpec::Arr(bytes_jsons(b)) {
                            assert(bytes_jsons(b)[i as int] == JsonSpec::UInt(b[i as int] as u64));
                            assert(jv_views(items@)[i as int] == items@[i as int]@);
                        }
                    }
                }
                return Err(Error::JsonError);
            },
        };
        if b > 255 {
            proof {
                assert forall|bb: Seq<u8>| v@ != JsonSpec::Arr(bytes_jsons(bb)) by {
                    if v@ == JsonSpec::Arr(bytes_jsons(bb)) {
                        assert(bytes_jsons(bb)[i as int] == JsonSpec::UInt(bb[i as int] as u64));
                        assert(jv_views(items@)[i as int] == items@[i as int]@);
                        assert(bb[i as int] as u64 <= 255);
                    }
                }
            }
            return Err(Error::JsonError);
        }
        out.push(b as u8);
        i = i + 1;
    }
    proof {
        assert(jv_views(items@) =~= bytes_jsons(out@));
    }
    Ok(out)
}

/// A string map as a JSON object, entries in insertion order.
pub fn strmap_to_json(m: &StringMap<String>) -> (r: JsonValue)
    ensures
        r@ == JsonSpec::Obj(str_entries_members(str_entry_views(m.entries_seq()))),
{
    let entries = m.entries();
    let n = entries.len();
    let mut members: Vec<(String, JsonValue)> = Vec::new();
    let mut i: usize = 0;
    while i < n
        invariant
            n == entries@.len(),
            entries@ == m.entries_seq(),
            i <= n,
            members@.len() == i,
            jv_member_views(members@) =~= str_entries_members(
                str_entry_views(m.entries_seq()).subrange(0, i as int),
            ),
        decreases n - i,
    {
        let ghost old_members = members@;
        let key = entries[i].0.clone();
        let val = entries[i].1.clone();
        members.push((key, JsonValue::Str(val)));
        proof {
            crate::json::lemma_jv_member_views_index(members@);
            crate::json::lemma_jv_member_views_index(old_members);
            assert(members@.drop_last() =~= old_members);
            assert(jv_member_views(members@) =~= str_entries_members(
                str_entry_views(m.entries_seq()).subrange(0, i + 1 as int),
            )) by {
                assert forall|t: int|
                    0 <= t < i + 1 implies jv_member_views(members@)[t] == str_entries_members(
                    str_entry_views(m.entries_seq()).subrange(0, i + 1 as int),
                )[t] by {
                    if t < i {
                        assert(members@[t] == old_members[t]);
                        assert(jv_member_views(members@)[t] == (
                            members@[t].0@,
                            crate::json::jv_view(members@[t].1),
                        ));
                        assert(jv_member_views(old_members)[t] == (
                            old_members[t].0@,
                            crate::json::jv_view(old_members[t].1),
                        ));
                    } else {
                        assert(jv_member_views(members@)[t] == (
                            members@[t].0@,
                            crate::json::jv_view(members@[t].1),
                        ));
                    }
                }
            }
        }
        i = i + 1;
    }
    proof {
        assert(str_entry_views(m.entries_seq()).subrange(0, n as int) =~= str_entry_views(
            m.entries_seq(),
        ));
    }
    JsonValue::Obj(members)
}

/// Read a JSON object back as a string map. A non-string value or a repeated
/// key is an error, and the entries keep the object's order.
#[verifier::loop_isolation(false)]
pub fn strmap_from_json(v: &JsonValue) -> (r: Result<StringMap<String>, Error>)
    ensures
        (match r {
            Ok(m) => v@ == JsonSpec::Obj(str_entries_members(str_entry_views(m.entries_seq())))
                && m.wf(),
            Err(e) => e is JsonError,
        }),
        forall|pairs: Seq<(Seq<char>, Seq<char>)>|
            (v@ == JsonSpec::Obj(#[trigger] str_entries_members(pairs)) && (forall|a: int, b: int|
                0 <= a < b < pairs.len() ==> pairs[a].0 != pairs[b].0)) ==> r is Ok,
{
    let members = match v.as_obj() {
        Some(members) => members,
        None => {
            proof {
                assert forall|pairs: Seq<(Seq<char>, Seq<char>)>|
                    v@ != JsonSpec::Obj(#[trigger] str_entries_members(pairs)) by {}
            }
            return Err(Error::JsonError);
        },
    };
    let n = members.len();
    let mut out: StringMap<String> = StringMap::new();
    let mut i: usize = 0;
    proof {
        crate::json::lemma_jv_member_views_index(members@);
    }
    while i < n
        invariant
            n == members@.len(),
            i <= n,
            out.wf(),
            out.entries_seq().len() == i,
            str_entries_members(str_entry_views(out.entries_seq())) =~= jv_member_views(
                members@,
            ).subrange(0, i as int),
        decreases n - i,
    {
        let key = members[i].0.clone();
        let val = match members[i].1.as_str() {
            Some(t) => t.clone(),
            None => {
                proof {
                    assert forall|pairs: Seq<(Seq<char>, Seq<char>)>|
                        v@ != JsonSpec::Obj(#[trigger] str_entries_members(pairs)) by {
                        if v@ == JsonSpec::Obj(str_entries_members(pairs)) {
                            assert(jv_member_views(members@)[i as int] == str_entries_members(
                                pairs,
                            )[i as int]);
                        }
                    }
                }
                return Err(Error::JsonError);
            },
        };
        if out.contains_key(key.as_str()) {
            proof {
                out.lemma_contains_has_entry(key@);
                assert forall|pairs: Seq<(Seq<char>, Seq<char>)>|
                    (v@ == JsonSpec::Obj(#[trigger] str_entries_members(pairs)) ==> !(forall|
                        a: int,
                        b: int,
                    |
                        0 <= a < b < pairs.len() ==> pairs[a].0 != pairs[b].0)) by {
                    if v@ == JsonSpec::Obj(str_entries_members(pairs)) {
                        let t = choose|t: int|
                            0 <= t < out.entries_seq().len() && (#[trigger] out.entries_seq()[t]).0@
                                == key@;
                        assert(str_entries_members(str_entry_views(out.entries_seq()))[t]
                            == jv_member_views(members@).subrange(0, i as int)[t]);
                        assert(jv_member_views(members@)[t] == str_entries_members(pairs)[t]);
                        assert(jv_member_views(members@)[i as int] == str_entries_members(
                            pairs,
                        )[i as int]);
                        assert(pairs[t].0 == key@ && pairs[i as int].0 == key@);
                        assert(!(pairs[t].0 != pairs[i as int].0));
                    }
                }
            }
            return Err(Error::JsonError);
        }
        let ghost old_entries = out.entries_seq();
        let ghost gkey = key@;
        let ghost gval = val@;
        out.insert(key, val);
        proof {
            assert(out.entries_seq().drop_last() =~= old_entries);
            assert(out.entries_seq().last().0@ == gkey && out.entries_seq().last().1@ == gval);
            assert(str_entries_members(str_entry_views(out.entries_seq())) =~= jv_member_views(
                members@,
            ).subrange(0, i + 1 as int)) by {
                assert forall|t: int|
                    0 <= t < i + 1 implies str_entries_members(str_entry_views(out.entries_seq()))[t]
                    == jv_member_views(members@).subrange(0, i + 1 as int)[t] by {
                    if t < i {
                        assert(out.entries_seq()[t] == old_entries[t]);
                    } else {
                        assert(out.entries_seq()[t] == out.entries_seq().last());
                        assert(jv_member_views(members@)[t] == (
                            members@[t].0@,
                            crate::json::jv_view(members@[t].1),
                        ));
                    }
                }
            }
        }
        i = i + 1;
    }
    proof {
        assert(jv_member_views(members@).subrange(0, n as int) =~= jv_member_views(members@));
    }
    Ok(out)
}

/// The string under `key` in an object document, if any.
pub fn get_str_field<'a>(v: &'a JsonValue, key: &str) -> (r: Option<&'a String>)
    ensures
        (match r {
            Some(t) => jget(v@, key@) == Some(JsonSpec::Str(t@)),
            None => !(jget(v@, key@) matches Some(JsonSpec::Str(_))),
        }),
{
    match v.get(key) {
        Some(f) => f.as_str(),
        None => None,
    }
}

/// The unsigned integer under `key` in an object document, if any.
pub fn get_u64_field(v: &JsonValue, key: &str) -> (r: Option<u64>)
    ensures
        (match r {
            Some(n) => jget(v@, key@) == Some(JsonSpec::UInt(n)),
            None => !(jget(v@, key@) matches Some(JsonSpec::UInt(_))),
        }),
{
    match v.get(key) {
        Some(f) => f.as_u64(),
        None => None,
    }
}

/// The boolean under `key` in an object document, if any.
pub fn get_bool_field(v: &JsonValue, key: &str) -> (r: Option<bool>)
    ensures
        (match r {
            Some(b) => jget(v@, key@) == Some(JsonSpec::Bool(b)),
            None => !(jget(v@, key@) matches Some(JsonSpec::Bool(_))),
        }),
{
    match v.get(key) {
        Some(f) => f.as_bool(),
        None => None,
    }
}

} // verus!
