//! A small JSON codec, written here because every wire format of the protocol
//! (registration blobs, command payloads, persisted account state) is JSON and
//! the round-trip behaviour of those formats is part of the library's
//! contract.
//!
//! The document model is restricted to what the protocol uses: null, booleans,
//! unsigned integers, strings, arrays and objects (fields in order of
//! insertion). The serializer emits the compact form (no whitespace, minimal
//! escaping), which is also what the protocol's peers emit; the parser
//! tolerates insignificant whitespace between tokens and reads the standard
//! single-character escapes, `\u`-escapes of scalar values outside the
//! surrogate range, and surrogate pairs.

use vstd::prelude::*;

verus! {

broadcast use vstd::seq::group_seq_axioms, vstd::std_specs::vec::group_vec_axioms;

/// The mathematical model of a JSON document.
#[verifier::ext_equal]
pub enum JsonSpec {
    Null,
    Bool(bool),
    UInt(u64),
    Str(Seq<char>),
    Arr(Seq<JsonSpec>),
    Obj(Seq<(Seq<char>, JsonSpec)>),
}

/// A JSON document as held at run time. Its view is a `JsonSpec`.
#[derive(Debug)]
pub enum JsonValue {
    Null,
    Bool(bool),
    UInt(u64),
    Str(String),
    Arr(Vec<JsonValue>),
    Obj(Vec<(String, JsonValue)>),
}

/// The model of a run-time JSON document.
pub open spec fn jv_view(v: JsonValue) -> JsonSpec
    decreases v,
{
    match v {
        JsonValue::Null => JsonSpec::Null,
        JsonValue::Bool(b) => JsonSpec::Bool(b),
        JsonValue::UInt(n) => JsonSpec::UInt(n),
        JsonValue::Str(s) => JsonSpec::Str(s@),
        JsonValue::Arr(items) => JsonSpec::Arr(jv_views(items@)),
        JsonValue::Obj(members) => JsonSpec::Obj(jv_member_views(members@)),
    }
}

/// The models of a sequence of run-time documents.
pub open spec fn jv_views(s: Seq<JsonValue>) -> Seq<JsonSpec>
    decreases s,
{
    if s.len() == 0 {
        Seq::empty()
    } else {
        seq![jv_view(s[0])] + jv_views(s.drop_first())
    }
}

/// The models of a sequence of run-time object members.
pub open spec fn jv_member_views(s: Seq<(String, JsonValue)>) -> Seq<(Seq<char>, JsonSpec)>
    decreases s,
{
    if s.len() == 0 {
        Seq::empty()
    } else {
        seq![(s[0].0@, jv_view(s[0].1))] + jv_member_views(s.drop_first())
    }
}

impl View for JsonValue {
    type V = JsonSpec;

    open spec fn view(&self) -> JsonSpec {
        jv_view(*self)
    }
}

pub broadcast proof fn lemma_jv_views_index(s: Seq<JsonValue>)
    ensures
        (#[trigger] jv_views(s)).len() == s.len(),
        forall|i: int| 0 <= i < s.len() ==> jv_views(s)[i] == jv_view(s[i]),
    decreases s,
{
    if s.len() > 0 {
        lemma_jv_views_index(s.drop_first());
    }
}

pub broadcast proof fn lemma_jv_member_views_index(s: Seq<(String, JsonValue)>)
    ensures
        (#[trigger] jv_member_views(s)).len() == s.len(),
        forall|i: int| 0 <= i < s.len() ==> jv_member_views(s)[i] == (s[i].0@, jv_view(s[i].1)),
    decreases s,
{
    if s.len() > 0 {
        lemma_jv_member_views_index(s.drop_first());
    }
}

/// Is `c` a decimal digit?
pub open spec fn is_json_digit(c: char) -> bool {
    48 <= c as u32 <= 57
}

/// How the serializer escapes one character inside a string literal.
pub open spec fn jesc_char(c: char) -> Seq<char> {
    if c == '"' {
        seq!['\\', '"']
    } else if c == '\\' {
        seq!['\\', '\\']
    } else if (c as u32) < 32 {
        seq![
            '\\',
            'u',
            '0',
            '0',
            crate::encoding::hex_digit_char((c as u32 / 16) as u8),
            crate::encoding::hex_digit_char((c as u32 % 16) as u8),
        ]
    } else {
        seq![c]
    }
}

/// The escaped body of a string literal.
pub open spec fn jesc(s: Seq<char>) -> Seq<char>
    decreases s.len(),
{
    if s.len() == 0 {
        Seq::empty()
    } else {
        jesc_char(s[0]) + jesc(s.drop_first())
    }
}

/// The decimal digits of `n`, most significant first, no leading zero.
pub open spec fn udigits(n: u64) -> Seq<char>
    decreases n,
{
    if n < 10 {
        seq![((n + 48) as u8) as char]
    } else {
        udigits((n / 10) as u64) + seq![((n % 10 + 48) as u8) as char]
    }
}

/// The compact serialization of a document.
pub open spec fn jser(v: JsonSpec) -> Seq<char>
    decreases v, 0int,
{
    match v {
        JsonSpec::Null => seq!['n', 'u', 'l', 'l'],
        JsonSpec::Bool(b) => if b {
            seq!['t', 'r', 'u', 'e']
        } else {
            seq!['f', 'a', 'l', 's', 'e']
        },
        JsonSpec::UInt(n) => udigits(n),
        JsonSpec::Str(s) => seq!['"'] + jesc(s) + seq!['"'],
        JsonSpec::Arr(items) => seq!['['] + jser_items(items) + seq![']'],
        JsonSpec::Obj(members) => seq!['{'] + jser_members(members) + seq!['}'],
    }
}

/// The serialization of array elements, comma separated.
pub open spec fn jser_items(items: Seq<JsonSpec>) -> Seq<char>
    decreases items, 1int,
{
    if items.len() == 0 {
        Seq::empty()
    } else if items.len() == 1 {
        jser(items[0])
    } else {
        jser(items[0]) + seq![','] + jser_items(items.drop_first())
    }
}

/// The serialization of object members, comma separated.
pub open spec fn jser_members(members: Seq<(Seq<char>, JsonSpec)>) -> Seq<char>
    decreases members, 1int,
{
    if members.len() == 0 {
        Seq::empty()
    } else {
        let head = seq!['"'] + jesc(members[0].0) + seq!['"', ':'] + jser(members[0].1);
        if members.len() == 1 {
            head
        } else {
            head + seq![','] + jser_members(members.drop_first())
        }
    }
}

/// A character that may legally follow a value inside a composite.
pub open spec fn is_json_terminator(c: char) -> bool {
    c == ',' || c == ']' || c == '}'
}

/// Insignificant whitespace between tokens.
pub open spec fn is_json_ws(c: char) -> bool {
    c == ' ' || c == '\t' || c == '\n' || c == '\r'
}

/// The first index at or after `i` holding a non-whitespace character (or
/// the end).
pub open spec fn skip_ws(s: Seq<char>, i: int) -> int
    decreases s.len() - i,
{
    if !(0 <= i < s.len()) {
        i
    } else if is_json_ws(s[i]) {
        skip_ws(s, i + 1)
    } else {
        i
    }
}

/// The first index at or after `i` holding a non-digit (or the end).
pub open spec fn digit_run_end(s: Seq<char>, i: int) -> int
    decreases s.len() - i,
{
    if !(0 <= i < s.len()) {
        i
    } else if is_json_digit(s[i]) {
        digit_run_end(s, i + 1)
    } else {
        i
    }
}

/// The numeric value of a run of decimal digits.
pub open spec fn digits_val(s: Seq<char>) -> int
    decreases s.len(),
{
    if s.len() == 0 {
        0
    } else {
        digits_val(s.drop_last()) * 10 + (s.last() as u32 - 48)
    }
}

/// The value of the four hex digits at `i`, or -1 when one is not hex.
pub open spec fn hex4_val(s: Seq<char>, i: int) -> int {
    if 0 <= i && i + 4 <= s.len() {
        let a = crate::encoding::hex_char_val(s[i]);
        let b = crate::encoding::hex_char_val(s[i + 1]);
        let c = crate::encoding::hex_char_val(s[i + 2]);
        let d = crate::encoding::hex_char_val(s[i + 3]);
        if a != 255 && b != 255 && c != 255 && d != 255 {
            a * 4096 + b * 256 + c * 16 + d
        } else {
            -1
        }
    } else {
        -1
    }
}

/// What a single-character escape stands for.
pub open spec fn unescape_char(e: char) -> Option<char> {
    if e == '"' {
        Some('"')
    } else if e == '\\' {
        Some('\\')
    } else if e == '/' {
        Some('/')
    } else if e == 'b' {
        Some((8 as u8) as char)
    } else if e == 'f' {
        Some((12 as u8) as char)
    } else if e == 'n' {
        Some((10 as u8) as char)
    } else if e == 'r' {
        Some((13 as u8) as char)
    } else if e == 't' {
        Some((9 as u8) as char)
    } else {
        None
    }
}

/// Parse the body of a string literal starting right after the opening quote:
/// the unescaped text and the index right after the closing quote.
pub open spec fn sparse_str(s: Seq<char>, i: int) -> Option<(Seq<char>, int)>
    decreases s.len() - i,
{
    if !(0 <= i < s.len()) {
        None
    } else if s[i] == '"' {
        Some((Seq::empty(), i + 1))
    } else if s[i] == '\\' {
        if i + 2 <= s.len() && unescape_char(s[i + 1]) is Some {
            match sparse_str(s, i + 2) {
                Some((t, j)) => Some((seq![unescape_char(s[i + 1]).unwrap()] + t, j)),
                None => None,
            }
        } else if i + 6 <= s.len() && s[i + 1] == 'u' && (0 <= hex4_val(s, i + 2) < 0xD800
            || 0xE000 <= hex4_val(s, i + 2) <= 0xFFFF) {
            match sparse_str(s, i + 6) {
                Some((t, j)) => Some((seq![(hex4_val(s, i + 2) as u32) as char] + t, j)),
                None => None,
            }
        } else if i + 12 <= s.len() && s[i + 1] == 'u' && 0xD800 <= hex4_val(s, i + 2) < 0xDC00
            && s[i + 6] == '\\' && s[i + 7] == 'u' && 0xDC00 <= hex4_val(s, i + 8) < 0xE000 {
            match sparse_str(s, i + 12) {
                Some((t, j)) => Some(
                    (
                        seq![
                            ((0x10000 + (hex4_val(s, i + 2) - 0xD800) * 0x400 + (hex4_val(s, i + 8)
                                - 0xDC00)) as u32) as char,
                        ] + t,
                        j,
                    ),
                ),
                None => None,
            }
        } else {
            None
        }
    } else if (s[i] as u32) < 32 {
        None
    } else {
        match sparse_str(s, i + 1) {
            Some((t, j)) => Some((seq![s[i]] + t, j)),
            None => None,
        }
    }
}

/// Parse one value starting at `i`: the value and the index right after it.
pub open spec fn sparse_value(s: Seq<char>, i: int) -> Option<(JsonSpec, int)>
    decreases s.len() - i, 1int,
{
    if !(0 <= i <= s.len()) {
        None
    } else {
        let i2 = skip_ws(s, i);
        if !(i <= i2 && i2 <= s.len()) {
            None
        } else {
            sparse_value_at(s, i2)
        }
    }
}

/// Parse one value starting exactly at `i`, whitespace already skipped.
pub open spec fn sparse_value_at(s: Seq<char>, i: int) -> Option<(JsonSpec, int)>
    decreases s.len() - i, 0int,
{
    if !(0 <= i < s.len()) {
        None
    } else if s[i] == 'n' {
        if i + 4 <= s.len() && s.subrange(i, i + 4) == seq!['n', 'u', 'l', 'l'] {
            Some((JsonSpec::Null, i + 4))
        } else {
            None
        }
    } else if s[i] == 't' {
        if i + 4 <= s.len() && s.subrange(i, i + 4) == seq!['t', 'r', 'u', 'e'] {
            Some((JsonSpec::Bool(true), i + 4))
        } else {
            None
        }
    } else if s[i] == 'f' {
        if i + 5 <= s.len() && s.subrange(i, i + 5) == seq!['f', 'a', 'l', 's', 'e'] {
            Some((JsonSpec::Bool(false), i + 5))
        } else {
            None
        }
    } else if s[i] == '"' {
        match sparse_str(s, i + 1) {
            Some((t, j)) => Some((JsonSpec::Str(t), j)),
            None => None,
        }
    } else if s[i] == '[' {
        if i + 1 < s.len() && s[i + 1] == ']' {
            Some((JsonSpec::Arr(Seq::empty()), i + 2))
        } else {
            match sparse_items(s, i + 1) {
                Some((items, j)) => Some((JsonSpec::Arr(items), j)),
                None => None,
            }
        }
    } else if s[i] == '{' {
        if i + 1 < s.len() && s[i + 1] == '}' {
            Some((JsonSpec::Obj(Seq::empty()), i + 2))
        } else {
            match sparse_members(s, i + 1) {
                Some((members, j)) => Some((JsonSpec::Obj(members), j)),
                None => None,
            }
        }
    } else if is_json_digit(s[i]) {
        let e = digit_run_end(s, i);
        if s[i] == '0' && e > i + 1 {
            None
        } else {
            let n = digits_val(s.subrange(i, e));
            if n <= u64::MAX {
                Some((JsonSpec::UInt(n as u64), e))
            } else {
                None
            }
        }
    } else {
        None
    }
}

/// Parse the elements of a non-empty array starting right after `[` or `,`:
/// the elements and the index right after the closing `]`.
pub open spec fn sparse_items(s: Seq<char>, i: int) -> Option<(Seq<JsonSpec>, int)>
    decreases s.len() - i, 2int,
{
    if !(0 <= i < s.len()) {
        None
    } else {
        match sparse_value(s, i) {
            None => None,
            Some((v, j)) => {
                let j2 = skip_ws(s, j);
                if !(i < j && j <= j2 && j2 < s.len()) {
                    None
                } else if s[j2] == ']' {
                    Some((seq![v], j2 + 1))
                } else if s[j2] == ',' {
                    match sparse_items(s, j2 + 1) {
                        Some((rest, k)) => Some((seq![v] + rest, k)),
                        None => None,
                    }
                } else {
                    None
                }
            },
        }
    }
}

/// Parse the members of a non-empty object starting right after `{` or `,`:
/// the members and the index right after the closing `}`.
pub open spec fn sparse_members(s: Seq<char>, i: int) -> Option<(Seq<(Seq<char>, JsonSpec)>, int)>
    decreases s.len() - i, 2int,
{
    if !(0 <= i < s.len()) {
        None
    } else {
        let i2 = skip_ws(s, i);
        if !(i <= i2 && i2 < s.len()) {
            None
        } else if s[i2] != '"' {
            None
        } else {
            match sparse_str(s, i2 + 1) {
                None => None,
                Some((k, j)) => {
                    let j2 = skip_ws(s, j);
                    if !(i2 < j && j <= j2 && j2 < s.len() && s[j2] == ':') {
                        None
                    } else {
                        match sparse_value(s, j2 + 1) {
                            None => None,
                            Some((v, m)) => {
                                let m2 = skip_ws(s, m);
                                if !(j2 < m && m <= m2 && m2 < s.len()) {
                                    None
                                } else if s[m2] == '}' {
                                    Some((seq![(k, v)], m2 + 1))
                                } else if s[m2] == ',' {
                                    match sparse_members(s, m2 + 1) {
                                        Some((rest, e)) => Some((seq![(k, v)] + rest, e)),
                                        None => None,
                                    }
                                } else {
                                    None
                                }
                            },
                        }
                    }
                },
            }
        }
    }
}

proof fn lemma_digits_val_snoc(a: Seq<char>, c: char)
    ensures
        digits_val(a.push(c)) == digits_val(a) * 10 + (c as u32 - 48),
{
    assert(a.push(c).drop_last() =~= a);
    assert(a.push(c).last() == c);
}

proof fn lemma_udigits_props(n: u64)
    ensures
        udigits(n).len() >= 1,
        forall|k: int| 0 <= k < udigits(n).len() ==> is_json_digit(#[trigger] udigits(n)[k]),
        udigits(n)[0] == '0' <==> n == 0,
        digits_val(udigits(n)) == n,
    decreases n,
{
    if n < 10 {
        let c = ((n + 48) as u8) as char;
        assert(udigits(n) =~= seq![c]);
        assert(c as u32 == n + 48);
        assert(digits_val(seq![c]) == digits_val(seq![c].drop_last()) * 10 + (c as u32 - 48));
        assert(seq![c].drop_last() =~= Seq::<char>::empty());
    } else {
        lemma_udigits_props(n / 10);
        let d = ((n % 10 + 48) as u8) as char;
        assert(udigits(n) =~= udigits(n / 10).push(d));
        lemma_digits_val_snoc(udigits(n / 10), d);
        assert(d as u32 == n % 10 + 48);
        assert(udigits(n)[0] == udigits(n / 10)[0]);
        assert(n / 10 != 0);
    }
}

proof fn lemma_digit_run(s: Seq<char>, i: int, e: int)
    requires
        0 <= i <= e <= s.len(),
        forall|k: int| i <= k < e ==> is_json_digit(#[trigger] s[k]),
        e == s.len() || !is_json_digit(s[e]),
    ensures
        digit_run_end(s, i) == e,
    decreases e - i,
{
    if i < e {
        lemma_digit_run(s, i + 1, e);
    }
}

proof fn lemma_jser_len_pos(v: JsonSpec)
    ensures
        jser(v).len() >= 1,
{
    match v {
        JsonSpec::UInt(n) => {
            lemma_udigits_props(n);
        },
        _ => {},
    }
}

/// The body of a canonically escaped string parses back to that body.
proof fn lemma_sparse_str_canonical(s: Seq<char>, i: int, body: Seq<char>)
    requires
        0 <= i,
        i + jesc(body).len() + 1 <= s.len(),
        s.subrange(i, i + jesc(body).len()) == jesc(body),
        s[i + jesc(body).len()] == '"',
    ensures
        sparse_str(s, i) == Some((body, i + jesc(body).len() + 1)),
    decreases body.len(),
{
    broadcast use vstd::utf8::char_u32_cast;

    if body.len() == 0 {
        assert(jesc(body) =~= Seq::<char>::empty());
    } else {
        let c = body[0];
        let rest = body.drop_first();
        let ec = jesc_char(c);
        assert(jesc(body) == ec + jesc(rest));
        assert forall|k: int| 0 <= k < ec.len() implies s[i + k] == ec[k] by {
            assert(s.subrange(i, i + jesc(body).len())[k] == s[i + k]);
            assert((ec + jesc(rest))[k] == ec[k]);
        }
        let i2 = i + ec.len();
        assert(s.subrange(i2, i2 + jesc(rest).len()) =~= jesc(rest)) by {
            assert forall|k: int| 0 <= k < jesc(rest).len() implies s[i2 + k] == jesc(rest)[k] by {
                assert(s.subrange(i, i + jesc(body).len())[ec.len() + k] == s[i2 + k]);
                assert((ec + jesc(rest))[ec.len() + k] == jesc(rest)[k]);
            }
        }
        lemma_sparse_str_canonical(s, i2, rest);
        assert(seq![c] + rest =~= body);
        if c == '"' {
            assert(s[i] == '\\' && s[i + 1] == '"');
        } else if c == '\\' {
            assert(s[i] == '\\' && s[i + 1] == '\\');
        } else if (c as u32) < 32 {
            assert(s[i] == '\\' && s[i + 1] == 'u' && s[i + 2] == '0' && s[i + 3] == '0');
            assert(unescape_char('u') is None);
            let hi = crate::encoding::hex_digit_char((c as u32 / 16) as u8);
            let lo = crate::encoding::hex_digit_char((c as u32 % 16) as u8);
            assert(s[i + 4] == hi && s[i + 5] == lo);
            assert(crate::encoding::hex_char_val('0') == 0);
            assert(crate::encoding::hex_char_val(hi) == c as u32 / 16);
            assert(crate::encoding::hex_char_val(lo) == c as u32 % 16);
            assert(hex4_val(s, i + 2) == c as u32);
            vstd::utf8::char_u32_cast(c, c as u32);
            assert(((c as u32) as char) == c);
        } else {
            assert(s[i] == c);
        }
    }
}

/// The first character of a canonical serialization, by constructor.
proof fn lemma_jser_first(v: JsonSpec)
    ensures
        jser(v).len() >= 1,
        match v {
            JsonSpec::Null => jser(v)[0] == 'n',
            JsonSpec::Bool(b) => jser(v)[0] == (if b { 't' } else { 'f' }),
            JsonSpec::UInt(n) => is_json_digit(jser(v)[0]) && (jser(v)[0] == '0' <==> n == 0),
            JsonSpec::Str(_) => jser(v)[0] == '"',
            JsonSpec::Arr(_) => jser(v)[0] == '[',
            JsonSpec::Obj(_) => jser(v)[0] == '{',
        },
{
    match v {
        JsonSpec::UInt(n) => {
            lemma_udigits_props(n);
        },
        _ => {},
    }
}

/// A canonically serialized value, followed by a terminator or the end of the
/// text, parses back to exactly that value.
#[verifier::rlimit(100)]
#[verifier::spinoff_prover]
pub proof fn lemma_parse_canonical_at(s: Seq<char>, i: int, v: JsonSpec)
    requires
        0 <= i,
        i + jser(v).len() <= s.len(),
        s.subrange(i, i + jser(v).len()) == jser(v),
        i + jser(v).len() == s.len() || is_json_terminator(s[i + jser(v).len()]),
    ensures
        sparse_value(s, i) == Some((v, i + jser(v).len())),
    decreases v, 0int,
{
    let n = jser(v).len() as int;
    assert forall|k: int| 0 <= k < n implies s[i + k] == jser(v)[k] by {
        assert(s.subrange(i, i + n)[k] == s[i + k]);
    }
    lemma_jser_first(v);
    assert(!is_json_ws(s[i]));
    assert(skip_ws(s, i) == i);
    assert(sparse_value(s, i) == sparse_value_at(s, i));
    match v {
        JsonSpec::Null => {
            assert(s.subrange(i, i + 4) =~= seq!['n', 'u', 'l', 'l']);
        },
        JsonSpec::Bool(b) => {
            if b {
                assert(s.subrange(i, i + 4) =~= seq!['t', 'r', 'u', 'e']);
            } else {
                assert(s.subrange(i, i + 5) =~= seq!['f', 'a', 'l', 's', 'e']);
            }
        },
        JsonSpec::UInt(u) => {
            lemma_udigits_props(u);
            assert forall|k: int| i <= k < i + n implies is_json_digit(#[trigger] s[k]) by {
                assert(s[i + (k - i)] == jser(v)[k - i]);
            }
            assert(i + n == s.len() || !is_json_digit(s[i + n]));
            lemma_digit_run(s, i, i + n);
            assert(s.subrange(i, i + n) == udigits(u));
            if u == 0 {
                assert(n == 1);
            } else {
                assert(s[i] != '0');
            }
            assert(digits_val(s.subrange(i, i + n)) == u);
        },
        JsonSpec::Str(body) => {
            assert(jser(v) == seq!['"'] + jesc(body) + seq!['"']);
            assert(s[i] == '"');
            assert(s.subrange(i + 1, i + 1 + jesc(body).len()) =~= jesc(body)) by {
                assert forall|k: int| 0 <= k < jesc(body).len() implies s[i + 1 + k] == jesc(
                    body,
                )[k] by {
                    assert(jser(v)[1 + k] == jesc(body)[k]);
                }
            }
            assert(s[i + 1 + jesc(body).len()] == '"') by {
                assert(jser(v)[n - 1] == '"');
            }
            lemma_sparse_str_canonical(s, i + 1, body);
        },
        JsonSpec::Arr(items) => {
            assert(jser(v) == seq!['['] + jser_items(items) + seq![']']);
            assert(s[i] == '[');
            assert(s[i + n - 1] == ']') by {
                assert(jser(v)[n - 1] == ']');
            }
            if items.len() == 0 {
                assert(jser_items(items) =~= Seq::<char>::empty());
                assert(n == 2);
                assert(i + 1 < s.len() && s[i + 1] == ']');
                assert(items =~= Seq::<JsonSpec>::empty());
                assert(JsonSpec::Arr(Seq::<JsonSpec>::empty()) =~~= v);
            } else {
                assert(items.len() >= 1);
                let body = jser_items(items);
                assert(s.subrange(i + 1, i + 1 + body.len()) =~= body) by {
                    assert forall|k: int| 0 <= k < body.len() implies s[i + 1 + k] == body[k] by {
                        assert(s[i + (1 + k)] == jser(v)[1 + k]);
                        assert(jser(v)[1 + k] == body[k]);
                    }
                }
                assert(s[i + 1 + body.len()] == ']');
                lemma_parse_items_canonical(s, i + 1, items);
                lemma_jser_items_first(items);
                assert(s[i + 1] == body[0]);
                assert(s[i + 1] != ']');
            }
        },
        JsonSpec::Obj(members) => {
            assert(jser(v) == seq!['{'] + jser_members(members) + seq!['}']);
            assert(s[i] == '{');
            assert(s[i + n - 1] == '}') by {
                assert(jser(v)[n - 1] == '}');
            }
            if members.len() == 0 {
                assert(jser_members(members) =~= Seq::<char>::empty());
                assert(n == 2);
                assert(i + 1 < s.len() && s[i + 1] == '}');
                assert(members =~= Seq::<(Seq<char>, JsonSpec)>::empty());
                assert(JsonSpec::Obj(Seq::<(Seq<char>, JsonSpec)>::empty()) =~~= v);
            } else {
                assert(members.len() >= 1);
                let body = jser_members(members);
                assert(s.subrange(i + 1, i + 1 + body.len()) =~= body) by {
                    assert forall|k: int| 0 <= k < body.len() implies s[i + 1 + k] == body[k] by {
                        assert(s[i + (1 + k)] == jser(v)[1 + k]);
                        assert(jser(v)[1 + k] == body[k]);
                    }
                }
                assert(s[i + 1 + body.len()] == '}');
                lemma_parse_members_canonical(s, i + 1, members);
                assert(s[i + 1] == body[0]);
                assert(body[0] == '"');
            }
        },
    }
    assert(sparse_value(s, i) is Some);
    let r = sparse_value(s, i).unwrap();
    assert(r.0 =~= v);
    assert(r.1 == i + jser(v).len());
}

/// The first character of a non-empty item list's serialization is the first
/// character of its first element.
proof fn lemma_jser_items_first(items: Seq<JsonSpec>)
    requires
        items.len() > 0,
    ensures
        jser_items(items).len() >= 1,
        jser_items(items)[0] == jser(items[0])[0],
        jser_items(items)[0] != ']',
        jser_items(items)[0] != ',',
{
    lemma_jser_first(items[0]);
    assert(jser_items(items)[0] == jser(items[0])[0]);
}

/// Canonically serialized array elements (with the closing bracket right
/// after them) parse back to exactly those elements.
proof fn lemma_parse_items_canonical(s: Seq<char>, i: int, items: Seq<JsonSpec>)
    requires
        0 <= i,
        items.len() > 0,
        i + jser_items(items).len() < s.len(),
        s.subrange(i, i + jser_items(items).len()) == jser_items(items),
        s[i + jser_items(items).len()] == ']',
    ensures
        sparse_items(s, i) == Some((items, i + jser_items(items).len() + 1)),
    decreases items,
{
    let body = jser_items(items);
    let n = body.len() as int;
    assert forall|k: int| 0 <= k < n implies s[i + k] == body[k] by {
        assert(s.subrange(i, i + n)[k] == s[i + k]);
    }
    let v0 = items[0];
    let h = jser(v0).len() as int;
    lemma_jser_len_pos(v0);
    if items.len() == 1 {
        assert(body == jser(v0));
        assert(s.subrange(i, i + h) =~= jser(v0));
        assert(s[i + h] == ']');
        lemma_parse_canonical_at(s, i, v0);
        assert(skip_ws(s, i + h) == i + h);
        assert(seq![v0] =~= items);
    } else {
        let rest = items.drop_first();
        assert(body == jser(v0) + seq![','] + jser_items(rest));
        assert(s.subrange(i, i + h) =~= jser(v0)) by {
            assert forall|k: int| 0 <= k < h implies s[i + k] == jser(v0)[k] by {
                assert(body[k] == jser(v0)[k]);
            }
        }
        assert(s[i + h] == ',') by {
            assert(body[h] == ',');
        }
        lemma_parse_canonical_at(s, i, v0);
        assert(skip_ws(s, i + h) == i + h);
        let i2 = i + h + 1;
        let rb = jser_items(rest);
        assert(s.subrange(i2, i2 + rb.len()) =~= rb) by {
            assert forall|k: int| 0 <= k < rb.len() implies s[i2 + k] == rb[k] by {
                assert(body[h + 1 + k] == rb[k]);
            }
        }
        assert(s[i2 + rb.len()] == ']');
        lemma_parse_items_canonical(s, i2, rest);
        assert(seq![v0] + rest =~= items);
    }
}

/// Canonically serialized object members (with the closing brace right after
/// them) parse back to exactly those members.
proof fn lemma_parse_members_canonical(s: Seq<char>, i: int, members: Seq<(Seq<char>, JsonSpec)>)
    requires
        0 <= i,
        members.len() > 0,
        i + jser_members(members).len() < s.len(),
        s.subrange(i, i + jser_members(members).len()) == jser_members(members),
        s[i + jser_members(members).len()] == '}',
        jser_members(members)[0] == '"',
    ensures
        sparse_members(s, i) == Some((members, i + jser_members(members).len() + 1)),
    decreases members,
{
    let body = jser_members(members);
    let n = body.len() as int;
    assert forall|k: int| 0 <= k < n implies s[i + k] == body[k] by {
        assert(s.subrange(i, i + n)[k] == s[i + k]);
    }
    let key = members[0].0;
    let v0 = members[0].1;
    let head = seq!['"'] + jesc(key) + seq!['"', ':'] + jser(v0);
    let hk = jesc(key).len() as int;
    let h = head.len() as int;
    lemma_jser_len_pos(v0);
    assert(s[i] == '"') by {
        assert(body[0] == '"');
    }
    assert(skip_ws(s, i) == i);
    if members.len() == 1 {
        assert(body == head);
    } else {
        assert(body == head + seq![','] + jser_members(members.drop_first()));
    }
    assert forall|k: int| 0 <= k < h implies s[i + k] == head[k] by {
        assert(body[k] == head[k]);
    }
    assert(s.subrange(i + 1, i + 1 + hk) =~= jesc(key)) by {
        assert forall|k: int| 0 <= k < hk implies s[i + 1 + k] == jesc(key)[k] by {
            assert(head[1 + k] == jesc(key)[k]);
        }
    }
    assert(s[i + 1 + hk] == '"') by {
        assert(head[1 + hk] == '"');
    }
    lemma_sparse_str_canonical(s, i + 1, key);
    let j = i + 1 + hk + 1;
    assert(s[j] == ':') by {
        assert(head[2 + hk] == ':');
    }
    assert(skip_ws(s, j) == j);
    assert(s.subrange(j + 1, j + 1 + jser(v0).len()) =~= jser(v0)) by {
        assert forall|k: int| 0 <= k < jser(v0).len() implies s[j + 1 + k] == jser(v0)[k] by {
            assert(head[3 + hk + k] == jser(v0)[k]);
        }
    }
    let m = j + 1 + jser(v0).len();
    assert(m == i + h);
    if members.len() == 1 {
        assert(s[m] == '}');
        lemma_parse_canonical_at(s, j + 1, v0);
        assert(skip_ws(s, m) == m);
        assert(seq![(key, v0)] =~= members);
    } else {
        let rest = members.drop_first();
        assert(s[m] == ',') by {
            assert(body[h] == ',');
        }
        lemma_parse_canonical_at(s, j + 1, v0);
        assert(skip_ws(s, m) == m);
        let i2 = m + 1;
        let rb = jser_members(rest);
        assert(s.subrange(i2, i2 + rb.len()) =~= rb) by {
            assert forall|k: int| 0 <= k < rb.len() implies s[i2 + k] == rb[k] by {
                assert(body[h + 1 + k] == rb[k]);
            }
        }
        assert(s[i2 + rb.len()] == '}');
        assert(rb[0] == '"') by {
            assert(jser_members(rest) == seq!['"'] + jesc(rest[0].0) + seq!['"', ':'] + jser(
                rest[0].1,
            ) || jser_members(rest) == (seq!['"'] + jesc(rest[0].0) + seq!['"', ':'] + jser(
                rest[0].1,
            )) + seq![','] + jser_members(rest.drop_first()));
        }
        lemma_parse_members_canonical(s, i2, rest);
        assert(seq![(key, v0)] + rest =~= members);
    }
}

/// The round trip at the document level: a canonically serialized document
/// parses back to exactly the document it came from.
pub proof fn lemma_json_round_trip(v: JsonSpec)
    ensures
        sparse_doc(jser(v)) == Some(v),
{
    let s = jser(v);
    assert(s.subrange(0, s.len() as int) =~= s);
    lemma_parse_canonical_at(s, 0, v);
    assert(skip_ws(s, s.len() as int) == s.len());
}

/// Parse a whole document: every character must be consumed.
pub open spec fn sparse_doc(s: Seq<char>) -> Option<JsonSpec> {
    match sparse_value(s, 0) {
        Some((v, j)) => if skip_ws(s, j) == s.len() {
            Some(v)
        } else {
            None
        },
        None => None,
    }
}

proof fn lemma_jesc_snoc(s: Seq<char>, c: char)
    ensures
        jesc(s.push(c)) == jesc(s) + jesc_char(c),
    decreases s.len(),
{
    reveal_with_fuel(jesc, 2);
    assert(s.push(c).len() == s.len() + 1);
    if s.len() == 0 {
        assert(s.push(c)[0] == c);
        assert(s.push(c).drop_first() =~= Seq::<char>::empty());
        assert(jesc(s.push(c)) =~= jesc(s) + jesc_char(c));
    } else {
        assert(s.push(c)[0] == s[0]);
        assert(s.push(c).drop_first() =~= s.drop_first().push(c));
        lemma_jesc_snoc(s.drop_first(), c);
        assert(jesc(s.push(c)) == jesc_char(s[0]) + jesc(s.drop_first().push(c)));
        assert(jesc_char(s[0]) + (jesc(s.drop_first()) + jesc_char(c)) =~= (jesc_char(s[0])
            + jesc(s.drop_first())) + jesc_char(c));
        assert(jesc(s.push(c)) =~= jesc(s) + jesc_char(c));
    }
}

pub proof fn lemma_jv_views_snoc(s: Seq<JsonValue>, x: JsonValue)
    ensures
        jv_views(s.push(x)) == jv_views(s) + seq![jv_view(x)],
    decreases s.len(),
{
    reveal_with_fuel(jv_views, 2);
    assert(s.push(x).len() == s.len() + 1);
    if s.len() == 0 {
        assert(s.push(x)[0] == x);
        assert(s.push(x).drop_first() =~= Seq::<JsonValue>::empty());
        assert(jv_views(s.push(x)) =~= jv_views(s) + seq![jv_view(x)]);
    } else {
        assert(s.push(x)[0] == s[0]);
        assert(s.push(x).drop_first() =~= s.drop_first().push(x));
        lemma_jv_views_snoc(s.drop_first(), x);
        assert(jv_views(s.push(x)) == seq![jv_view(s[0])] + jv_views(s.drop_first().push(x)));
        assert(seq![jv_view(s[0])] + (jv_views(s.drop_first()) + seq![jv_view(x)]) =~= (seq![
            jv_view(s[0]),
        ] + jv_views(s.drop_first())) + seq![jv_view(x)]);
        assert(jv_views(s.push(x)) =~= jv_views(s) + seq![jv_view(x)]);
    }
}

pub proof fn lemma_jv_member_views_snoc(s: Seq<(String, JsonValue)>, k: String, x: JsonValue)
    ensures
        jv_member_views(s.push((k, x))) == jv_member_views(s) + seq![(k@, jv_view(x))],
    decreases s.len(),
{
    reveal_with_fuel(jv_member_views, 2);
    assert(s.push((k, x)).len() == s.len() + 1);
    if s.len() == 0 {
        assert(s.push((k, x))[0] == (k, x));
        assert(s.push((k, x)).drop_first() =~= Seq::<(String, JsonValue)>::empty());
        assert(jv_member_views(s.push((k, x))) =~= jv_member_views(s) + seq![(k@, jv_view(x))]);
    } else {
        assert(s.push((k, x))[0] == s[0]);
        assert(s.push((k, x)).drop_first() =~= s.drop_first().push((k, x)));
        lemma_jv_member_views_snoc(s.drop_first(), k, x);
        assert(jv_member_views(s.push((k, x))) == seq![(s[0].0@, jv_view(s[0].1))]
            + jv_member_views(s.drop_first().push((k, x))));
        assert(seq![(s[0].0@, jv_view(s[0].1))] + (jv_member_views(s.drop_first()) + seq![
            (k@, jv_view(x)),
        ]) =~= (seq![(s[0].0@, jv_view(s[0].1))] + jv_member_views(s.drop_first())) + seq![
            (k@, jv_view(x)),
        ]);
        assert(jv_member_views(s.push((k, x))) =~= jv_member_views(s) + seq![(k@, jv_view(x))]);
    }
}

proof fn lemma_jser_items_snoc(s: Seq<JsonSpec>, x: JsonSpec)
    ensures
        jser_items(s.push(x)) == if s.len() == 0 {
            jser(x)
        } else {
            jser_items(s) + seq![','] + jser(x)
        },
    decreases s.len(),
{
    if s.len() == 0 {
        assert(jser_items(s.push(x)) =~= jser(x));
    } else {
        assert(s.push(x).drop_first() =~= s.drop_first().push(x));
        lemma_jser_items_snoc(s.drop_first(), x);
        if s.len() == 1 {
            assert(jser_items(s.push(x)) =~= jser_items(s) + seq![','] + jser(x));
        } else {
            assert(jser_items(s.push(x)) =~= jser_items(s) + seq![','] + jser(x));
        }
    }
}

proof fn lemma_jser_members_snoc(s: Seq<(Seq<char>, JsonSpec)>, m: (Seq<char>, JsonSpec))
    ensures
        jser_members(s.push(m)) == if s.len() == 0 {
            seq!['"'] + jesc(m.0) + seq!['"', ':'] + jser(m.1)
        } else {
            jser_members(s) + seq![','] + (seq!['"'] + jesc(m.0) + seq!['"', ':'] + jser(m.1))
        },
    decreases s.len(),
{
    if s.len() == 0 {
        assert(jser_members(s.push(m)) =~= seq!['"'] + jesc(m.0) + seq!['"', ':'] + jser(m.1));
    } else {
        assert(s.push(m).drop_first() =~= s.drop_first().push(m));
        lemma_jser_members_snoc(s.drop_first(), m);
        assert(jser_members(s.push(m)) =~= jser_members(s) + seq![','] + (seq!['"'] + jesc(m.0)
            + seq!['"', ':'] + jser(m.1)));
    }
}

/// The lowercase hex digit for a nibble, at run time.
fn hex_digit_exec(n: u8) -> (c: char)
    requires
        n < 16,
    ensures
        c == crate::encoding::hex_digit_char(n),
{
    if n < 10 {
        (n + 48) as char
    } else {
        (n + 87) as char
    }
}

/// Append the decimal digits of `n`.
fn write_uint(n: u64, out: &mut Vec<char>)
    ensures
        final(out)@ == old(out)@ + udigits(n),
    decreases n,
{
    if n < 10 {
        out.push(((n as u8) + 48) as char);
        proof {
            assert(final(out)@ =~= old(out)@ + udigits(n));
        }
    } else {
        write_uint(n / 10, out);
        out.push((((n % 10) as u8) + 48) as char);
        proof {
            assert(final(out)@ =~= old(out)@ + udigits(n));
        }
    }
}

/// Append the escaped body of a string literal.
fn write_escaped(s: &str, out: &mut Vec<char>)
    ensures
        final(out)@ == old(out)@ + jesc(s@),
{
    let n = s.unicode_len();
    let mut i: usize = 0;
    proof {
        assert(out@ =~= old(out)@ + jesc(s@.subrange(0, 0)));
    }
    while i < n
        invariant
            n == s@.len(),
            i <= n,
            out@ == old(out)@ + jesc(s@.subrange(0, i as int)),
        decreases n - i,
    {
        let c = s.get_char(i);
        let cv = c as u32;
        if c == '"' {
            out.push('\\');
            out.push('"');
        } else if c == '\\' {
            out.push('\\');
            out.push('\\');
        } else if cv < 32 {
            out.push('\\');
            out.push('u');
            out.push('0');
            out.push('0');
            out.push(hex_digit_exec((cv / 16) as u8));
            out.push(hex_digit_exec((cv % 16) as u8));
        } else {
            out.push(c);
        }
        proof {
            lemma_jesc_snoc(s@.subrange(0, i as int), c);
            assert(s@.subrange(0, i as int).push(c) =~= s@.subrange(0, i + 1 as int));
            assert(out@ =~= old(out)@ + jesc(s@.subrange(0, i + 1 as int)));
        }
        i = i + 1;
    }
    proof {
        assert(s@.subrange(0, n as int) =~= s@);
    }
}

/// Append the compact serialization of `v`.
#[verifier::loop_isolation(false)]
#[verifier::rlimit(100)]
fn write_value(v: &JsonValue, out: &mut Vec<char>)
    ensures
        final(out)@ == old(out)@ + jser(v@),
    decreases v,
{
    match v {
        JsonValue::Null => {
            out.push('n');
            out.push('u');
            out.push('l');
            out.push('l');
            proof {
                assert(final(out)@ =~= old(out)@ + jser(v@));
            }
        },
        JsonValue::Bool(b) => {
            if *b {
                out.push('t');
                out.push('r');
                out.push('u');
                out.push('e');
            } else {
                out.push('f');
                out.push('a');
                out.push('l');
                out.push('s');
                out.push('e');
            }
            proof {
                assert(final(out)@ =~= old(out)@ + jser(v@));
            }
        },
        JsonValue::UInt(n) => {
            write_uint(*n, out);
        },
        JsonValue::Str(s) => {
            out.push('"');
            write_escaped(s.as_str(), out);
            out.push('"');
            proof {
                assert(final(out)@ =~= old(out)@ + jser(v@));
            }
        },
        JsonValue::Arr(items) => {
            out.push('[');
            let ghost vs = jv_views(items@);
            proof {
                lemma_jv_views_index(items@);
                assert(vs.subrange(0, 0) =~= Seq::<JsonSpec>::empty());
                assert(out@ =~= old(out)@ + seq!['['] + jser_items(vs.subrange(0, 0)));
            }
            let n = items.len();
            let mut k: usize = 0;
            while k < n
                invariant
                    n == items@.len(),
                    k <= n,
                    vs == jv_views(items@),
                    vs.len() == n,
                    forall|t: int| 0 <= t < n ==> vs[t] == jv_view(items@[t]),
                    out@ == old(out)@ + seq!['['] + jser_items(vs.subrange(0, k as int)),
                decreases n - k,
            {
                if k > 0 {
                    out.push(',');
                }
                proof {
                    let vv = *v;
                    assert(vv == JsonValue::Arr(*items));
                    assert(decreases_to!(vv => vv->Arr_0));
                    assert(vv->Arr_0 == *items);
                    assert(decreases_to!(*items => items@));
                    assert(decreases_to!(items@ => items@[k as int]));
                }
                write_value(&items[k], out);
                proof {
                    lemma_jser_items_snoc(vs.subrange(0, k as int), vs[k as int]);
                    assert(vs.subrange(0, k as int).push(vs[k as int]) =~= vs.subrange(
                        0,
                        k + 1 as int,
                    ));
                    assert(out@ =~= old(out)@ + seq!['['] + jser_items(
                        vs.subrange(0, k + 1 as int),
                    ));
                }
                k = k + 1;
            }
            out.push(']');
            proof {
                assert(vs.subrange(0, n as int) =~= vs);
                assert(final(out)@ =~= old(out)@ + jser(v@));
            }
        },
        JsonValue::Obj(members) => {
            out.push('{');
            let ghost vs = jv_member_views(members@);
            proof {
                lemma_jv_member_views_index(members@);
                assert(vs.subrange(0, 0) =~= Seq::<(Seq<char>, JsonSpec)>::empty());
                assert(out@ =~= old(out)@ + seq!['{'] + jser_members(vs.subrange(0, 0)));
            }
            let n = members.len();
            let mut k: usize = 0;
            while k < n
                invariant
                    n == members@.len(),
                    k <= n,
                    vs == jv_member_views(members@),
                    vs.len() == n,
                    forall|t: int|
                        0 <= t < n ==> vs[t] == (members@[t].0@, jv_view(members@[t].1)),
                    out@ == old(out)@ + seq!['{'] + jser_members(vs.subrange(0, k as int)),
                decreases n - k,
            {
                if k > 0 {
                    out.push(',');
                }
                out.push('"');
                write_escaped(members[k].0.as_str(), out);
                out.push('"');
                out.push(':');
                proof {
                    let vv = *v;
                    assert(vv == JsonValue::Obj(*members));
                    assert(decreases_to!(vv => vv->Obj_0));
                    assert(vv->Obj_0 == *members);
                    assert(decreases_to!(*members => members@));
                    assert(decreases_to!(members@ => members@[k as int]));
                    assert(decreases_to!(members@[k as int] => members@[k as int].1));
                }
                write_value(&members[k].1, out);
                proof {
                    lemma_jser_members_snoc(vs.subrange(0, k as int), vs[k as int]);
                    assert(vs.subrange(0, k as int).push(vs[k as int]) =~= vs.subrange(
                        0,
                        k + 1 as int,
                    ));
                    assert(out@ =~= old(out)@ + seq!['{'] + jser_members(
                        vs.subrange(0, k + 1 as int),
                    ));
                }
                k = k + 1;
            }
            out.push('}');
            proof {
                assert(vs.subrange(0, n as int) =~= vs);
                assert(final(out)@ =~= old(out)@ + jser(v@));
            }
        },
    }
}

/// The compact serialization of a document.
pub fn json_to_string(v: &JsonValue) -> (r: String)
    ensures
        r@ == jser(v@),
{
    let mut out: Vec<char> = Vec::new();
    write_value(v, &mut out);
    crate::strutil::chars_to_string(&out)
}

/// The value of one hex digit character, 255 for a non-digit, at run time.
fn hex_char_val_exec(c: char) -> (v: u8)
    ensures
        v == crate::encoding::hex_char_val(c),
{
    let cv = c as u32;
    if 48 <= cv && cv <= 57 {
        (cv - 48) as u8
    } else if 97 <= cv && cv <= 102 {
        (cv - 87) as u8
    } else if 65 <= cv && cv <= 70 {
        (cv - 55) as u8
    } else {
        255
    }
}

/// The end of the digit run starting at `i`.
fn digit_run(s: &Vec<char>, i: usize) -> (e: usize)
    requires
        i <= s@.len(),
    ensures
        i <= e <= s@.len(),
        e as int == digit_run_end(s@, i as int),
{
    let n = s.len();
    let mut j: usize = i;
    while j < n
        invariant
            n == s@.len(),
            i <= j <= n,
            digit_run_end(s@, i as int) == digit_run_end(s@, j as int),
        decreases n - j,
    {
        let cv = s[j] as u32;
        if !(48 <= cv && cv <= 57) {
            return j;
        }
        j = j + 1;
    }
    j
}

/// The end of the whitespace run starting at `i`.
fn skip_ws_exec(s: &Vec<char>, i: usize) -> (e: usize)
    requires
        i <= s@.len(),
    ensures
        i <= e <= s@.len(),
        e as int == skip_ws(s@, i as int),
{
    let n = s.len();
    let mut j: usize = i;
    while j < n
        invariant
            n == s@.len(),
            i <= j <= n,
            skip_ws(s@, i as int) == skip_ws(s@, j as int),
        decreases n - j,
    {
        let c = s[j];
        if !(c == ' ' || c == '\t' || c == '\n' || c == '\r') {
            return j;
        }
        j = j + 1;
    }
    j
}

proof fn lemma_digits_val_nonneg(s: Seq<char>)
    requires
        forall|k: int| 0 <= k < s.len() ==> is_json_digit(#[trigger] s[k]),
    ensures
        digits_val(s) >= 0,
    decreases s.len(),
{
    if s.len() > 0 {
        lemma_digits_val_nonneg(s.drop_last());
    }
}

proof fn lemma_digits_val_prefix(s: Seq<char>, i: int, k: int, e: int)
    requires
        0 <= i <= k <= e <= s.len(),
        forall|t: int| i <= t < e ==> is_json_digit(#[trigger] s[t]),
    ensures
        digits_val(s.subrange(i, e)) >= digits_val(s.subrange(i, k)),
    decreases e - k,
{
    if k < e {
        let a = s.subrange(i, k);
        let b = s.subrange(i, k + 1);
        assert(b.drop_last() =~= a);
        assert forall|t: int| 0 <= t < a.len() implies is_json_digit(#[trigger] a[t]) by {
            assert(a[t] == s[i + t]);
        }
        lemma_digits_val_nonneg(a);
        assert(digits_val(b) == digits_val(a) * 10 + (s[k] as u32 - 48));
        assert(digits_val(b) >= digits_val(a));
        lemma_digits_val_prefix(s, i, k + 1, e);
    } else {
        assert(s.subrange(i, e) =~= s.subrange(i, k));
    }
}

proof fn lemma_digit_run_props(s: Seq<char>, i: int)
    requires
        0 <= i <= s.len(),
    ensures
        i <= digit_run_end(s, i) <= s.len(),
        forall|t: int| i <= t < digit_run_end(s, i) ==> is_json_digit(#[trigger] s[t]),
    decreases s.len() - i,
{
    if i < s.len() && is_json_digit(s[i]) {
        lemma_digit_run_props(s, i + 1);
    }
}

/// Parse the body of a string literal, starting right after the opening quote.
#[verifier::rlimit(100)]
fn parse_str_body(s: &Vec<char>, i: usize) -> (r: Option<(Vec<char>, usize)>)
    requires
        i <= s@.len(),
    ensures
        (match r {
            Some(p) => i < p.1 <= s@.len() && sparse_str(s@, i as int) == Some((p.0@, p.1 as int)),
            None => sparse_str(s@, i as int) is None,
        }),
{
    let n = s.len();
    let mut acc: Vec<char> = Vec::new();
    let mut j: usize = i;
    while j < n
        invariant
            n == s@.len(),
            i <= j <= n,
            (match sparse_str(s@, j as int) {
                Some(p) => sparse_str(s@, i as int) == Some((acc@ + p.0, p.1)),
                None => sparse_str(s@, i as int) is None,
            }),
        decreases n - j,
    {
        let c = s[j];
        proof {
            assert(0 <= j < s@.len());
        }
        if c == '"' {
            proof {
                assert(acc@ + Seq::<char>::empty() =~= acc@);
            }
            return Some((acc, j + 1));
        } else if c == '\\' {
            if j + 1 >= n {
                return None;
            }
            let e = s[j + 1];
            let esc: Option<char> = if e == '"' {
                Some('"')
            } else if e == '\\' {
                Some('\\')
            } else if e == '/' {
                Some('/')
            } else if e == 'b' {
                Some((8 as u8) as char)
            } else if e == 'f' {
                Some((12 as u8) as char)
            } else if e == 'n' {
                Some((10 as u8) as char)
            } else if e == 'r' {
                Some((13 as u8) as char)
            } else if e == 't' {
                Some((9 as u8) as char)
            } else {
                None
            };
            proof {
                assert(esc == unescape_char(e));
            }
            match esc {
                Some(u) => {
                    let ghost old_acc = acc@;
                    acc.push(u);
                    proof {
                        assert(acc@ =~= old_acc.push(u));
                        if sparse_str(s@, j + 2) is Some {
                            let p = sparse_str(s@, j + 2).unwrap();
                            assert(sparse_str(s@, j as int) == Some((seq![u] + p.0, p.1)));
                            assert(old_acc + (seq![u] + p.0) =~= acc@ + p.0);
                        }
                    }
                    j = j + 2;
                },
                None => {
                    if e == 'u' {
                        if n - j < 6 {
                            return None;
                        }
                        let a = hex_char_val_exec(s[j + 2]);
                        let b = hex_char_val_exec(s[j + 3]);
                        let cc = hex_char_val_exec(s[j + 4]);
                        let d = hex_char_val_exec(s[j + 5]);
                        if a == 255 || b == 255 || cc == 255 || d == 255 {
                            return None;
                        }
                        let val: u32 = (a as u32) * 4096 + (b as u32) * 256 + (cc as u32) * 16
                            + (d as u32);
                        proof {
                            assert(hex4_val(s@, j + 2) == val);
                        }
                        if val < 0xD800 || (0xE000 <= val && val <= 0xFFFF) {
                            let u = crate::strutil::char_from_u32(val);
                            proof {
                                vstd::utf8::char_u32_cast(u, val);
                                assert((hex4_val(s@, j + 2) as u32) as char == u);
                            }
                            let ghost old_acc = acc@;
                            acc.push(u);
                            proof {
                                assert(acc@ =~= old_acc.push(u));
                                if sparse_str(s@, j + 6) is Some {
                                    let p = sparse_str(s@, j + 6).unwrap();
                                    assert(sparse_str(s@, j as int) == Some((seq![u] + p.0, p.1)));
                                    assert(old_acc + (seq![u] + p.0) =~= acc@ + p.0);
                                }
                            }
                            j = j + 6;
                        } else if val < 0xDC00 {
                            // A high surrogate: only a `\u`-escaped low
                            // surrogate may follow, and the pair encodes one
                            // supplementary character.
                            if n - j < 12 {
                                return None;
                            }
                            if !(s[j + 6] == '\\' && s[j + 7] == 'u') {
                                return None;
                            }
                            let a2 = hex_char_val_exec(s[j + 8]);
                            let b2 = hex_char_val_exec(s[j + 9]);
                            let c2 = hex_char_val_exec(s[j + 10]);
                            let d2 = hex_char_val_exec(s[j + 11]);
                            if a2 == 255 || b2 == 255 || c2 == 255 || d2 == 255 {
                                return None;
                            }
                            let val2: u32 = (a2 as u32) * 4096 + (b2 as u32) * 256 + (c2 as u32)
                                * 16 + (d2 as u32);
                            proof {
                                assert(hex4_val(s@, j + 8) == val2);
                            }
                            if !(0xDC00 <= val2 && val2 < 0xE000) {
                                return None;
                            }
                            let combined: u32 = 0x10000 + (val - 0xD800) * 0x400 + (val2 - 0xDC00);
                            let u = crate::strutil::char_from_u32(combined);
                            proof {
                                vstd::utf8::char_u32_cast(u, combined);
                                assert(((0x10000 + (hex4_val(s@, j + 2) - 0xD800) * 0x400 + (
                                hex4_val(s@, j + 8) - 0xDC00)) as u32) as char == u);
                            }
                            let ghost old_acc = acc@;
                            acc.push(u);
                            proof {
                                assert(acc@ =~= old_acc.push(u));
                                if sparse_str(s@, j + 12) is Some {
                                    let p = sparse_str(s@, j + 12).unwrap();
                                    assert(sparse_str(s@, j as int) == Some((seq![u] + p.0, p.1)));
                                    assert(old_acc + (seq![u] + p.0) =~= acc@ + p.0);
                                }
                            }
                            j = j + 12;
                        } else {
                            // A lone low surrogate is no scalar value.
                            return None;
                        }
                    } else {
                        return None;
                    }
                },
            }
        } else {
            let cv = c as u32;
            if cv < 32 {
                return None;
            }
            let ghost old_acc = acc@;
            acc.push(c);
            proof {
                assert(acc@ =~= old_acc.push(c));
                if sparse_str(s@, j + 1) is Some {
                    let p = sparse_str(s@, j + 1).unwrap();
                    assert(sparse_str(s@, j as int) == Some((seq![c] + p.0, p.1)));
                    assert(old_acc + (seq![c] + p.0) =~= acc@ + p.0);
                }
            }
            j = j + 1;
        }
    }
    None
}

/// Parse one value, starting at `i`: leading whitespace is skipped first.
fn parse_value(s: &Vec<char>, i: usize) -> (r: Option<(JsonValue, usize)>)
    requires
        i <= s@.len(),
    ensures
        (match r {
            Some(p) => i < p.1 <= s@.len() && sparse_value(s@, i as int) == Some((
                p.0@,
                p.1 as int,
            )),
            None => sparse_value(s@, i as int) is None,
        }),
    decreases s@.len() - i, 1int,
{
    let i2 = skip_ws_exec(s, i);
    parse_value_at(s, i2)
}

/// Parse one value starting exactly at `i`, whitespace already skipped.
#[verifier::rlimit(100)]
#[verifier::spinoff_prover]
fn parse_value_at(s: &Vec<char>, i: usize) -> (r: Option<(JsonValue, usize)>)
    requires
        i <= s@.len(),
    ensures
        (match r {
            Some(p) => i < p.1 <= s@.len() && sparse_value_at(s@, i as int) == Some((
                p.0@,
                p.1 as int,
            )),
            None => sparse_value_at(s@, i as int) is None,
        }),
    decreases s@.len() - i, 0int,
{
    let n = s.len();
    if i >= n {
        return None;
    }
    let c = s[i];
    if c == 'n' {
        if n - i >= 4 && s[i + 1] == 'u' && s[i + 2] == 'l' && s[i + 3] == 'l' {
            proof {
                assert(s@.subrange(i as int, i + 4) =~= seq!['n', 'u', 'l', 'l']);
            }
            Some((JsonValue::Null, i + 4))
        } else {
            proof {
                if i + 4 <= n {
                    let t = s@.subrange(i as int, i + 4);
                    if t == seq!['n', 'u', 'l', 'l'] {
                        assert(s@[i + 1] == t[1] && s@[i + 2] == t[2] && s@[i + 3] == t[3]);
                    }
                }
            }
            None
        }
    } else if c == 't' {
        if n - i >= 4 && s[i + 1] == 'r' && s[i + 2] == 'u' && s[i + 3] == 'e' {
            proof {
                assert(s@.subrange(i as int, i + 4) =~= seq!['t', 'r', 'u', 'e']);
            }
            Some((JsonValue::Bool(true), i + 4))
        } else {
            proof {
                if i + 4 <= n {
                    let t = s@.subrange(i as int, i + 4);
                    if t == seq!['t', 'r', 'u', 'e'] {
                        assert(s@[i + 1] == t[1] && s@[i + 2] == t[2] && s@[i + 3] == t[3]);
                    }
                }
            }
            None
        }
    } else if c == 'f' {
        if n - i >= 5 && s[i + 1] == 'a' && s[i + 2] == 'l' && s[i + 3] == 's' && s[i + 4] == 'e' {
            proof {
                assert(s@.subrange(i as int, i + 5) =~= seq!['f', 'a', 'l', 's', 'e']);
            }
            Some((JsonValue::Bool(false), i + 5))
        } else {
            proof {
                if i + 5 <= n {
                    let t = s@.subrange(i as int, i + 5);
                    if t == seq!['f', 'a', 'l', 's', 'e'] {
                        assert(s@[i + 1] == t[1] && s@[i + 2] == t[2] && s@[i + 3] == t[3] && s@[i
                            + 4] == t[4]);
                    }
                }
            }
            None
        }
    } else if c == '"' {
        match parse_str_body(s, i + 1) {
            Some((chars, j)) => {
                let st = crate::strutil::chars_to_string(&chars);
                Some((JsonValue::Str(st), j))
            },
            None => None,
        }
    } else if c == '[' {
        if i + 1 < n && s[i + 1] == ']' {
            let empty: Vec<JsonValue> = Vec::new();
            proof {
                assert(jv_views(empty@) =~= Seq::<JsonSpec>::empty());
                assert(JsonSpec::Arr(jv_views(empty@)) =~~= JsonSpec::Arr(
                    Seq::<JsonSpec>::empty(),
                ));
            }
            Some((JsonValue::Arr(empty), i + 2))
        } else {
            match parse_items(s, i + 1) {
                Some((items, j)) => Some((JsonValue::Arr(items), j)),
                None => None,
            }
        }
    } else if c == '{' {
        if i + 1 < n && s[i + 1] == '}' {
            let empty: Vec<(String, JsonValue)> = Vec::new();
            proof {
                assert(jv_member_views(empty@) =~= Seq::<(Seq<char>, JsonSpec)>::empty());
                assert(JsonSpec::Obj(jv_member_views(empty@)) =~~= JsonSpec::Obj(
                    Seq::<(Seq<char>, JsonSpec)>::empty(),
                ));
            }
            Some((JsonValue::Obj(empty), i + 2))
        } else {
            match parse_members(s, i + 1) {
                Some((members, j)) => Some((JsonValue::Obj(members), j)),
                None => None,
            }
        }
    } else {
        let cv = c as u32;
        if 48 <= cv && cv <= 57 {
            let e = digit_run(s, i);
            proof {
                lemma_digit_run_props(s@, i as int);
                assert(is_json_digit(s@[i as int]));
                lemma_digit_run_props(s@, i as int + 1);
                assert(digit_run_end(s@, i as int) == digit_run_end(s@, i as int + 1));
                assert(e > i);
            }
            if c == '0' && e > i + 1 {
                return None;
            }
            let mut val: u64 = 0;
            let mut k: usize = i;
            proof {
                assert(s@.subrange(i as int, i as int) =~= Seq::<char>::empty());
            }
            while k < e
                invariant
                    i <= k <= e <= s@.len(),
                    e as int == digit_run_end(s@, i as int),
                    forall|t: int| i <= t < e ==> is_json_digit(#[trigger] s@[t]),
                    val as int == digits_val(s@.subrange(i as int, k as int)),
                decreases e - k,
            {
                let dv = s[k] as u32;
                proof {
                    assert(is_json_digit(s@[k as int]));
                }
                let d = (dv - 48) as u64;
                if val > (u64::MAX - d) / 10 {
                    proof {
                        let b = s@.subrange(i as int, k + 1 as int);
                        assert(b.drop_last() =~= s@.subrange(i as int, k as int));
                        assert(digits_val(b) == val as int * 10 + d);
                        assert(val as int * 10 + d > u64::MAX) by {
                            assert(val as int >= (u64::MAX - d) / 10 + 1);
                        }
                        lemma_digits_val_prefix(s@, i as int, k + 1, e as int);
                        assert(digits_val(s@.subrange(i as int, e as int)) > u64::MAX);
                    }
                    return None;
                }
                val = val * 10 + d;
                proof {
                    let b = s@.subrange(i as int, k + 1 as int);
                    assert(b.drop_last() =~= s@.subrange(i as int, k as int));
                    assert(b.last() == s@[k as int]);
                }
                k = k + 1;
            }
            Some((JsonValue::UInt(val), e))
        } else {
            None
        }
    }
}

/// Parse the elements of a non-empty array, starting right after `[`.
fn parse_items(s: &Vec<char>, i: usize) -> (r: Option<(Vec<JsonValue>, usize)>)
    requires
        i <= s@.len(),
    ensures
        (match r {
            Some(p) => i < p.1 <= s@.len() && sparse_items(s@, i as int) == Some((
                jv_views(p.0@),
                p.1 as int,
            )),
            None => sparse_items(s@, i as int) is None,
        }),
    decreases s@.len() - i, 2int,
{
    let n = s.len();
    let mut acc: Vec<JsonValue> = Vec::new();
    let mut j: usize = i;
    proof {
        assert(jv_views(acc@) =~= Seq::<JsonSpec>::empty());
    }
    while j < n
        invariant
            n == s@.len(),
            i <= j <= n,
            (match sparse_items(s@, j as int) {
                Some(p) => sparse_items(s@, i as int) == Some((jv_views(acc@) + p.0, p.1)),
                None => sparse_items(s@, i as int) is None,
            }),
        decreases n - j,
    {
        match parse_value(s, j) {
            None => {
                return None;
            },
            Some((v, vend)) => {
                let j2 = skip_ws_exec(s, vend);
                if j2 >= n {
                    return None;
                }
                let t = s[j2];
                let ghost old_acc = acc@;
                if t == ']' {
                    acc.push(v);
                    proof {
                        assert(acc@ =~= old_acc.push(v));
                        lemma_jv_views_snoc(old_acc, v);
                        assert(sparse_items(s@, j as int) == Some((seq![v@], j2 + 1 as int)));
                        assert(jv_views(old_acc) + seq![v@] =~= jv_views(acc@));
                    }
                    return Some((acc, j2 + 1));
                } else if t == ',' {
                    acc.push(v);
                    proof {
                        assert(acc@ =~= old_acc.push(v));
                        lemma_jv_views_snoc(old_acc, v);
                        if sparse_items(s@, j2 + 1) is Some {
                            let p = sparse_items(s@, j2 + 1).unwrap();
                            assert(sparse_items(s@, j as int) == Some((seq![v@] + p.0, p.1)));
                            assert(jv_views(old_acc) + (seq![v@] + p.0) =~= jv_views(acc@) + p.0);
                        }
                    }
                    j = j2 + 1;
                } else {
                    return None;
                }
            },
        }
    }
    proof {
        assert(sparse_items(s@, j as int) is None);
    }
    None
}

/// Parse the members of a non-empty object, starting right after `{`.
fn parse_members(s: &Vec<char>, i: usize) -> (r: Option<(Vec<(String, JsonValue)>, usize)>)
    requires
        i <= s@.len(),
    ensures
        (match r {
            Some(p) => i < p.1 <= s@.len() && sparse_members(s@, i as int) == Some((
                jv_member_views(p.0@),
                p.1 as int,
            )),
            None => sparse_members(s@, i as int) is None,
        }),
    decreases s@.len() - i, 2int,
{
    let n = s.len();
    let mut acc: Vec<(String, JsonValue)> = Vec::new();
    let mut j: usize = i;
    proof {
        assert(jv_member_views(acc@) =~= Seq::<(Seq<char>, JsonSpec)>::empty());
    }
    while j < n
        invariant
            n == s@.len(),
            i <= j <= n,
            (match sparse_members(s@, j as int) {
                Some(p) => sparse_members(s@, i as int) == Some((jv_member_views(acc@) + p.0, p.1)),
                None => sparse_members(s@, i as int) is None,
            }),
        decreases n - j,
    {
        let ks = skip_ws_exec(s, j);
        if ks >= n {
            return None;
        }
        if s[ks] != '"' {
            return None;
        }
        match parse_str_body(s, ks + 1) {
            None => {
                return None;
            },
            Some((kchars, kend)) => {
                let j2 = skip_ws_exec(s, kend);
                if j2 >= n {
                    return None;
                }
                if s[j2] != ':' {
                    return None;
                }
                match parse_value(s, j2 + 1) {
                    None => {
                        return None;
                    },
                    Some((v, vend)) => {
                        let m = skip_ws_exec(s, vend);
                        if m >= n {
                            return None;
                        }
                        let t = s[m];
                        let key = crate::strutil::chars_to_string(&kchars);
                        let ghost old_acc = acc@;
                        if t == '}' {
                            let ghost kv = key@;
                            acc.push((key, v));
                            proof {
                                assert(acc@ =~= old_acc.push((acc@[old_acc.len() as int].0, v)));
                                lemma_jv_member_views_snoc(old_acc, acc@[old_acc.len() as int].0, v);
                                assert(sparse_members(s@, j as int) == Some((
                                    seq![(kv, v@)],
                                    m + 1 as int,
                                )));
                                assert(jv_member_views(old_acc) + seq![(kv, v@)]
                                    =~= jv_member_views(acc@));
                            }
                            return Some((acc, m + 1));
                        } else if t == ',' {
                            let ghost kv = key@;
                            acc.push((key, v));
                            proof {
                                assert(acc@ =~= old_acc.push((acc@[old_acc.len() as int].0, v)));
                                lemma_jv_member_views_snoc(old_acc, acc@[old_acc.len() as int].0, v);
                                if sparse_members(s@, m + 1) is Some {
                                    let p = sparse_members(s@, m + 1).unwrap();
                                    assert(sparse_members(s@, j as int) == Some((
                                        seq![(kv, v@)] + p.0,
                                        p.1,
                                    )));
                                    assert(jv_member_views(old_acc) + (seq![(kv, v@)] + p.0)
                                        =~= jv_member_views(acc@) + p.0);
                                }
                            }
                            j = m + 1;
                        } else {
                            return None;
                        }
                    },
                }
            },
        }
    }
    proof {
        assert(sparse_members(s@, j as int) is None);
    }
    None
}

/// The first value under `key` among an object's members.
pub open spec fn obj_lookup(members: Seq<(Seq<char>, JsonSpec)>, key: Seq<char>) -> Option<
    JsonSpec,
>
    decreases members.len(),
{
    if members.len() == 0 {
        None
    } else if members[0].0 == key {
        Some(members[0].1)
    } else {
        obj_lookup(members.drop_first(), key)
    }
}

/// What looking `key` up in a document yields: nothing for a non-object.
pub open spec fn jget(j: JsonSpec, key: Seq<char>) -> Option<JsonSpec> {
    match j {
        JsonSpec::Obj(members) => obj_lookup(members, key),
        _ => None,
    }
}

proof fn lemma_obj_lookup_step(members: Seq<(Seq<char>, JsonSpec)>, k: int, key: Seq<char>)
    requires
        0 <= k < members.len(),
        members[k].0 != key,
        obj_lookup(members, key) == obj_lookup(members.subrange(k, members.len() as int), key),
    ensures
        obj_lookup(members, key) == obj_lookup(members.subrange(k + 1, members.len() as int), key),
{
    let t = members.subrange(k, members.len() as int);
    assert(t[0] == members[k]);
    assert(t.drop_first() =~= members.subrange(k + 1, members.len() as int));
}

impl JsonValue {
    /// The value under `key`, when this document is an object that holds it.
    #[verifier::loop_isolation(false)]
    pub fn get<'a>(&'a self, key: &str) -> (r: Option<&'a JsonValue>)
        ensures
            (match r {
                Some(v) => jget(self@, key@) == Some(v@),
                None => jget(self@, key@) is None,
            }),
    {
        match self {
            JsonValue::Obj(members) => {
                let ghost vs = jv_member_views(members@);
                proof {
                    lemma_jv_member_views_index(members@);
                    assert(vs.subrange(0, vs.len() as int) =~= vs);
                }
                let n = members.len();
                let mut k: usize = 0;
                while k < n
                    invariant
                        n == members@.len(),
                        k <= n,
                        vs == jv_member_views(members@),
                        vs.len() == n,
                        forall|t: int|
                            0 <= t < n ==> vs[t] == (members@[t].0@, jv_view(members@[t].1)),
                        jget(jv_view(*self), key@) == obj_lookup(
                            vs.subrange(k as int, n as int),
                            key@,
                        ),
                    decreases n - k,
                {
                    if crate::strutil::string_eq_str(&members[k].0, key) {
                        proof {
                            assert(vs.subrange(k as int, n as int)[0] == vs[k as int]);
                        }
                        return Some(&members[k].1);
                    }
                    proof {
                        lemma_obj_lookup_step(vs, k as int, key@);
                    }
                    k = k + 1;
                }
                proof {
                    assert(vs.subrange(n as int, n as int) =~= Seq::<(Seq<char>, JsonSpec)>::empty());
                }
                None
            },
            _ => None,
        }
    }

    /// The text of a string document.
    pub fn as_str<'a>(&'a self) -> (r: Option<&'a String>)
        ensures
            (match r {
                Some(t) => self@ == JsonSpec::Str(t@),
                None => !(self@ is Str),
            }),
    {
        match self {
            JsonValue::Str(t) => Some(t),
            _ => None,
        }
    }

    /// The value of an unsigned-integer document.
    pub fn as_u64(&self) -> (r: Option<u64>)
        ensures
            (match r {
                Some(n) => self@ == JsonSpec::UInt(n),
                None => !(self@ is UInt),
            }),
    {
        match self {
            JsonValue::UInt(n) => Some(*n),
            _ => None,
        }
    }

    /// The truth value of a boolean document.
    pub fn as_bool(&self) -> (r: Option<bool>)
        ensures
            (match r {
                Some(b) => self@ == JsonSpec::Bool(b),
                None => !(self@ is Bool),
            }),
    {
        match self {
            JsonValue::Bool(b) => Some(*b),
            _ => None,
        }
    }

    /// The elements of an array document.
    pub fn as_arr<'a>(&'a self) -> (r: Option<&'a Vec<JsonValue>>)
        ensures
            (match r {
                Some(items) => self@ == JsonSpec::Arr(jv_views(items@)),
                None => !(self@ is Arr),
            }),
    {
        match self {
            JsonValue::Arr(items) => Some(items),
            _ => None,
        }
    }

    /// The members of an object document.
    pub fn as_obj<'a>(&'a self) -> (r: Option<&'a Vec<(String, JsonValue)>>)
        ensures
            (match r {
                Some(members) => self@ == JsonSpec::Obj(jv_member_views(members@)),
                None => !(self@ is Obj),
            }),
    {
        match self {
            JsonValue::Obj(members) => Some(members),
            _ => None,
        }
    }

    /// Whether this document is `null`.
    pub fn is_null(&self) -> (r: bool)
        ensures
            r == (self@ is Null),
    {
        match self {
            JsonValue::Null => true,
            _ => false,
        }
    }
}

impl JsonValue {
    /// A structurally equal copy of this document.
    #[verifier::loop_isolation(false)]
    pub fn deep_clone(&self) -> (r: JsonValue)
        ensures
            r@ == self@,
        decreases self,
    {
        match self {
            JsonValue::Null => JsonValue::Null,
            JsonValue::Bool(b) => JsonValue::Bool(*b),
            JsonValue::UInt(n) => JsonValue::UInt(*n),
            JsonValue::Str(s) => JsonValue::Str(s.clone()),
            JsonValue::Arr(items) => {
                let n = items.len();
                let mut out: Vec<JsonValue> = Vec::new();
                let mut k: usize = 0;
                while k < n
                    invariant
                        n == items@.len(),
                        k <= n,
                        out@.len() == k,
                        forall|t: int| 0 <= t < k ==> out@[t]@ == items@[t]@,
                    decreases n - k,
                {
                    proof {
                        let vv = *self;
                        assert(vv == JsonValue::Arr(*items));
                        assert(decreases_to!(vv => vv->Arr_0));
                        assert(vv->Arr_0 == *items);
                        assert(decreases_to!(*items => items@));
                        assert(decreases_to!(items@ => items@[k as int]));
                    }
                    let c = items[k].deep_clone();
                    out.push(c);
                    k = k + 1;
                }
                proof {
                    lemma_jv_views_index(out@);
                    lemma_jv_views_index(items@);
                    assert(jv_views(out@) =~= jv_views(items@));
                }
                JsonValue::Arr(out)
            },
            JsonValue::Obj(members) => {
                let n = members.len();
                let mut out: Vec<(String, JsonValue)> = Vec::new();
                let mut k: usize = 0;
                while k < n
                    invariant
                        n == members@.len(),
                        k <= n,
                        out@.len() == k,
                        forall|t: int|
                            0 <= t < k ==> out@[t].0@ == members@[t].0@ && out@[t].1@
                                == members@[t].1@,
                    decreases n - k,
                {
                    proof {
                        let vv = *self;
                        assert(vv == JsonValue::Obj(*members));
                        assert(decreases_to!(vv => vv->Obj_0));
                        assert(vv->Obj_0 == *members);
                        assert(decreases_to!(*members => members@));
                        assert(decreases_to!(members@ => members@[k as int]));
                        assert(decreases_to!(members@[k as int] => members@[k as int].1));
                    }
                    let key = members[k].0.clone();
                    let c = members[k].1.deep_clone();
                    out.push((key, c));
                    k = k + 1;
                }
                proof {
                    lemma_jv_member_views_index(out@);
                    lemma_jv_member_views_index(members@);
                    assert(jv_member_views(out@) =~= jv_member_views(members@));
                }
                JsonValue::Obj(out)
            },
        }
    }
}

/// The decimal text of an unsigned integer.
pub fn u64_to_string(n: u64) -> (r: String)
    ensures
        r@ == udigits(n),
{
    let mut out: Vec<char> = Vec::new();
    write_uint(n, &mut out);
    crate::strutil::chars_to_string(&out)
}

/// Parse a whole document from text; the whole text must be one value.
pub fn json_parse(s: &str) -> (r: Option<JsonValue>)
    ensures
        (match r {
            Some(v) => sparse_doc(s@) == Some(v@),
            None => sparse_doc(s@) is None,
        }),
{
    let chars = crate::strutil::str_to_chars(s);
    match parse_value(&chars, 0) {
        Some((v, j)) => {
            let e = skip_ws_exec(&chars, j);
            if e == chars.len() {
                Some(v)
            } else {
                None
            }
        },
        None => None,
    }
}

} // verus!
