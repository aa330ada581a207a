//! A JSON value model, its mathematical view, and the calls into `serde_json`
//! that parse and print JSON text.
//!
//! Numbers are kept as the text `serde_json` prints for them, so integers
//! read from JSON keep their digits.

use vstd::prelude::*;

use crate::text::{all_digits, digits_value};

verus! {

/// A JSON value.
#[derive(Debug, PartialEq)]
pub enum JsonValue {
    Null,
    Bool(bool),
    Number(String),
    String(String),
    Array(Vec<JsonValue>),
    /// Entries in order; a key is looked up by its first entry.
    Object(Vec<(String, JsonValue)>),
}

/// The mathematical view of a JSON value.
pub enum Json {
    Null,
    Bool(bool),
    Number(Seq<char>),
    Str(Seq<char>),
    Array(Seq<Json>),
    Object(Seq<(Seq<char>, Json)>),
}

pub open spec fn jview(v: JsonValue) -> Json
    decreases v, 0int,
{
    match v {
        JsonValue::Null => Json::Null,
        JsonValue::Bool(b) => Json::Bool(b),
        JsonValue::Number(n) => Json::Number(n@),
        JsonValue::String(s) => Json::Str(s@),
        JsonValue::Array(a) => Json::Array(jview_seq(a@, a@.len() as int)),
        JsonValue::Object(o) => Json::Object(jview_entries(o@, o@.len() as int)),
    }
}

/// Views of the first `k` elements.
pub open spec fn jview_seq(s: Seq<JsonValue>, k: int) -> Seq<Json>
    decreases s, k,
{
    if k <= 0 || k > s.len() {
        Seq::empty()
    } else {
        jview_seq(s, k - 1).push(jview(s[k - 1]))
    }
}

/// Views of the first `k` entries.
pub open spec fn jview_entries(s: Seq<(String, JsonValue)>, k: int) -> Seq<(Seq<char>, Json)>
    decreases s, k,
{
    if k <= 0 || k > s.len() {
        Seq::empty()
    } else {
        jview_entries(s, k - 1).push((s[k - 1].0@, jview(s[k - 1].1)))
    }
}

impl View for JsonValue {
    type V = Json;

    open spec fn view(&self) -> Json {
        jview(*self)
    }
}

pub proof fn lemma_jview_seq(s: Seq<JsonValue>, k: int)
    requires
        0 <= k <= s.len(),
    ensures
        jview_seq(s, k).len() == k,
        forall|i: int| 0 <= i < k ==> #[trigger] jview_seq(s, k)[i] == jview(s[i]),
    decreases k,
{
    if k > 0 {
        lemma_jview_seq(s, k - 1);
    }
}

pub proof fn lemma_jview_entries(s: Seq<(String, JsonValue)>, k: int)
    requires
        0 <= k <= s.len(),
    ensures
        jview_entries(s, k).len() == k,
        forall|i: int|
            0 <= i < k ==> #[trigger] jview_entries(s, k)[i] == (s[i].0@, jview(s[i].1)),
    decreases k,
{
    if k > 0 {
        lemma_jview_entries(s, k - 1);
    }
}

proof fn lemma_jview_seq_same(a: Seq<JsonValue>, b: Seq<JsonValue>, k: int)
    requires
        0 <= k <= a.len(),
        k <= b.len(),
        forall|i: int| 0 <= i < k ==> jview(a[i]) == jview(b[i]),
    ensures
        jview_seq(a, k) == jview_seq(b, k),
    decreases k,
{
    if k > 0 {
        lemma_jview_seq_same(a, b, k - 1);
    }
}

proof fn lemma_jview_entries_same(a: Seq<(String, JsonValue)>, b: Seq<(String, JsonValue)>, k: int)
    requires
        0 <= k <= a.len(),
        k <= b.len(),
        forall|i: int| 0 <= i < k ==> a[i].0@ == b[i].0@ && jview(a[i].1) == jview(b[i].1),
    ensures
        jview_entries(a, k) == jview_entries(b, k),
    decreases k,
{
    if k > 0 {
        lemma_jview_entries_same(a, b, k - 1);
    }
}

proof fn lemma_array_decreases(x: JsonValue, i: int)
    requires
        x is Array,
        0 <= i < x->Array_0@.len(),
    ensures
        decreases_to!(x => x->Array_0@[i]),
{
    match x {
        JsonValue::Array(a) => {
            assert(decreases_to!(x => a));
            assert(decreases_to!(a => a@));
            assert(decreases_to!(a@ => a@[i]));
        },
        _ => {},
    }
}

proof fn lemma_object_decreases(x: JsonValue, i: int)
    requires
        x is Object,
        0 <= i < x->Object_0@.len(),
    ensures
        decreases_to!(x => x->Object_0@[i].1),
{
    match x {
        JsonValue::Object(o) => {
            assert(decreases_to!(x => o));
            assert(decreases_to!(o => o@));
            assert(decreases_to!(o@ => o@[i]));
            assert(decreases_to!(o@[i] => o@[i].1));
        },
        _ => {},
    }
}

/// A copy of a JSON value.
pub fn clone_json(v: &JsonValue) -> (r: JsonValue)
    ensures
        r@ == v@,
    decreases v,
{
    match v {
        JsonValue::Null => JsonValue::Null,
        JsonValue::Bool(b) => JsonValue::Bool(*b),
        JsonValue::Number(n) => JsonValue::Number(n.clone()),
        JsonValue::String(s) => JsonValue::String(s.clone()),
        JsonValue::Array(a) => {
            let mut out: Vec<JsonValue> = Vec::new();
            let mut i: usize = 0;
            while i < a.len()
                invariant
                    i <= a@.len(),
                    out@.len() == i,
                    *v is Array,
                    (*v)->Array_0 == *a,
                    forall|k: int| 0 <= k < i ==> jview(#[trigger] out@[k]) == jview(a@[k]),
                decreases a.len() - i,
            {
                proof {
                    lemma_array_decreases(*v, i as int);
                }
                let c = clone_json(&a[i]);
                out.push(c);
                i = i + 1;
            }
            proof {
                lemma_jview_seq_same(out@, a@, a@.len() as int);
            }
            JsonValue::Array(out)
        },
        JsonValue::Object(o) => {
            let mut out: Vec<(String, JsonValue)> = Vec::new();
            let mut i: usize = 0;
            while i < o.len()
                invariant
                    i <= o@.len(),
                    out@.len() == i,
                    *v is Object,
                    (*v)->Object_0 == *o,
                    forall|k: int|
                        0 <= k < i ==> (#[trigger] out@[k]).0@ == o@[k].0@ && jview(out@[k].1)
                            == jview(o@[k].1),
                decreases o.len() - i,
            {
                proof {
                    lemma_object_decreases(*v, i as int);
                }
                let c = clone_json(&o[i].1);
                out.push((o[i].0.clone(), c));
                i = i + 1;
            }
            proof {
                lemma_jview_entries_same(out@, o@, o@.len() as int);
            }
            JsonValue::Object(out)
        },
    }
}

impl Clone for JsonValue {
    fn clone(&self) -> (r: Self)
        ensures
            r@ == self@,
    {
        clone_json(self)
    }
}

/// `i` is the position of the first entry with `key`.
pub open spec fn first_key_at(entries: Seq<(Seq<char>, Json)>, key: Seq<char>, i: int) -> bool {
    0 <= i < entries.len() && entries[i].0 == key && forall|j: int| 0 <= j < i ==> #[trigger] entries[j].0 != key
}

/// The value under `key` in an object: its first entry with that key.
pub open spec fn json_get(v: Json, key: Seq<char>) -> Option<Json> {
    match v {
        Json::Object(entries) => if exists|i: int| 0 <= i < entries.len() && #[trigger] entries[i].0 == key {
            Some(entries[choose|i: int| first_key_at(entries, key, i)].1)
        } else {
            None
        },
        _ => None,
    }
}

/// The element at `idx` of an array.
pub open spec fn json_index(v: Json, idx: int) -> Option<Json> {
    match v {
        Json::Array(items) => if 0 <= idx < items.len() {
            Some(items[idx])
        } else {
            None
        },
        _ => None,
    }
}

/// The string inside a JSON string.
pub open spec fn json_str(v: Json) -> Option<Seq<char>> {
    match v {
        Json::Str(s) => Some(s),
        _ => None,
    }
}

/// Chains an optional lookup.
pub open spec fn and_get(v: Option<Json>, key: Seq<char>) -> Option<Json> {
    match v {
        Some(x) => json_get(x, key),
        None => None,
    }
}

/// `serde_json::Value::as_u64`: the value of a number written with digits
/// only (as `serde_json` prints non-negative integers) that fits in 64 bits.
pub open spec fn json_u64(v: Json) -> Option<u64> {
    match v {
        Json::Number(t) => if t.len() > 0 && all_digits(t) && digits_value(t) <= u64::MAX {
            Some(digits_value(t) as u64)
        } else {
            None
        },
        _ => None,
    }
}

impl JsonValue {
    /// The value under `key` when this is an object (`Value::get(&str)`).
    pub fn get(&self, key: &str) -> (r: Option<&JsonValue>)
        ensures
            match json_get(self@, key@) {
                Some(j) => r matches Some(x) && x@ == j,
                None => r is None,
            },
    {
        match self {
            JsonValue::Object(o) => {
                proof {
                    lemma_jview_entries(o@, o@.len() as int);
                }
                let ghost entries = jview_entries(o@, o@.len() as int);
                let mut i: usize = 0;
                while i < o.len()
                    invariant
                        i <= o@.len(),
                        entries == jview_entries(o@, o@.len() as int),
                        self@ == Json::Object(entries),
                        entries.len() == o@.len(),
                        forall|k: int| 0 <= k < o@.len() ==> #[trigger] entries[k] == (o@[k].0@, jview(o@[k].1)),
                        forall|j: int| 0 <= j < i ==> entries[j].0 != key@,
                    decreases o.len() - i,
                {
                    if crate::text::str_eq(o[i].0.as_str(), key) {
                        proof {
                            assert(entries[i as int].0 == key@);
                            assert(0 <= i < entries.len() && entries[i as int].0 == key@);
                            assert(first_key_at(entries, key@, i as int));
                            let c = choose|c: int| first_key_at(entries, key@, c);
                            if c < i {
                                assert(entries[c].0 != key@);
                            } else if c > i {
                                assert(entries[i as int].0 != key@);
                            }
                            assert(c == i);
                            assert(exists|k: int| 0 <= k < entries.len() && #[trigger] entries[k].0 == key@);
                            assert(self@ is Object);
                            assert(self@->Object_0 == entries);
                            assert(json_get(self@, key@) == Some(entries[c].1));
                            assert(entries[c].1 == jview(o@[c].1));
                        }
                        return Some(&o[i].1);
                    }
                    i = i + 1;
                }
                None
            },
            _ => None,
        }
    }

    /// The element at `idx` when this is an array (`Value::get(usize)`).
    pub fn at(&self, idx: usize) -> (r: Option<&JsonValue>)
        ensures
            match json_index(self@, idx as int) {
                Some(j) => r matches Some(x) && x@ == j,
                None => r is None,
            },
    {
        match self {
            JsonValue::Array(a) => {
                proof {
                    lemma_jview_seq(a@, a@.len() as int);
                }
                if idx < a.len() {
                    Some(&a[idx])
                } else {
                    None
                }
            },
            _ => None,
        }
    }

    pub fn as_str(&self) -> (r: Option<&str>)
        ensures
            match json_str(self@) {
                Some(s) => r matches Some(x) && x@ == s,
                None => r is None,
            },
    {
        match self {
            JsonValue::String(s) => Some(s.as_str()),
            _ => None,
        }
    }

    pub fn is_null(&self) -> (r: bool)
        ensures
            r == (self@ is Null),
    {
        match self {
            JsonValue::Null => true,
            _ => false,
        }
    }

    /// `Value::as_u64`.
    pub fn as_u64(&self) -> (r: Option<u64>)
        ensures
            r == json_u64(self@),
    {
        match self {
            JsonValue::Number(t) => parse_digits_u64(t.as_str()),
            _ => None,
        }
    }

    /// A JSON string holding `s`.
    pub fn string(s: &str) -> (r: Self)
        ensures
            r@ == Json::Str(s@),
    {
        JsonValue::String(String::from_str(s))
    }
}

/// The value of a non-empty all-digit text that fits in 64 bits.
pub fn parse_digits_u64(t: &str) -> (r: Option<u64>)
    ensures
        r == (if t@.len() > 0 && all_digits(t@) && digits_value(t@) <= u64::MAX {
            Some(digits_value(t@) as u64)
        } else {
            None
        }),
{
    let v = crate::text::chars_of(t);
    if v.len() == 0 {
        return None;
    }
    let mut acc: u64 = 0;
    let mut i: usize = 0;
    while i < v.len()
        invariant
            v@ == t@,
            i <= v.len(),
            all_digits(t@.subrange(0, i as int)),
            acc as nat == digits_value(t@.subrange(0, i as int)),
        decreases v.len() - i,
    {
        let c = v[i];
        let ghost pre = t@.subrange(0, i as int);
        let ghost next = t@.subrange(0, i + 1);
        assert(next.drop_last() =~= pre);
        if !('0' <= c && c <= '9') {
            return None;
        }
        let d = (c as u32 - 48) as u64;
        if acc > (u64::MAX - d) / 10 {
            proof {
                assert(digits_value(next) == acc * 10 + d);
                assert(acc * 10 + d > u64::MAX) by (nonlinear_arith)
                    requires
                        acc > (u64::MAX - d) / 10,
                        d <= 9,
                ;
                if all_digits(t@) {
                    crate::text::lemma_digits_value_prefix_mono(t@, i + 1);
                }
            }
            return None;
        }
        acc = acc * 10 + d;
        i = i + 1;
    }
    assert(t@.subrange(0, i as int) =~= t@);
    Some(acc)
}

#[verifier::external_type_specification]
#[verifier::external_body]
pub struct ExSerdeValue(serde_json::Value);

/// What `serde_json::from_str::<serde_json::Value>` makes of `text`: `None`
/// when it rejects the text.
pub uninterp spec fn json_parse(text: Seq<char>) -> Option<Json>;

/// The compact text `serde_json` prints for a value (`Value::to_string`).
pub uninterp spec fn json_text(v: Json) -> Seq<char>;

/// Parses JSON text with `serde_json::from_str`. The claim: the result is
/// the named function of the text (`None` exactly when the crate rejects it).
#[verifier::external_body]
pub(crate) fn parse_json(text: &str) -> (r: Option<JsonValue>)
    ensures
        match r {
            Some(v) => json_parse(text@) == Some(v@),
            None => json_parse(text@) is None,
        },
{
    serde_json::from_str::<serde_json::Value>(text).ok().map(|v| from_serde(&v))
}

/// Prints a value as compact JSON text with `serde_json::Value::to_string`.
/// The claim: the text is the named function of the value.
#[verifier::external_body]
pub(crate) fn json_to_string(v: &JsonValue) -> (r: String)
    ensures
        r@ == json_text(v@),
{
    to_serde(v).to_string()
}

/// Converts a `serde_json` value into the library's model, one node for one
/// node; numbers become the text `serde_json` prints for them.
#[verifier::external_body]
fn from_serde(v: &serde_json::Value) -> JsonValue {
    match v {
        serde_json::Value::Null => JsonValue::Null,
        serde_json::Value::Bool(b) => JsonValue::Bool(*b),
        serde_json::Value::Number(n) => JsonValue::Number(n.to_string()),
        serde_json::Value::String(s) => JsonValue::String(s.clone()),
        serde_json::Value::Array(a) => JsonValue::Array(a.iter().map(from_serde).collect()),
        serde_json::Value::Object(o) => JsonValue::Object(
            o.iter().map(|(k, x)| (k.clone(), from_serde(x))).collect(),
        ),
    }
}

/// Converts the library's model into a `serde_json` value, one node for one
/// node; number text is read back as a `serde_json` number.
#[verifier::external_body]
fn to_serde(v: &JsonValue) -> serde_json::Value {
    match v {
        JsonValue::Null => serde_json::Value::Null,
        JsonValue::Bool(b) => serde_json::Value::Bool(*b),
        JsonValue::Number(n) => serde_json::from_str::<serde_json::Number>(n).map(
            serde_json::Value::Number,
        ).unwrap_or(serde_json::Value::Null),
        JsonValue::String(s) => serde_json::Value::String(s.clone()),
        JsonValue::Array(a) => serde_json::Value::Array(a.iter().map(to_serde).collect()),
        JsonValue::Object(o) => serde_json::Value::Object(
            o.iter().map(|(k, x)| (k.clone(), to_serde(x))).collect(),
        ),
    }
}

} // verus!
