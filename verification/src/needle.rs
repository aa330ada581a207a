//! Needle: embedded local extraction of structured data from text.
//!
//! Needle is small and deterministic and calls no remote model. It looks for
//! JSON that satisfies the schema, and falls back to labeled fields such as
//! `name: value`, `name=value` or `name is value`.

use vstd::prelude::*;

use crate::error::{ErrorKind, SetuError};
use crate::intelligence::{IntelligenceContext, IntelligenceInput};
use crate::json::{json_parse, Json, JsonValue};
use crate::schema::{accepts, JsonSchema, SchemaType};
use crate::text::{find_spec, lower, trim, trim_start};

verus! {

/// The label separators, in the order they are tried.
pub open spec fn label_sep(i: int) -> Seq<char> {
    if i == 0 {
        ":"@
    } else if i == 1 {
        "="@
    } else {
        " is "@
    }
}

fn label_sep_at(i: usize) -> (r: &'static str)
    requires
        i < 3,
    ensures
        r@ == label_sep(i as int),
{
    if i == 0 {
        ":"
    } else if i == 1 {
        "="
    } else {
        " is "
    }
}

/// Characters that end a labeled value.
pub open spec fn ends_token(c: char) -> bool {
    c == '\n' || c == ',' || c == ';' || c == '}'
}

/// The position of the first token-ending character at or after `j`, or the
/// length of `s`.
pub open spec fn token_end(s: Seq<char>, j: int) -> int
    decreases s.len() - j,
{
    if j < 0 || j >= s.len() {
        s.len() as int
    } else if ends_token(s[j]) {
        j
    } else {
        token_end(s, j + 1)
    }
}

/// `s` without leading double quotes.
pub open spec fn strip_lead_quotes(s: Seq<char>) -> Seq<char>
    decreases s.len(),
{
    if s.len() > 0 && s[0] == '"' {
        strip_lead_quotes(s.drop_first())
    } else {
        s
    }
}

/// `s` without trailing double quotes.
pub open spec fn strip_trail_quotes(s: Seq<char>) -> Seq<char>
    decreases s.len(),
{
    if s.len() > 0 && s.last() == '"' {
        strip_trail_quotes(s.drop_last())
    } else {
        s
    }
}

/// `s` without surrounding double quotes (`trim_matches('"')`).
pub open spec fn strip_quotes(s: Seq<char>) -> Seq<char> {
    strip_trail_quotes(strip_lead_quotes(s))
}

/// The value labeled `key` with separator `sep`: after the first
/// case-insensitive occurrence of `key` + `sep`, skip white space, read up
/// to a line break, `,`, `;` or `}`, trim, and drop surrounding quotes.
/// Empty values do not count.
pub open spec fn labeled_with(text: Seq<char>, key: Seq<char>, sep: Seq<char>) -> Option<Seq<char>> {
    let pattern = lower(key) + sep;
    match find_spec(lower(text), pattern) {
        None => None,
        Some(idx) => {
            let rest = trim_start(text.subrange(idx + pattern.len(), text.len() as int));
            let token = strip_quotes(trim(rest.subrange(0, token_end(rest, 0))));
            if token.len() > 0 {
                Some(token)
            } else {
                None
            }
        },
    }
}

/// The value labeled `key`, trying `:`, `=` and ` is ` in that order.
pub open spec fn labeled_value(text: Seq<char>, key: Seq<char>) -> Option<Seq<char>> {
    match labeled_with(text, key, label_sep(0)) {
        Some(t) => Some(t),
        None => match labeled_with(text, key, label_sep(1)) {
            Some(t) => Some(t),
            None => labeled_with(text, key, label_sep(2)),
        },
    }
}

fn strip_quote_bounds(v: &Vec<char>, from: usize, to: usize) -> (r: (usize, usize))
    requires
        from <= to <= v.len(),
    ensures
        from <= r.0 <= r.1 <= to,
        v@.subrange(r.0 as int, r.1 as int) == strip_quotes(v@.subrange(from as int, to as int)),
{
    let mut a = from;
    while a < to && v[a] == '"'
        invariant
            from <= a <= to <= v.len(),
            strip_lead_quotes(v@.subrange(from as int, to as int)) == strip_lead_quotes(
                v@.subrange(a as int, to as int),
            ),
        decreases to - a,
    {
        assert(v@.subrange(a as int, to as int).drop_first() =~= v@.subrange(a + 1, to as int));
        a = a + 1;
    }
    assert(strip_lead_quotes(v@.subrange(a as int, to as int)) == v@.subrange(a as int, to as int));
    let mut b = to;
    while b > a && v[b - 1] == '"'
        invariant
            from <= a <= b <= to <= v.len(),
            strip_trail_quotes(v@.subrange(a as int, to as int)) == strip_trail_quotes(
                v@.subrange(a as int, b as int),
            ),
        decreases b,
    {
        assert(v@.subrange(a as int, b as int).drop_last() =~= v@.subrange(a as int, b - 1));
        b = b - 1;
    }
    (a, b)
}

fn labeled_with_exec(text: &Vec<char>, lowered: &Vec<char>, key: &str, sep: &str) -> (r: Option<
    String,
>)
    requires
        lowered@ == lower(text@),
    ensures
        match labeled_with(text@, key@, sep@) {
            Some(t) => r matches Some(s) && s@ == t,
            None => r is None,
        },
{
    let mut pattern = crate::text::to_lower(key);
    pattern.append(sep);
    let pat = crate::text::chars_of(pattern.as_str());
    assert(pat@ == lower(key@) + sep@);
    let idx = match crate::text::find(lowered, &pat) {
        None => {
            return None;
        },
        Some(i) => i,
    };
    let n = text.len();
    let plen = pat.len();
    assert(crate::text::occurs_at(lowered@, pat@, idx as int));
    assert(lowered@.len() == text@.len());
    let from = idx + plen;
    let tail = crate::text::sub_vec(text, from, n);
    let s = crate::text::trim_start_index(&tail);
    let rest = crate::text::sub_vec(&tail, s, tail.len());
    let mut e: usize = 0;
    while e < rest.len() && !(rest[e] == '\n' || rest[e] == ',' || rest[e] == ';' || rest[e] == '}')
        invariant
            e <= rest.len(),
            token_end(rest@, 0) == token_end(rest@, e as int),
        decreases rest.len() - e,
    {
        e = e + 1;
    }
    let piece = crate::text::sub_vec(&rest, 0, e);
    let (a, b) = crate::text::trim_bounds(&piece);
    let trimmed = crate::text::sub_vec(&piece, a, b);
    let (qa, qb) = strip_quote_bounds(&trimmed, 0, trimmed.len());
    assert(trimmed@.subrange(0, trimmed@.len() as int) =~= trimmed@);
    if qa == qb {
        return None;
    }
    Some(crate::text::string_of_range(&trimmed, qa, qb))
}

/// The value labeled `key` in `text` (see `labeled_value`).
pub fn find_labeled(text: &str, key: &str) -> (r: Option<String>)
    ensures
        match labeled_value(text@, key@) {
            Some(t) => r matches Some(s) && s@ == t,
            None => r is None,
        },
{
    let v = crate::text::chars_of(text);
    let lowered_s = crate::text::to_lower(text);
    let lowered = crate::text::chars_of(lowered_s.as_str());
    let mut i: usize = 0;
    while i < 3
        invariant
            i <= 3,
            v@ == text@,
            lowered@ == lower(text@),
            forall|k: int| 0 <= k < i ==> labeled_with(text@, key@, #[trigger] label_sep(k)) is None,
        decreases 3 - i,
    {
        let sep = label_sep_at(i);
        match labeled_with_exec(&v, &lowered, key, sep) {
            Some(t) => {
                return Some(t);
            },
            None => {},
        }
        i = i + 1;
    }
    None
}

/// What a labeled value becomes for a field of type `t`: strings as they
/// are; numbers when the text is a JSON number; booleans from
/// `true`/`yes`/`1` and `false`/`no`/`0` (any ASCII case); objects and arrays
/// (and anything else) when the text parses as JSON.
pub open spec fn coerce_spec(raw: Seq<char>, t: SchemaType) -> Option<Json> {
    match t {
        SchemaType::String => Some(Json::Str(raw)),
        SchemaType::Number => match json_parse(raw) {
            Some(Json::Number(n)) => Some(Json::Number(n)),
            _ => None,
        },
        SchemaType::Boolean => {
            let l = lower(raw);
            if l == "true"@ || l == "yes"@ || l == "1"@ {
                Some(Json::Bool(true))
            } else if l == "false"@ || l == "no"@ || l == "0"@ {
                Some(Json::Bool(false))
            } else {
                None
            }
        },
        SchemaType::Object | SchemaType::Array => json_parse(raw),
    }
}

/// Convert a labeled value for a field of type `t` (see `coerce_spec`).
pub fn coerce(raw: &str, t: SchemaType) -> (r: Option<JsonValue>)
    ensures
        match coerce_spec(raw@, t) {
            Some(j) => r matches Some(v) && v@ == j,
            None => r is None,
        },
{
    match t {
        SchemaType::String => Some(JsonValue::String(String::from_str(raw))),
        SchemaType::Number => match crate::json::parse_json(raw) {
            Some(JsonValue::Number(n)) => Some(JsonValue::Number(n)),
            _ => None,
        },
        SchemaType::Boolean => {
            let l = crate::text::to_lower(raw);
            let ls = l.as_str();
            if crate::text::str_eq(ls, "true") || crate::text::str_eq(ls, "yes") || crate::text::str_eq(ls, "1") {
                Some(JsonValue::Bool(true))
            } else if crate::text::str_eq(ls, "false") || crate::text::str_eq(ls, "no") || crate::text::str_eq(ls, "0") {
                Some(JsonValue::Bool(false))
            } else {
                None
            }
        },
        _ => crate::json::parse_json(raw),
    }
}

/// The fields found for the first `k` described properties: each property
/// with a labeled value that converts, in property order.
pub open spec fn labeled_entries(text: Seq<char>, ps: Seq<(String, JsonSchema)>, k: int) -> Seq<(Seq<char>, Json)>
    decreases k,
{
    if k <= 0 || k > ps.len() {
        Seq::empty()
    } else {
        let prev = labeled_entries(text, ps, k - 1);
        match labeled_value(text, ps[k - 1].0@) {
            Some(raw) => match coerce_spec(raw, ps[k - 1].1.schema_type) {
                Some(v) => prev.push((ps[k - 1].0@, v)),
                None => prev,
            },
            None => prev,
        }
    }
}

/// Some entry is named `key`.
pub open spec fn has_entry(entries: Seq<(Seq<char>, Json)>, key: Seq<char>) -> bool {
    exists|i: int| 0 <= i < entries.len() && (#[trigger] entries[i]).0 == key
}

/// How an extracted value was found.
#[derive(Debug, Clone, Copy, PartialEq, Eq, Structural)]
pub enum NeedleMatch {
    /// The whole (trimmed) text was JSON satisfying the schema.
    Whole,
    /// The span from the first `{` to the last `}` was JSON satisfying the schema.
    Embedded,
    /// Labeled fields: `hits` of the `total` described fields were found.
    Labeled { hits: usize, total: usize },
}

/// What labeled-field extraction yields: the object of found fields, when at
/// least one field was found and every required field is among them.
pub open spec fn labeled_object(text: Seq<char>, s: JsonSchema) -> Option<(Json, NeedleMatch)> {
    let entries = labeled_entries(text, s.properties@, s.properties@.len() as int);
    if entries.len() > 0 && forall|i: int|
        0 <= i < s.required@.len() ==> has_entry(entries, (#[trigger] s.required@[i])@) {
        Some(
            (
                Json::Object(entries),
                NeedleMatch::Labeled { hits: entries.len() as usize, total: s.properties@.len() as usize },
            ),
        )
    } else {
        None
    }
}

proof fn lemma_entries_len(text: Seq<char>, ps: Seq<(String, JsonSchema)>, k: int)
    requires
        0 <= k <= ps.len(),
    ensures
        labeled_entries(text, ps, k).len() <= k,
    decreases k,
{
    if k > 0 {
        lemma_entries_len(text, ps, k - 1);
    }
}

/// Collect labeled fields (see `labeled_object`).
pub fn extract_labeled_fields(text: &str, schema: &JsonSchema) -> (r: Option<(JsonValue, NeedleMatch)>)
    ensures
        match labeled_object(text@, *schema) {
            Some((j, m)) => r matches Some((v, m2)) && v@ == j && m2 == m,
            None => r is None,
        },
{
    let ps = &schema.properties;
    let mut entries: Vec<(String, JsonValue)> = Vec::new();
    let mut i: usize = 0;
    while i < ps.len()
        invariant
            i <= ps@.len(),
            entries@.len() <= i,
            crate::json::jview_entries(entries@, entries@.len() as int) == labeled_entries(text@, ps@, i as int),
        decreases ps.len() - i,
    {
        let key = ps[i].0.as_str();
        let ghost before = entries@;
        match find_labeled(text, key) {
            Some(raw) => match coerce(raw.as_str(), ps[i].1.schema_type) {
                Some(v) => {
                    entries.push((ps[i].0.clone(), v));
                    proof {
                        lemma_jview_entries_push(before, entries@);
                    }
                },
                None => {},
            },
            None => {},
        }
        i = i + 1;
    }
    let ghost ev = crate::json::jview_entries(entries@, entries@.len() as int);
    proof {
        crate::json::lemma_jview_entries(entries@, entries@.len() as int);
    }
    let hits = entries.len();
    if hits == 0 {
        return None;
    }
    let mut k: usize = 0;
    while k < schema.required.len()
        invariant
            k <= schema.required@.len(),
            ev == crate::json::jview_entries(entries@, entries@.len() as int),
            ev == labeled_entries(text@, ps@, ps@.len() as int),
            ps@ == schema.properties@,
            ev.len() == entries@.len(),
            forall|a: int| 0 <= a < entries@.len() ==> #[trigger] ev[a] == (entries@[a].0@, entries@[a].1@),
            forall|q: int| 0 <= q < k ==> has_entry(ev, (#[trigger] schema.required@[q])@),
        decreases schema.required.len() - k,
    {
        let name = schema.required[k].as_str();
        let mut found = false;
        let mut a: usize = 0;
        while a < entries.len()
            invariant
                a <= entries@.len(),
                ev.len() == entries@.len(),
                forall|b: int| 0 <= b < entries@.len() ==> #[trigger] ev[b] == (entries@[b].0@, entries@[b].1@),
                found ==> has_entry(ev, name@),
                !found ==> forall|b: int| 0 <= b < a ==> (#[trigger] ev[b]).0 != name@,
            decreases entries.len() - a,
        {
            if crate::text::str_eq(entries[a].0.as_str(), name) {
                assert(ev[a as int].0 == name@);
                found = true;
            }
            a = a + 1;
        }
        if !found {
            proof {
                assert(!has_entry(ev, schema.required@[k as int]@));
            }
            return None;
        }
        k = k + 1;
    }
    proof {
        lemma_entries_len(text@, ps@, ps@.len() as int);
    }
    let total = ps.len();
    Some((JsonValue::Object(entries), NeedleMatch::Labeled { hits, total }))
}

proof fn lemma_jview_entries_push(before: Seq<(String, JsonValue)>, after: Seq<(String, JsonValue)>)
    requires
        after.len() == before.len() + 1,
        forall|i: int| 0 <= i < before.len() ==> after[i] == before[i],
    ensures
        crate::json::jview_entries(after, after.len() as int) == crate::json::jview_entries(
            before,
            before.len() as int,
        ).push((after.last().0@, after.last().1@)),
{
    lemma_entries_prefix(before, after, before.len() as int);
}

proof fn lemma_entries_prefix(a: Seq<(String, JsonValue)>, b: Seq<(String, JsonValue)>, k: int)
    requires
        0 <= k <= a.len(),
        k <= b.len(),
        forall|i: int| 0 <= i < k ==> a[i] == b[i],
    ensures
        crate::json::jview_entries(a, k) == crate::json::jview_entries(b, k),
    decreases k,
{
    if k > 0 {
        lemma_entries_prefix(a, b, k - 1);
    }
}

/// The position of the last `c` in `s`.
pub open spec fn last_index_of(s: Seq<char>, c: char) -> Option<int> {
    if exists|i: int| 0 <= i < s.len() && s[i] == c {
        Some(choose|i: int| 0 <= i < s.len() && s[i] == c && forall|j: int| i < j < s.len() ==> s[j] != c)
    } else {
        None
    }
}

/// What embedded-JSON extraction yields: the whole trimmed text when it is
/// JSON the schema accepts; otherwise the span from the first `{` to the last
/// `}` when that is JSON the schema accepts.
pub open spec fn embedded_json(text: Seq<char>, s: JsonSchema) -> Option<(Json, NeedleMatch)> {
    match json_parse(trim(text)) {
        Some(v) if accepts(s, v) => Some((v, NeedleMatch::Whole)),
        _ => match (find_spec(text, seq!['{']), last_index_of(text, '}')) {
            (Some(start), Some(end)) => if end <= start {
                None
            } else {
                match json_parse(text.subrange(start, end + 1)) {
                    Some(v) if accepts(s, v) => Some((v, NeedleMatch::Embedded)),
                    _ => None,
                }
            },
            _ => None,
        },
    }
}

fn last_index(v: &Vec<char>, c: char) -> (r: Option<usize>)
    ensures
        match r {
            Some(k) => last_index_of(v@, c) == Some(k as int) && k < v@.len() && v@[k as int] == c,
            None => last_index_of(v@, c) is None,
        },
{
    let mut i = v.len();
    while i > 0
        invariant
            i <= v@.len(),
            forall|j: int| i <= j < v@.len() ==> v@[j] != c,
        decreases i,
    {
        if v[i - 1] == c {
            proof {
                let k = (i - 1) as int;
                assert(0 <= k < v@.len() && v@[k] == c);
                let w = choose|w: int| 0 <= w < v@.len() && v@[w] == c && forall|j: int| w < j < v@.len() ==> v@[j] != c;
                if w < k {
                    assert(v@[k] != c);
                } else if w > k {
                    assert(v@[w] != c);
                }
            }
            return Some(i - 1);
        }
        i = i - 1;
    }
    None
}

/// Find JSON in the text (see `embedded_json`).
pub fn extract_embedded_json(text: &str, schema: &JsonSchema) -> (r: Option<(JsonValue, NeedleMatch)>)
    ensures
        match embedded_json(text@, *schema) {
            Some((j, m)) => r matches Some((v, m2)) && v@ == j && m2 == m,
            None => r is None,
        },
{
    let trimmed = crate::text::trim_str(text);
    if let Some(value) = crate::json::parse_json(trimmed.as_str()) {
        if schema.validate(&value).is_ok() {
            return Some((value, NeedleMatch::Whole));
        }
    }
    let v = crate::text::chars_of(text);
    let open = vec!['{'];
    assert(open@ =~= seq!['{']);
    let start = match crate::text::find(&v, &open) {
        Some(s) => s,
        None => {
            return None;
        },
    };
    let end = match last_index(&v, '}') {
        Some(e) => e,
        None => {
            return None;
        },
    };
    if end <= start {
        return None;
    }
    let slice = crate::text::string_of_range(&v, start, end + 1);
    match crate::json::parse_json(slice.as_str()) {
        Some(value) => {
            if schema.validate(&value).is_ok() {
                Some((value, NeedleMatch::Embedded))
            } else {
                None
            }
        },
        None => None,
    }
}

/// What Needle extracts: embedded JSON first; then, for object schemas,
/// labeled fields.
pub open spec fn needle_extraction(text: Seq<char>, s: JsonSchema) -> Option<(Json, NeedleMatch)> {
    match embedded_json(text, s) {
        Some(x) => Some(x),
        None => if s.schema_type == SchemaType::Object {
            labeled_object(text, s)
        } else {
            None
        },
    }
}

/// The confidence of a match as a fraction `(numerator, denominator)`:
/// 99/100 when the whole text was the value, 9/10 for an embedded span, and
/// 1/2 + 2/5 · hits/total for labeled fields (a total of 0 counts as 1).
pub open spec fn confidence_ratio(m: NeedleMatch) -> (int, int) {
    match m {
        NeedleMatch::Whole => (99, 100),
        NeedleMatch::Embedded => (9, 10),
        NeedleMatch::Labeled { hits, total } => {
            let t: int = if total == 0 { 1 } else { total as int };
            (5 * t + 4 * hits, 10 * t)
        },
    }
}

/// A confidence threshold `num / den`.
#[derive(Debug, Clone, Copy, PartialEq, Eq, Structural)]
pub struct Confidence {
    pub num: u32,
    pub den: u32,
}

/// The confidence of `m` is at least `min` (compared by cross-multiplication).
pub open spec fn meets_confidence(m: NeedleMatch, min: Confidence) -> bool {
    confidence_ratio(m).0 * min.den >= confidence_ratio(m).1 * min.num
}

impl NeedleMatch {
    /// The confidence of the match as `(numerator, denominator)`.
    pub fn confidence(self) -> (r: (u128, u128))
        ensures
            r.0 == confidence_ratio(self).0,
            r.1 == confidence_ratio(self).1,
    {
        match self {
            NeedleMatch::Whole => (99, 100),
            NeedleMatch::Embedded => (9, 10),
            NeedleMatch::Labeled { hits, total } => {
                let t: u128 = if total == 0 { 1 } else { total as u128 };
                (5 * t + 4 * (hits as u128), 10 * t)
            },
        }
    }

    /// Whether the confidence of the match reaches `min`.
    pub fn meets(self, min: Confidence) -> (r: bool)
        ensures
            r == meets_confidence(self, min),
    {
        let (n, d) = self.confidence();
        proof {
            assert(n <= 0x10_0000_0000_0000_0000u128);
            assert(n * (min.den as u128) <= 0x10_0000_0000_0000_0000u128 * 0xffff_ffffu128) by (nonlinear_arith)
                requires n <= 0x10_0000_0000_0000_0000u128, min.den <= 0xffff_ffffu32;
            assert(d * (min.num as u128) <= 0x10_0000_0000_0000_0000u128 * 0xffff_ffffu128) by (nonlinear_arith)
                requires d <= 0x10_0000_0000_0000_0000u128, min.num <= 0xffff_ffffu32;
        }
        n * (min.den as u128) >= d * (min.num as u128)
    }
}

/// Local structured-intelligence engine: extraction, validation against the
/// schema, and a minimum confidence.
#[derive(Debug)]
pub struct NeedleEngine {
    pub min_confidence: Confidence,
}

/// What inference yields: the extracted value when it satisfies the schema
/// and its confidence reaches the engine's threshold; otherwise the kind of
/// the failure.
pub open spec fn needle_inference(e: NeedleEngine, text: Seq<char>, s: JsonSchema) -> Result<
    (Json, NeedleMatch),
    ErrorKind,
> {
    match needle_extraction(text, s) {
        None => Err(ErrorKind::ParseFailure),
        Some((j, m)) => if !accepts(s, j) {
            Err(ErrorKind::Validation)
        } else if !meets_confidence(m, e.min_confidence) {
            Err(ErrorKind::Validation)
        } else {
            Ok((j, m))
        },
    }
}

impl NeedleEngine {
    /// An engine with the default threshold of 1/2.
    pub fn new() -> (r: Self)
        ensures
            r.min_confidence == (Confidence { num: 1, den: 2 }),
    {
        NeedleEngine { min_confidence: Confidence { num: 1, den: 2 } }
    }

    /// The extracted value and how it was found.
    pub fn extract(&self, text: &str, schema: &JsonSchema) -> (r: crate::error::Result<(JsonValue, NeedleMatch)>)
        ensures
            match needle_extraction(text@, *schema) {
                Some((j, m)) => r matches Ok((v, m2)) && v@ == j && m2 == m,
                None => r matches Err(e) && e.kind == ErrorKind::ParseFailure,
            },
    {
        if let Some(found) = extract_embedded_json(text, schema) {
            return Ok(found);
        }
        if schema.schema_type == SchemaType::Object {
            if let Some(found) = extract_labeled_fields(text, schema) {
                return Ok(found);
            }
        }
        Err(SetuError::parse_failure("needle could not extract a value matching the schema"))
    }

    /// Extract, then validate the value against the schema.
    pub fn extract_validated(&self, text: &str, schema: &JsonSchema) -> (r: crate::error::Result<
        (JsonValue, NeedleMatch),
    >)
        ensures
            match needle_extraction(text@, *schema) {
                Some((j, m)) => if accepts(*schema, j) {
                    r matches Ok((v, m2)) && v@ == j && m2 == m
                } else {
                    r matches Err(e) && e.kind == ErrorKind::Validation
                },
                None => r matches Err(e) && e.kind == ErrorKind::ParseFailure,
            },
    {
        let (value, how) = self.extract(text, schema)?;
        schema.validate(&value)?;
        Ok((value, how))
    }

    pub fn name(&self) -> (r: &'static str)
        ensures
            r@ == "needle"@,
    {
        "needle"
    }

    /// Extract from the input's text, validate, and check the confidence
    /// against the threshold; the context is not consulted.
    pub fn infer(
        &self,
        input: &IntelligenceInput,
        schema: &JsonSchema,
        context: &IntelligenceContext,
    ) -> (r: crate::error::Result<(JsonValue, NeedleMatch)>)
        ensures
            match needle_inference(*self, input.text@, *schema) {
                Ok((j, m)) => r matches Ok((v, m2)) && v@ == j && m2 == m,
                Err(k) => r matches Err(e) && e.kind == k,
            },
    {
        let (value, how) = self.extract_validated(input.text.as_str(), schema)?;
        if !how.meets(self.min_confidence) {
            return Err(SetuError::validation("needle confidence below threshold"));
        }
        Ok((value, how))
    }
}

} // verus!
