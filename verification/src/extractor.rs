//! Extract assistant text from provider representations.

use vstd::prelude::*;

use crate::error::{ErrorKind, SetuError};
use crate::json::{json_get, json_index, json_text, Json, JsonValue};
use crate::text::{find_spec, is_blank, parse_usize_spec, trim};

verus! {

/// Extract a text field from a provider payload.
pub trait Extractor {
    /// The text this extractor finds in `payload`, if any.
    spec fn extraction(&self, payload: Json) -> Option<Seq<char>>;

    fn extract_text(&self, payload: &JsonValue) -> (r: crate::error::Result<String>)
        ensures
            r matches Ok(t) ==> self.extraction(payload@) == Some(t@),
            r is Err ==> self.extraction(payload@) is None,
            r matches Err(e) ==> e.kind == ErrorKind::ParseFailure,
    ;
}

/// One step of splitting on `.`: finished segments and the segment being read.
pub open spec fn split_step(acc: (Seq<Seq<char>>, Seq<char>), c: char) -> (Seq<Seq<char>>, Seq<char>) {
    if c == '.' {
        (
            if acc.1.len() > 0 {
                acc.0.push(acc.1)
            } else {
                acc.0
            },
            Seq::empty(),
        )
    } else {
        (acc.0, acc.1.push(c))
    }
}

/// The non-empty `.`-separated segments of a dotted path, in order.
pub open spec fn path_segments(path: Seq<char>) -> Seq<Seq<char>> {
    let r = path.fold_left(
        (Seq::<Seq<char>>::empty(), Seq::<char>::empty()),
        |acc: (Seq<Seq<char>>, Seq<char>), c: char| split_step(acc, c),
    );
    if r.1.len() > 0 {
        r.0.push(r.1)
    } else {
        r.0
    }
}

/// One path step: a segment that parses as an index selects an array
/// element, any other segment selects an object field.
pub open spec fn path_step(v: Json, seg: Seq<char>) -> Option<Json> {
    match parse_usize_spec(seg) {
        Some(i) => json_index(v, i as int),
        None => json_get(v, seg),
    }
}

/// The value reached by following the first `k` segments from `v`.
pub open spec fn path_walk(v: Json, segs: Seq<Seq<char>>, k: int) -> Option<Json>
    decreases k,
{
    if k <= 0 {
        Some(v)
    } else {
        match path_walk(v, segs, k - 1) {
            Some(x) => path_step(x, segs[k - 1]),
            None => None,
        }
    }
}

/// The text of a scalar: strings as they are, numbers as printed, booleans
/// as `true`/`false`; other values have no text.
pub open spec fn scalar_text(v: Json) -> Option<Seq<char>> {
    match v {
        Json::Str(s) => Some(s),
        Json::Number(n) => Some(n),
        Json::Bool(b) => Some(
            if b {
                "true"@
            } else {
                "false"@
            },
        ),
        _ => None,
    }
}

/// What a dotted-path extractor finds.
pub open spec fn path_extraction(path: Seq<char>, payload: Json) -> Option<Seq<char>> {
    let segs = path_segments(path);
    match path_walk(payload, segs, segs.len() as int) {
        Some(v) => scalar_text(v),
        None => None,
    }
}

/// Extract via a simple dotted JSON path, e.g. `choices.0.message.content`.
#[derive(Debug)]
pub struct JsonPathExtractor {
    pub path: String,
}

impl JsonPathExtractor {
    pub fn new(path: &str) -> (r: Self)
        ensures
            r.path@ == path@,
    {
        JsonPathExtractor { path: String::from_str(path) }
    }
}

/// The non-empty segments of a dotted path.
pub fn split_path(path: &str) -> (r: Vec<String>)
    ensures
        r@.len() == path_segments(path@).len(),
        forall|i: int| 0 <= i < r@.len() ==> #[trigger] r@[i]@ == path_segments(path@)[i],
{
    let v = crate::text::chars_of(path);
    let mut done: Vec<String> = Vec::new();
    let mut cur = String::new();
    let mut i: usize = 0;
    while i < v.len()
        invariant
            v@ == path@,
            i <= v.len(),
            ({
                let acc = path@.subrange(0, i as int).fold_left(
                    (Seq::<Seq<char>>::empty(), Seq::<char>::empty()),
                    |acc: (Seq<Seq<char>>, Seq<char>), c: char| split_step(acc, c),
                );
                &&& done@.len() == acc.0.len()
                &&& forall|k: int| 0 <= k < done@.len() ==> #[trigger] done@[k]@ == acc.0[k]
                &&& cur@ == acc.1
            }),
        decreases v.len() - i,
    {
        let c = v[i];
        proof {
            let sub = path@.subrange(0, i + 1);
            assert(sub.drop_last() =~= path@.subrange(0, i as int));
            assert(sub.last() == c);
        }
        if c == '.' {
            if cur.unicode_len() > 0 {
                done.push(cur);
            }
            cur = String::new();
        } else {
            crate::text::push_char(&mut cur, c);
        }
        i = i + 1;
    }
    assert(path@.subrange(0, v.len() as int) =~= path@);
    if cur.unicode_len() > 0 {
        done.push(cur);
    }
    done
}

fn path_error(path: &str, what: &str, detail: &str) -> (e: SetuError)
    ensures
        e.kind == ErrorKind::ParseFailure,
{
    let mut m = String::from_str("path '");
    m.append(path);
    m.append("' ");
    m.append(what);
    m.append(detail);
    SetuError::with_message(ErrorKind::ParseFailure, m)
}

impl Extractor for JsonPathExtractor {
    open spec fn extraction(&self, payload: Json) -> Option<Seq<char>> {
        path_extraction(self.path@, payload)
    }

    fn extract_text(&self, payload: &JsonValue) -> (r: crate::error::Result<String>) {
        let segs = split_path(self.path.as_str());
        let ghost spec_segs = path_segments(self.path@);
        let mut current: &JsonValue = payload;
        let mut i: usize = 0;
        while i < segs.len()
            invariant
                i <= segs@.len(),
                segs@.len() == spec_segs.len(),
                spec_segs == path_segments(self.path@),
                forall|k: int| 0 <= k < segs@.len() ==> #[trigger] segs@[k]@ == spec_segs[k],
                path_walk(payload@, spec_segs, i as int) == Some(current@),
            decreases segs.len() - i,
        {
            let seg = segs[i].as_str();
            let next = match crate::text::parse_usize(seg) {
                Some(idx) => current.at(idx),
                None => current.get(seg),
            };
            match next {
                Some(n) => {
                    current = n;
                },
                None => {
                    proof {
                        assert(path_walk(payload@, spec_segs, i + 1) is None);
                        lemma_walk_none_stays(payload@, spec_segs, i + 1, spec_segs.len() as int);
                    }
                    return Err(path_error(self.path.as_str(), "missing segment ", seg));
                },
            }
            i = i + 1;
        }
        match current {
            JsonValue::String(s) => Ok(s.clone()),
            JsonValue::Number(n) => Ok(n.clone()),
            JsonValue::Bool(b) => {
                if *b {
                    Ok(String::from_str("true"))
                } else {
                    Ok(String::from_str("false"))
                }
            },
            _ => Err(path_error(self.path.as_str(), "did not resolve to text", "")),
        }
    }
}

proof fn lemma_walk_none_stays(v: Json, segs: Seq<Seq<char>>, k: int, n: int)
    requires
        0 <= k <= n,
        path_walk(v, segs, k) is None,
    ensures
        path_walk(v, segs, n) is None,
    decreases n - k,
{
    if k < n {
        lemma_walk_none_stays(v, segs, k + 1, n);
    }
}

/// The text a between-extractor searches: a JSON string as it is, any other
/// value as printed JSON.
pub open spec fn raw_text(payload: Json) -> Seq<char> {
    match payload {
        Json::Str(s) => s,
        _ => json_text(payload),
    }
}

/// What a between-extractor finds: the trimmed text between the first
/// `prefix` and the first `suffix` after it.
pub open spec fn between_extraction(prefix: Seq<char>, suffix: Seq<char>, payload: Json) -> Option<
    Seq<char>,
> {
    let raw = raw_text(payload);
    match find_spec(raw, prefix) {
        None => None,
        Some(start) => {
            let from = start + prefix.len();
            let rest = raw.subrange(from, raw.len() as int);
            match find_spec(rest, suffix) {
                None => None,
                Some(end) => Some(trim(rest.subrange(0, end))),
            }
        },
    }
}

/// Extract the text between a prefix and a suffix (`prefix(.*?)suffix`).
#[derive(Debug)]
pub struct RegexExtractor {
    pub prefix: String,
    pub suffix: String,
}

impl RegexExtractor {
    pub fn between(prefix: &str, suffix: &str) -> (r: Self)
        ensures
            r.prefix@ == prefix@,
            r.suffix@ == suffix@,
    {
        RegexExtractor { prefix: String::from_str(prefix), suffix: String::from_str(suffix) }
    }
}

/// The text a between-extractor searches.
pub fn raw_text_of(payload: &JsonValue) -> (r: String)
    ensures
        r@ == raw_text(payload@),
{
    match payload {
        JsonValue::String(s) => s.clone(),
        _ => crate::json::json_to_string(payload),
    }
}

impl Extractor for RegexExtractor {
    open spec fn extraction(&self, payload: Json) -> Option<Seq<char>> {
        between_extraction(self.prefix@, self.suffix@, payload)
    }

    fn extract_text(&self, payload: &JsonValue) -> (r: crate::error::Result<String>) {
        let raw = raw_text_of(payload);
        let v = crate::text::chars_of(raw.as_str());
        let p = crate::text::chars_of(self.prefix.as_str());
        let start = match crate::text::find(&v, &p) {
            Some(s) => s,
            None => {
                let mut m = String::from_str("prefix '");
                m.append(self.prefix.as_str());
                m.append("' not found in provider payload");
                return Err(SetuError::with_message(ErrorKind::ParseFailure, m));
            },
        };
        let vlen = v.len();
        let plen = p.len();
        assert(crate::text::occurs_at(v@, p@, start as int));
        let from = start + plen;
        let rest_s = crate::text::string_of_range(&v, from, vlen);
        let rest = crate::text::chars_of(rest_s.as_str());
        let sfx = crate::text::chars_of(self.suffix.as_str());
        let end = match crate::text::find(&rest, &sfx) {
            Some(e) => e,
            None => {
                let mut m = String::from_str("suffix '");
                m.append(self.suffix.as_str());
                m.append("' not found in provider payload");
                return Err(SetuError::with_message(ErrorKind::ParseFailure, m));
            },
        };
        let rlen = rest.len();
        assert(crate::text::occurs_at(rest@, sfx@, end as int));
        assert(end <= rlen);
        let middle = crate::text::string_of_range(&rest, 0, end);
        Ok(crate::text::trim_str(middle.as_str()))
    }
}

/// The extractors a fallback chain can hold.
#[derive(Debug)]
pub enum TextExtractor {
    JsonPath(JsonPathExtractor),
    Between(RegexExtractor),
}

impl Extractor for TextExtractor {
    open spec fn extraction(&self, payload: Json) -> Option<Seq<char>> {
        match self {
            TextExtractor::JsonPath(x) => x.extraction(payload),
            TextExtractor::Between(x) => x.extraction(payload),
        }
    }

    fn extract_text(&self, payload: &JsonValue) -> (r: crate::error::Result<String>) {
        match self {
            TextExtractor::JsonPath(x) => x.extract_text(payload),
            TextExtractor::Between(x) => x.extract_text(payload),
        }
    }
}

/// The first non-blank text found by the extractors from position `i` on.
pub open spec fn first_good(exs: Seq<TextExtractor>, payload: Json, i: int) -> Option<Seq<char>>
    decreases exs.len() - i,
{
    if i < 0 || i >= exs.len() {
        None
    } else {
        match exs[i].extraction(payload) {
            Some(t) => if !is_blank(t) {
                Some(t)
            } else {
                first_good(exs, payload, i + 1)
            },
            None => first_good(exs, payload, i + 1),
        }
    }
}

/// Try a sequence of extractors until one yields non-blank text.
#[derive(Debug)]
pub struct FallbackExtractor {
    pub extractors: Vec<TextExtractor>,
}

impl FallbackExtractor {
    pub fn new(extractors: Vec<TextExtractor>) -> (r: Self)
        ensures
            r.extractors@ == extractors@,
    {
        FallbackExtractor { extractors }
    }
}

impl Extractor for FallbackExtractor {
    open spec fn extraction(&self, payload: Json) -> Option<Seq<char>> {
        first_good(self.extractors@, payload, 0)
    }

    fn extract_text(&self, payload: &JsonValue) -> (r: crate::error::Result<String>) {
        let mut last = SetuError::parse_failure("no extractors configured");
        let mut i: usize = 0;
        while i < self.extractors.len()
            invariant
                i <= self.extractors@.len(),
                first_good(self.extractors@, payload@, 0) == first_good(
                    self.extractors@,
                    payload@,
                    i as int,
                ),
                last.kind == ErrorKind::ParseFailure,
            decreases self.extractors.len() - i,
        {
            match self.extractors[i].extract_text(payload) {
                Ok(text) => {
                    if !crate::text::is_blank_str(text.as_str()) {
                        return Ok(text);
                    }
                    last = SetuError::parse_failure("extractor returned empty text");
                },
                Err(e) => {
                    last = e;
                },
            }
            i = i + 1;
        }
        Err(last)
    }
}

} // verus!
