//! Extraction of assistant text that holds up against malformed provider
//! payloads: fixed paths first, then Needle over the raw payload.

use vstd::prelude::*;

use crate::error::{ErrorKind, SetuError};
use crate::extractor::{Extractor, FallbackExtractor, JsonPathExtractor, RegexExtractor, TextExtractor};
use crate::intelligence::{IntelligenceContext, IntelligenceInput};
use crate::json::{json_get, json_text, Json, JsonValue};
use crate::needle::{needle_inference, Confidence, NeedleEngine};
use crate::response::{plain_reply, ConversationResponse};
use crate::schema::{JsonSchema, SchemaType};
use crate::text::{is_blank, trim};
use crate::translator::ProviderRepresentation;

verus! {

/// `s` with every NUL character removed.
pub open spec fn without_nul(s: Seq<char>) -> Seq<char>
    decreases s.len(),
{
    if s.len() == 0 {
        s
    } else {
        let p = without_nul(s.drop_last());
        if s.last() == '\0' {
            p
        } else {
            p.push(s.last())
        }
    }
}

/// Text as it is handed out: NULs removed, then trimmed.
pub open spec fn sanitized(s: Seq<char>) -> Seq<char> {
    trim(without_nul(s))
}

/// Remove NUL characters and surrounding whitespace.
pub fn sanitize(text: &str) -> (r: String)
    ensures
        r@ == sanitized(text@),
{
    let cs = crate::text::chars_of(text);
    let mut out = String::new();
    let mut i: usize = 0;
    while i < cs.len()
        invariant
            i <= cs@.len(),
            cs@ == text@,
            out@ == without_nul(cs@.take(i as int)),
        decreases cs.len() - i,
    {
        assert(cs@.take(i as int + 1).drop_last() =~= cs@.take(i as int));
        if cs[i] != '\0' {
            crate::text::push_char(&mut out, cs[i]);
        }
        i = i + 1;
    }
    assert(cs@.take(cs@.len() as int) =~= cs@);
    crate::text::trim_str(out.as_str())
}

/// The schema Needle is asked to fill: an object with a required string
/// field `text`.
pub open spec fn is_reply_schema(s: JsonSchema) -> bool {
    &&& s.schema_type == SchemaType::Object
    &&& s.required@.len() == 1
    &&& s.required@[0]@ == "text"@
    &&& s.properties@.len() == 1
    &&& s.properties@[0].0@ == "text"@
    &&& s.properties@[0].1.schema_type == SchemaType::String
    &&& s.properties@[0].1.required@.len() == 0
    &&& s.properties@[0].1.properties@.len() == 0
}

/// The fixed extraction chain: five JSON paths, then the text between
/// `"content":"` and the next `"`.
pub open spec fn reliable_paths(e: FallbackExtractor) -> bool {
    &&& e.extractors@.len() == 7
    &&& e.extractors@[0] matches TextExtractor::JsonPath(x) && x.path@ == "choices.0.message.content"@
    &&& e.extractors@[1] matches TextExtractor::JsonPath(x) && x.path@ == "message.content"@
    &&& e.extractors@[2] matches TextExtractor::JsonPath(x) && x.path@ == "text"@
    &&& e.extractors@[3] matches TextExtractor::JsonPath(x) && x.path@ == "content"@
    &&& e.extractors@[4] matches TextExtractor::JsonPath(x) && x.path@ == "output"@
    &&& e.extractors@[5] matches TextExtractor::JsonPath(x) && x.path@ == "response"@
    &&& e.extractors@[6] matches TextExtractor::Between(x) && x.prefix@ == "\"content\":\""@
        && x.suffix@ == "\""@
}

/// Extraction that falls back to Needle when the fixed paths find nothing.
#[derive(Debug)]
pub struct ReliableExtractor {
    pub fallback: FallbackExtractor,
    pub needle: NeedleEngine,
    pub reply_schema: JsonSchema,
}

/// The text Needle reads: a string payload as it is, anything else as its
/// compact JSON text.
pub open spec fn needle_input(payload: Json) -> Seq<char> {
    match payload {
        Json::Str(s) => s,
        _ => json_text(payload),
    }
}

/// The `text` field of what Needle returned, or nothing.
pub open spec fn reply_text(j: Json) -> Seq<char> {
    match json_get(j, "text"@) {
        Some(Json::Str(t)) => t,
        _ => Seq::empty(),
    }
}

/// The reply for found text: its sanitized form, which must not be blank.
pub open spec fn finished(text: Seq<char>) -> Result<Seq<char>, ErrorKind> {
    if is_blank(sanitized(text)) {
        Err(ErrorKind::ParseFailure)
    } else {
        Ok(sanitized(text))
    }
}

/// What reliable extraction yields for `payload`: the assistant text, or the
/// kind of the failure. A null payload and an unreadable one are parse
/// failures; a non-null `error` field is a provider failure.
pub open spec fn reliable_extraction(t: ReliableExtractor, payload: Json) -> Result<Seq<char>, ErrorKind> {
    if payload is Null {
        Err(ErrorKind::ParseFailure)
    } else if json_get(payload, "error"@) matches Some(e) && !(e is Null) {
        Err(ErrorKind::ProviderFailure)
    } else {
        match t.fallback.extraction(payload) {
            Some(text) => finished(text),
            None => match needle_inference(t.needle, needle_input(payload), t.reply_schema) {
                Ok((j, _)) => if is_blank(reply_text(j)) {
                    Err(ErrorKind::ParseFailure)
                } else {
                    finished(reply_text(j))
                },
                Err(_) => Err(ErrorKind::ParseFailure),
            },
        }
    }
}

impl Default for ReliableExtractor {
    fn default() -> (r: Self)
        ensures
            reliable_paths(r.fallback),
            r.needle.min_confidence == (Confidence { num: 1, den: 2 }),
            is_reply_schema(r.reply_schema),
    {
        let fallback = FallbackExtractor::new(
            vec![
                TextExtractor::JsonPath(JsonPathExtractor::new("choices.0.message.content")),
                TextExtractor::JsonPath(JsonPathExtractor::new("message.content")),
                TextExtractor::JsonPath(JsonPathExtractor::new("text")),
                TextExtractor::JsonPath(JsonPathExtractor::new("content")),
                TextExtractor::JsonPath(JsonPathExtractor::new("output")),
                TextExtractor::JsonPath(JsonPathExtractor::new("response")),
                TextExtractor::Between(RegexExtractor::between("\"content\":\"", "\"")),
            ],
        );
        let reply_schema = JsonSchema {
            schema_type: SchemaType::Object,
            required: vec![String::from_str("text")],
            properties: vec![(String::from_str("text"), JsonSchema::string())],
        };
        ReliableExtractor { fallback, needle: NeedleEngine::new(), reply_schema }
    }
}

impl ReliableExtractor {
    /// The assistant reply in `representation` (see `reliable_extraction`).
    pub fn extract(&self, representation: &ProviderRepresentation) -> (r: crate::error::Result<
        ConversationResponse,
    >)
        ensures
            match reliable_extraction(*self, representation.payload@) {
                Ok(text) => r matches Ok(resp) && plain_reply(resp, text),
                Err(k) => r matches Err(e) && e.kind == k,
            },
    {
        let payload = &representation.payload;
        if payload.is_null() {
            return Err(SetuError::parse_failure("provider payload is null"));
        }
        if let Some(err) = payload.get("error") {
            if !err.is_null() {
                let mut m = String::from_str("provider error: ");
                m.append(crate::json::json_to_string(err).as_str());
                return Err(SetuError::with_message(ErrorKind::ProviderFailure, m));
            }
        }
        if let Ok(text) = self.fallback.extract_text(payload) {
            return Self::finish(text.as_str());
        }
        let raw = match payload {
            JsonValue::String(s) => s.clone(),
            other => crate::json::json_to_string(other),
        };
        let context = IntelligenceContext {
            source: Some(String::from_str("provider-response")),
            hints: vec![String::from_str("text")],
        };
        match self.needle.infer(&IntelligenceInput { text: raw }, &self.reply_schema, &context) {
            Ok((value, _)) => {
                let text = match value.get("text") {
                    Some(v) => match v.as_str() {
                        Some(t) => String::from_str(t),
                        None => String::new(),
                    },
                    None => String::new(),
                };
                if crate::text::is_blank_str(text.as_str()) {
                    return Err(SetuError::parse_failure("needle returned empty text"));
                }
                Self::finish(text.as_str())
            },
            Err(e) => {
                let mut m = String::from_str("failed to extract assistant content: ");
                m.append(e.to_string().as_str());
                Err(SetuError::with_message(ErrorKind::ParseFailure, m))
            },
        }
    }

    /// The plain reply holding the sanitized text, when it is not blank.
    fn finish(text: &str) -> (r: crate::error::Result<ConversationResponse>)
        ensures
            match finished(text@) {
                Ok(t) => r matches Ok(resp) && plain_reply(resp, t),
                Err(k) => r matches Err(e) && e.kind == k,
            },
    {
        let clean = sanitize(text);
        let response = ConversationResponse::assistant(clean.as_str());
        crate::validator::validate_response(&response)?;
        Ok(response)
    }
}

} // verus!
