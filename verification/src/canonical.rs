//! The canonical JSON shape, for providers that already speak it: requests
//! are written in it, responses read from it.

use vstd::prelude::*;

use crate::conversation::{role_name, Message, Role, TextContent};
use crate::error::{ErrorKind, SetuError};
use crate::json::{json_get, json_u64, Json, JsonValue};
use crate::request::ConversationRequest;
use crate::response::{ConversationResponse, FinishReason, Usage};
use crate::text::decimal;
use crate::translator::{ProviderRepresentation, TranslationContext};

verus! {

/// The canonical form of a message: `{"role": .., "content": {"text": ..}}`.
pub open spec fn canonical_message(m: Message) -> Json {
    Json::Object(
        seq![
            ("role"@, Json::Str(role_name(m.role))),
            ("content"@, Json::Object(seq![("text"@, Json::Str(m.content.text@))])),
        ],
    )
}

/// An optional text as JSON: the string, or null.
pub open spec fn opt_str_json(s: Option<String>) -> Json {
    match s {
        Some(v) => Json::Str(v@),
        None => Json::Null,
    }
}

/// The canonical form of a request; `temperature` is the request's
/// temperature as a JSON number, used when the request has one.
pub open spec fn canonical_request(req: ConversationRequest, temperature: Option<Json>) -> Json {
    Json::Object(
        seq![
            ("conversation"@, Json::Object(
                seq![("messages"@, Json::Array(req.conversation.messages@.map_values(|m: Message| canonical_message(m))))],
            )),
            ("model"@, opt_str_json(req.model)),
            ("temperature"@, match (req.temperature_bits, temperature) {
                (Some(_), Some(t)) => t,
                _ => Json::Null,
            }),
            ("max_tokens"@, match req.max_tokens {
                Some(n) => Json::Number(decimal(n as nat)),
                None => Json::Null,
            }),
            ("stop"@, Json::Array(req.stop@.map_values(|s: String| Json::Str(s@)))),
            ("stream"@, Json::Bool(req.stream)),
        ],
    )
}

/// The role a canonical role name denotes (names are exact, lower case).
pub open spec fn role_of_name(s: Seq<char>) -> Option<Role> {
    if s == "system"@ {
        Some(Role::System)
    } else if s == "user"@ {
        Some(Role::User)
    } else if s == "assistant"@ {
        Some(Role::Assistant)
    } else {
        None
    }
}

/// The finish reason a canonical name denotes.
pub open spec fn finish_of_name(s: Seq<char>) -> Option<FinishReason> {
    if s == "stop"@ {
        Some(FinishReason::Stop)
    } else if s == "length"@ {
        Some(FinishReason::Length)
    } else if s == "content_filter"@ {
        Some(FinishReason::ContentFilter)
    } else if s == "error"@ {
        Some(FinishReason::Error)
    } else {
        None
    }
}

/// A JSON number that is an unsigned 32-bit integer.
pub open spec fn json_u32(v: Json) -> Option<u32> {
    match json_u64(v) {
        Some(n) => if n <= u32::MAX {
            Some(n as u32)
        } else {
            None
        },
        None => None,
    }
}

/// The variant name of a unit enum value as JSON spells it: a string, or an
/// object with a single entry whose value is null.
pub open spec fn unit_variant_name(v: Json) -> Option<Seq<char>> {
    match v {
        Json::Str(s) => Some(s),
        Json::Object(e) => if e.len() == 1 && e[0].1 is Null {
            Some(e[0].0)
        } else {
            None
        },
        _ => None,
    }
}

pub open spec fn role_value(v: Json) -> Option<Role> {
    match unit_variant_name(v) {
        Some(n) => role_of_name(n),
        None => None,
    }
}

pub open spec fn finish_value(v: Json) -> Option<FinishReason> {
    match unit_variant_name(v) {
        Some(n) => finish_of_name(n),
        None => None,
    }
}

/// The fields of a record, by name from an object or by position from an
/// array of exactly that many elements; `None` for a value of another shape
/// or an array of another length. A name missing from an object gives a
/// missing field.
pub open spec fn record_fields(v: Json, names: Seq<Seq<char>>) -> Option<Seq<Option<Json>>> {
    match v {
        Json::Object(_) => Some(names.map_values(|n: Seq<char>| json_get(v, n))),
        Json::Array(items) => if items.len() == names.len() {
            Some(items.map_values(|x: Json| Some(x)))
        } else {
            None
        },
        _ => None,
    }
}

/// A required string field.
pub open spec fn text_value(f: Option<Json>) -> Option<Seq<char>> {
    match f {
        Some(Json::Str(s)) => Some(s),
        _ => None,
    }
}

/// The text of a content record `{"text": ..}`.
pub open spec fn content_text(c: Json) -> Option<Seq<char>> {
    match record_fields(c, seq!["text"@]) {
        Some(f) => text_value(f[0]),
        None => None,
    }
}

/// A message record `{"role": .., "content": ..}`.
pub open spec fn message_value(m: Json) -> Option<(Role, Seq<char>)> {
    match record_fields(m, seq!["role"@, "content"@]) {
        Some(f) => match (f[0], f[1]) {
            (Some(r), Some(c)) => match (role_value(r), content_text(c)) {
                (Some(role), Some(t)) => Some((role, t)),
                _ => None,
            },
            _ => None,
        },
        None => None,
    }
}

pub open spec fn and_u32(v: Option<Json>) -> Option<u32> {
    match v {
        Some(x) => json_u32(x),
        None => None,
    }
}

/// A usage record of three unsigned 32-bit counts.
pub open spec fn usage_value(u: Json) -> Option<Usage> {
    match record_fields(u, seq!["prompt_tokens"@, "completion_tokens"@, "total_tokens"@]) {
        Some(f) => match (and_u32(f[0]), and_u32(f[1]), and_u32(f[2])) {
            (Some(p), Some(c), Some(t)) => Some(Usage { prompt_tokens: p, completion_tokens: c, total_tokens: t }),
            _ => None,
        },
        None => None,
    }
}

/// An optional usage: missing or null is `None`.
pub open spec fn opt_usage(f: Option<Json>) -> Option<Option<Usage>> {
    match f {
        None => Some(None),
        Some(Json::Null) => Some(None),
        Some(u) => match usage_value(u) {
            Some(x) => Some(Some(x)),
            None => None,
        },
    }
}

/// An optional text: missing or null is `None`, a string is its text.
pub open spec fn opt_text(f: Option<Json>) -> Option<Option<Seq<char>>> {
    match f {
        None => Some(None),
        Some(Json::Null) => Some(None),
        Some(Json::Str(s)) => Some(Some(s)),
        _ => None,
    }
}

/// The names of a response's fields, in order.
pub open spec fn response_field_names() -> Seq<Seq<char>> {
    seq!["message"@, "finish_reason"@, "usage"@, "model"@, "provider"@]
}

/// What a canonical response payload holds: message role and text, finish
/// reason, usage, model and provider.
pub open spec fn canonical_value(v: Json) -> Option<
    (Role, Seq<char>, FinishReason, Option<Usage>, Option<Seq<char>>, Option<Seq<char>>),
> {
    match record_fields(v, response_field_names()) {
        Some(f) => match (f[0], f[1]) {
            (Some(m), Some(fr)) => match (message_value(m), finish_value(fr), opt_usage(f[2]), opt_text(f[3]), opt_text(f[4])) {
                (Some((role, text)), Some(finish), Some(usage), Some(model), Some(provider)) => Some(
                    (role, text, finish, usage, model, provider),
                ),
                _ => None,
            },
            _ => None,
        },
        None => None,
    }
}

/// `resp` is what a canonical response payload reads as, with the context's
/// provider filled in when the payload names none.
pub open spec fn canonical_decoding(v: Json, ctx: TranslationContext, resp: ConversationResponse) -> bool {
    canonical_value(v) matches Some((role, text, finish, usage, model, provider)) && {
        &&& resp.message.role == role
        &&& resp.message.content.text@ == text
        &&& resp.finish_reason == finish
        &&& resp.usage == usage
        &&& match resp.model {
            Some(s) => model == Some(s@),
            None => model is None,
        }
        &&& resp.provider matches Some(rp) && rp@ == (match provider {
            Some(p) => p,
            None => ctx.provider@,
        })
    }
}

/// The payload can be read as a canonical response.
pub open spec fn canonical_readable(v: Json) -> bool {
    canonical_value(v) is Some
}

/// Identity mapping used when the provider already speaks the canonical
/// shape.
#[derive(Debug)]
pub struct CanonicalJsonTranslator;

fn text_json(s: &str) -> (r: JsonValue)
    ensures
        r@ == Json::Str(s@),
{
    JsonValue::string(s)
}

fn canonical_message_json(m: &Message) -> (r: JsonValue)
    ensures
        r@ == canonical_message(*m),
{
    let content = vec![(String::from_str("text"), JsonValue::String(m.content.text.clone()))];
    proof {
        crate::json::lemma_jview_entries(content@, 1);
        assert(crate::json::jview_entries(content@, 1) =~= seq![("text"@, Json::Str(m.content.text@))]);
    }
    let o = vec![
        (String::from_str("role"), text_json(m.role.as_str())),
        (String::from_str("content"), JsonValue::Object(content)),
    ];
    proof {
        crate::json::lemma_jview_entries(o@, 2);
        assert(crate::json::jview_entries(o@, 2) =~= seq![
            ("role"@, Json::Str(role_name(m.role))),
            ("content"@, Json::Object(seq![("text"@, Json::Str(m.content.text@))])),
        ]);
    }
    JsonValue::Object(o)
}

/// The view of an optional value.
pub open spec fn opt_jview(o: Option<JsonValue>) -> Option<Json> {
    match o {
        Some(x) => Some(x@),
        None => None,
    }
}

pub open spec fn opt_sview(o: Option<String>) -> Option<Seq<char>> {
    match o {
        Some(x) => Some(x@),
        None => None,
    }
}

/// The fields of record `v` (see `record_fields`), copied out.
fn read_fields(v: &JsonValue, names: &Vec<String>) -> (r: Option<Vec<Option<JsonValue>>>)
    ensures
        match record_fields(v@, names@.map_values(|n: String| n@)) {
            Some(f) => r matches Some(out) && out@.len() == f.len() && forall|i: int|
                0 <= i < f.len() ==> opt_jview(#[trigger] out@[i]) == f[i],
            None => r is None,
        },
{
    let ghost ns = names@.map_values(|n: String| n@);
    match v {
        JsonValue::Object(_) => {
            let mut out: Vec<Option<JsonValue>> = Vec::new();
            let mut i: usize = 0;
            while i < names.len()
                invariant
                    i <= names@.len(),
                    v@ is Object,
                    ns == names@.map_values(|n: String| n@),
                    out@.len() == i,
                    forall|k: int| 0 <= k < i ==> opt_jview(#[trigger] out@[k]) == json_get(v@, ns[k]),
                decreases names.len() - i,
            {
                let x = match v.get(names[i].as_str()) {
                    Some(x) => Some(crate::json::clone_json(x)),
                    None => None,
                };
                out.push(x);
                i = i + 1;
            }
            Some(out)
        },
        JsonValue::Array(items) => {
            proof {
                crate::json::lemma_jview_seq(items@, items@.len() as int);
            }
            if items.len() != names.len() {
                return None;
            }
            let mut out: Vec<Option<JsonValue>> = Vec::new();
            let mut i: usize = 0;
            while i < items.len()
                invariant
                    i <= items@.len(),
                    v@ == Json::Array(crate::json::jview_seq(items@, items@.len() as int)),
                    crate::json::jview_seq(items@, items@.len() as int).len() == items@.len(),
                    forall|k: int| 0 <= k < items@.len() ==> #[trigger] crate::json::jview_seq(items@, items@.len() as int)[k]
                        == crate::json::jview(items@[k]),
                    out@.len() == i,
                    forall|k: int| 0 <= k < i ==> opt_jview(#[trigger] out@[k]) == Some(crate::json::jview(items@[k])),
                decreases items.len() - i,
            {
                out.push(Some(crate::json::clone_json(&items[i])));
                i = i + 1;
            }
            Some(out)
        },
        _ => None,
    }
}

fn names_of(a: &str, b: &str, c: &str, d: &str, e: &str, n: usize) -> (r: Vec<String>)
    requires
        1 <= n <= 5,
    ensures
        r@.map_values(|x: String| x@) == seq![a@, b@, c@, d@, e@].take(n as int),
{
    let mut r: Vec<String> = Vec::new();
    r.push(String::from_str(a));
    if n > 1 {
        r.push(String::from_str(b));
    }
    if n > 2 {
        r.push(String::from_str(c));
    }
    if n > 3 {
        r.push(String::from_str(d));
    }
    if n > 4 {
        r.push(String::from_str(e));
    }
    assert(r@.map_values(|x: String| x@) =~= seq![a@, b@, c@, d@, e@].take(n as int));
    r
}

fn unit_name(v: &JsonValue) -> (r: Option<String>)
    ensures
        opt_sview(r) == unit_variant_name(v@),
{
    match v {
        JsonValue::String(s) => Some(s.clone()),
        JsonValue::Object(o) => {
            proof {
                crate::json::lemma_jview_entries(o@, o@.len() as int);
            }
            if o.len() == 1 && o[0].1.is_null() {
                Some(o[0].0.clone())
            } else {
                None
            }
        },
        _ => None,
    }
}

fn role_of(v: &JsonValue) -> (r: Option<Role>)
    ensures
        r == role_value(v@),
{
    proof {
        reveal_strlit("system");
        reveal_strlit("user");
        reveal_strlit("assistant");
    }
    match unit_name(v) {
        Some(n) => if crate::text::str_eq(n.as_str(), "system") {
            Some(Role::System)
        } else if crate::text::str_eq(n.as_str(), "user") {
            Some(Role::User)
        } else if crate::text::str_eq(n.as_str(), "assistant") {
            Some(Role::Assistant)
        } else {
            None
        },
        None => None,
    }
}

fn finish_of(v: &JsonValue) -> (r: Option<FinishReason>)
    ensures
        r == finish_value(v@),
{
    proof {
        reveal_strlit("stop");
        reveal_strlit("length");
        reveal_strlit("content_filter");
        reveal_strlit("error");
    }
    match unit_name(v) {
        Some(n) => if crate::text::str_eq(n.as_str(), "stop") {
            Some(FinishReason::Stop)
        } else if crate::text::str_eq(n.as_str(), "length") {
            Some(FinishReason::Length)
        } else if crate::text::str_eq(n.as_str(), "content_filter") {
            Some(FinishReason::ContentFilter)
        } else if crate::text::str_eq(n.as_str(), "error") {
            Some(FinishReason::Error)
        } else {
            None
        },
        None => None,
    }
}

fn text_of(f: &Option<JsonValue>) -> (r: Option<String>)
    ensures
        opt_sview(r) == text_value(opt_jview(*f)),
{
    match f {
        Some(JsonValue::String(s)) => Some(s.clone()),
        _ => None,
    }
}

fn content_of(c: &JsonValue) -> (r: Option<String>)
    ensures
        opt_sview(r) == content_text(c@),
{
    let names = names_of("text", "", "", "", "", 1);
    proof {
        assert(seq!["text"@, ""@, ""@, ""@, ""@].take(1) =~= seq!["text"@]);
    }
    match read_fields(c, &names) {
        Some(f) => text_of(&f[0]),
        None => None,
    }
}

fn message_of(m: &JsonValue) -> (r: Option<(Role, String)>)
    ensures
        match message_value(m@) {
            Some((role, t)) => r matches Some((role2, t2)) && role2 == role && t2@ == t,
            None => r is None,
        },
{
    let names = names_of("role", "content", "", "", "", 2);
    proof {
        assert(seq!["role"@, "content"@, ""@, ""@, ""@].take(2) =~= seq!["role"@, "content"@]);
    }
    let f = match read_fields(m, &names) {
        Some(f) => f,
        None => {
            return None;
        },
    };
    match (&f[0], &f[1]) {
        (Some(r), Some(c)) => match (role_of(r), content_of(c)) {
            (Some(role), Some(t)) => Some((role, t)),
            _ => None,
        },
        _ => None,
    }
}

fn u32_of(f: &Option<JsonValue>) -> (r: Option<u32>)
    ensures
        r == and_u32(opt_jview(*f)),
{
    match f {
        Some(x) => match x.as_u64() {
            Some(n) => if n <= 0xffff_ffff {
                Some(n as u32)
            } else {
                None
            },
            None => None,
        },
        None => None,
    }
}

fn usage_of(u: &JsonValue) -> (r: Option<Usage>)
    ensures
        r == usage_value(u@),
{
    let names = names_of("prompt_tokens", "completion_tokens", "total_tokens", "", "", 3);
    proof {
        assert(seq!["prompt_tokens"@, "completion_tokens"@, "total_tokens"@, ""@, ""@].take(3) =~= seq![
            "prompt_tokens"@,
            "completion_tokens"@,
            "total_tokens"@,
        ]);
    }
    let f = match read_fields(u, &names) {
        Some(f) => f,
        None => {
            return None;
        },
    };
    match (u32_of(&f[0]), u32_of(&f[1]), u32_of(&f[2])) {
        (Some(p), Some(c), Some(t)) => Some(Usage { prompt_tokens: p, completion_tokens: c, total_tokens: t }),
        _ => None,
    }
}

fn opt_usage_of(f: &Option<JsonValue>) -> (r: Option<Option<Usage>>)
    ensures
        r == opt_usage(opt_jview(*f)),
{
    match f {
        None => Some(None),
        Some(JsonValue::Null) => Some(None),
        Some(u) => match usage_of(u) {
            Some(x) => Some(Some(x)),
            None => None,
        },
    }
}

fn opt_text_of(f: &Option<JsonValue>) -> (r: Option<Option<String>>)
    ensures
        match opt_text(opt_jview(*f)) {
            Some(o) => r matches Some(o2) && opt_sview(o2) == o,
            None => r is None,
        },
{
    match f {
        None => Some(None),
        Some(JsonValue::Null) => Some(None),
        Some(JsonValue::String(s)) => Some(Some(s.clone())),
        Some(_) => None,
    }
}

impl CanonicalJsonTranslator {
    /// The request in canonical form (see `canonical_request`).
    pub fn to_provider(
        &self,
        request: &ConversationRequest,
        temperature: Option<JsonValue>,
        ctx: &TranslationContext,
    ) -> (r: crate::error::Result<ProviderRepresentation>)
        ensures
            r matches Ok(rep) && rep.kind@ == "canonical"@ && rep.payload@ == canonical_request(
                *request,
                crate::http_provider::opt_json(temperature),
            ),
    {
        let msgs = &request.conversation.messages;
        let mut items: Vec<JsonValue> = Vec::new();
        let mut i: usize = 0;
        while i < msgs.len()
            invariant
                i <= msgs@.len(),
                items@.len() == i,
                forall|k: int| 0 <= k < i ==> (#[trigger] items@[k])@ == canonical_message(msgs@[k]),
            decreases msgs.len() - i,
        {
            items.push(canonical_message_json(&msgs[i]));
            i = i + 1;
        }
        proof {
            crate::json::lemma_jview_seq(items@, items@.len() as int);
            assert(crate::json::jview_seq(items@, items@.len() as int) =~= msgs@.map_values(
                |m: Message| canonical_message(m),
            ));
        }
        let ghost items_v = items@;
        let conversation = vec![(String::from_str("messages"), JsonValue::Array(items))];
        proof {
            crate::json::lemma_jview_entries(conversation@, 1);
            assert(crate::json::jview_entries(conversation@, 1) =~= seq![
                ("messages"@, Json::Array(msgs@.map_values(|m: Message| canonical_message(m)))),
            ]);
        }
        let mut stops: Vec<JsonValue> = Vec::new();
        let mut k: usize = 0;
        while k < request.stop.len()
            invariant
                k <= request.stop@.len(),
                stops@.len() == k,
                forall|j: int| 0 <= j < k ==> (#[trigger] stops@[j])@ == Json::Str(request.stop@[j]@),
            decreases request.stop.len() - k,
        {
            stops.push(JsonValue::String(request.stop[k].clone()));
            k = k + 1;
        }
        proof {
            crate::json::lemma_jview_seq(stops@, stops@.len() as int);
            assert(crate::json::jview_seq(stops@, stops@.len() as int) =~= request.stop@.map_values(
                |s: String| Json::Str(s@),
            ));
        }
        let ghost spec_t = crate::http_provider::opt_json(temperature);
        let temp = match request.temperature_bits {
            Some(_) => match temperature {
                Some(t) => t,
                None => JsonValue::Null,
            },
            None => JsonValue::Null,
        };
        let model = match &request.model {
            Some(m) => JsonValue::String(m.clone()),
            None => JsonValue::Null,
        };
        let max_tokens = match request.max_tokens {
            Some(n) => JsonValue::Number(crate::text::decimal_string(n as u64)),
            None => JsonValue::Null,
        };
        let o = vec![
            (String::from_str("conversation"), JsonValue::Object(conversation)),
            (String::from_str("model"), model),
            (String::from_str("temperature"), temp),
            (String::from_str("max_tokens"), max_tokens),
            (String::from_str("stop"), JsonValue::Array(stops)),
            (String::from_str("stream"), JsonValue::Bool(request.stream)),
        ];
        proof {
            crate::json::lemma_jview_entries(o@, 6);
            assert(o@[0].1@ == Json::Object(
                seq![("messages"@, Json::Array(msgs@.map_values(|m: Message| canonical_message(m))))],
            ));
            assert(o@[1].1@ == opt_str_json(request.model));
            assert(o@[2].1@ == match (request.temperature_bits, spec_t) {
                (Some(_), Some(t)) => t,
                _ => Json::Null,
            });
            assert(o@[4].1@ == Json::Array(request.stop@.map_values(|s: String| Json::Str(s@))));
            assert(crate::json::jview_entries(o@, 6) =~= match canonical_request(*request, spec_t) {
                Json::Object(e) => e,
                _ => Seq::empty(),
            });
        }
        Ok(ProviderRepresentation::new("canonical", JsonValue::Object(o)))
    }

    /// The response a canonical payload holds (see `canonical_decoding`);
    /// a payload of any other shape is a parse failure.
    pub fn decode(&self, representation: &ProviderRepresentation, ctx: &TranslationContext) -> (r:
        crate::error::Result<ConversationResponse>)
        ensures
            canonical_readable(representation.payload@) ==> (r matches Ok(resp) && canonical_decoding(
                representation.payload@,
                *ctx,
                resp,
            )),
            !canonical_readable(representation.payload@) ==> (r matches Err(e) && e.kind
                == ErrorKind::ParseFailure),
    {
        let bad = "failed to deserialize conversation response";
        let names = names_of("message", "finish_reason", "usage", "model", "provider", 5);
        proof {
            assert(seq!["message"@, "finish_reason"@, "usage"@, "model"@, "provider"@].take(5)
                =~= response_field_names());
        }
        let f = match read_fields(&representation.payload, &names) {
            Some(f) => f,
            None => {
                return Err(SetuError::parse_failure(bad));
            },
        };
        let (m, fr) = match (&f[0], &f[1]) {
            (Some(m), Some(fr)) => (m, fr),
            _ => {
                return Err(SetuError::parse_failure(bad));
            },
        };
        let (role, text) = match message_of(m) {
            Some(x) => x,
            None => {
                return Err(SetuError::parse_failure(bad));
            },
        };
        let finish = match finish_of(fr) {
            Some(x) => x,
            None => {
                return Err(SetuError::parse_failure(bad));
            },
        };
        let usage = match opt_usage_of(&f[2]) {
            Some(x) => x,
            None => {
                return Err(SetuError::parse_failure(bad));
            },
        };
        let model = match opt_text_of(&f[3]) {
            Some(x) => x,
            None => {
                return Err(SetuError::parse_failure(bad));
            },
        };
        let provider = match opt_text_of(&f[4]) {
            Some(Some(p)) => p,
            Some(None) => ctx.provider.clone(),
            None => {
                return Err(SetuError::parse_failure(bad));
            },
        };
        Ok(
            ConversationResponse {
                message: Message::new(role, TextContent::from_string(text)),
                finish_reason: finish,
                usage,
                model,
                provider: Some(provider),
            },
        )
    }
}

impl crate::translator::ResponseTranslator for CanonicalJsonTranslator {
    fn decode(&self, representation: &ProviderRepresentation, ctx: &TranslationContext) -> (r:
        crate::error::Result<ConversationResponse>)
        ensures
            canonical_readable(representation.payload@) ==> (r matches Ok(resp) && canonical_decoding(
                representation.payload@,
                *ctx,
                resp,
            )),
            !canonical_readable(representation.payload@) ==> (r matches Err(e) && e.kind
                == ErrorKind::ParseFailure),
    {
        CanonicalJsonTranslator::decode(self, representation, ctx)
    }
}

} // verus!
