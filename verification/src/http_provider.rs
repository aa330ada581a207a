//! The HTTP provider adapters. Each call is split around the transport:
//! `prepare_at` decides what to send, the caller sends it, and `finish`
//! turns what came back into a conversation response.

use vstd::prelude::*;

use crate::conversation::{role_name, Message, Role};
use crate::error::{ErrorKind, SetuError};
use crate::json::{and_get, json_get, json_parse, json_str, json_text, json_u64, Json, JsonValue};
use crate::named::pair_views;
use crate::provider::{default_capabilities, ProviderCapabilities, ProviderDescriptor, ProviderId};
use crate::provider_error::{http_error_kind, http_error_message, HttpReply};
use crate::reliability::{is_reply_schema, reliable_extraction, reliable_paths, ReliableExtractor};
use crate::request::{valid_request, ConversationRequest};
use crate::response::{saturating_sum, ConversationResponse, FinishReason, Usage};
use crate::session::{expired_at, Session};
use crate::translator::{
    mock_response_paths, request_translation, ConversationTranslator, ProviderRepresentation,
    TranslationContext,
};

verus! {

/// A POST request for the transport: URL, headers and cookies in order, and
/// a JSON body.
#[derive(Debug)]
pub struct HttpCall {
    pub url: String,
    pub headers: Vec<(String, String)>,
    pub cookies: Vec<(String, String)>,
    pub json_body: String,
}

/// `e` is the transport failure `e0` attributed to provider `id`.
pub open spec fn attributed(e: SetuError, e0: SetuError, id: Seq<char>) -> bool {
    &&& crate::error::same_but_provider(e, e0)
    &&& e.provider matches Some(p) && p@ == id
}

/// The reply holding `text`, attributed to provider `id` and `model`, with
/// zero usage.
pub open spec fn http_json_reply(resp: ConversationResponse, text: Seq<char>, id: Seq<char>, model: Option<String>) -> bool {
    &&& resp.message.role == Role::Assistant
    &&& resp.message.content.text@ == text
    &&& resp.finish_reason == FinishReason::Stop
    &&& resp.provider matches Some(p) && p@ == id
    &&& resp.model == model
    &&& resp.usage == Some(Usage { prompt_tokens: 0, completion_tokens: 0, total_tokens: 0 })
}

/// The view of an optional JSON value.
pub open spec fn opt_json(v: Option<JsonValue>) -> Option<Json> {
    match v {
        Some(x) => Some(x@),
        None => None,
    }
}

/// A 2xx status.
pub open spec fn success_status(status: u16) -> bool {
    200 <= status <= 299
}

/// The session is present and expired at `now`.
pub open spec fn session_expired(session: Option<&Session>, now: i64) -> bool {
    session matches Some(s) && expired_at(s@, now)
}

/// The session's headers and cookies, or none.
pub open spec fn session_headers(session: Option<&Session>) -> Seq<(Seq<char>, Seq<char>)> {
    match session {
        Some(s) => s.headers.pairs(),
        None => Seq::empty(),
    }
}

pub open spec fn session_cookies(session: Option<&Session>) -> Seq<(Seq<char>, Seq<char>)> {
    match session {
        Some(s) => s.cookies.pairs(),
        None => Seq::empty(),
    }
}

/// The payload of a reply body: the body read as JSON, or else an object
/// whose `text` is the body.
pub open spec fn reply_payload(body: Seq<char>) -> Json {
    match json_parse(body) {
        Some(j) => j,
        None => Json::Object(seq![("text"@, Json::Str(body))]),
    }
}

/// Append pairs to a list of pairs.
fn append_pairs(out: &mut Vec<(String, String)>, pairs: &[(String, String)])
    ensures
        pair_views(final(out)@) == pair_views(old(out)@) + pair_views(pairs@),
{
    let ghost start = pair_views(out@);
    let mut i: usize = 0;
    while i < pairs.len()
        invariant
            i <= pairs@.len(),
            pair_views(out@) == start + pair_views(pairs@).take(i as int),
        decreases pairs.len() - i,
    {
        let ghost before = pair_views(out@);
        out.push((pairs[i].0.clone(), pairs[i].1.clone()));
        assert(pair_views(out@) =~= before.push(pair_views(pairs@)[i as int]));
        assert(pair_views(pairs@).take(i + 1) =~= pair_views(pairs@).take(i as int).push(
            pair_views(pairs@)[i as int],
        ));
        i = i + 1;
    }
    assert(pair_views(pairs@).take(i as int) =~= pair_views(pairs@));
}

/// The transport headers and cookies: `base` headers, then the session's.
fn session_parts(base: Vec<(String, String)>, session: Option<&Session>) -> (r: (
    Vec<(String, String)>,
    Vec<(String, String)>,
))
    ensures
        pair_views(r.0@) == pair_views(base@) + session_headers(session),
        pair_views(r.1@) == session_cookies(session),
{
    let mut headers = base;
    let mut cookies: Vec<(String, String)> = Vec::new();
    match session {
        Some(s) => {
            append_pairs(&mut cookies, s.cookies.entries());
            append_pairs(&mut headers, s.headers.entries());
            assert(pair_views(cookies@) =~= s.cookies.pairs());
        },
        None => {
            assert(pair_views(headers@) =~= pair_views(base@) + Seq::<(Seq<char>, Seq<char>)>::empty());
            assert(pair_views(cookies@) =~= Seq::<(Seq<char>, Seq<char>)>::empty());
        },
    }
    (headers, cookies)
}

fn header(name: &str, value: &str) -> (r: (String, String))
    ensures
        r.0@ == name@,
        r.1@ == value@,
{
    (String::from_str(name), String::from_str(value))
}

/// Posts the canonical JSON conversation to a base URL and extracts the
/// assistant text from whatever comes back.
#[derive(Debug)]
pub struct HttpJsonProvider {
    pub id: ProviderId,
    pub base_url: String,
    pub upstream_model: Option<String>,
    pub translator: ConversationTranslator,
    pub extractor: ReliableExtractor,
    pub capabilities: ProviderCapabilities,
}

/// The translation context of a call: the provider's id, and the request's
/// model, else the provider's upstream model.
pub open spec fn http_json_context(p: HttpJsonProvider, request: ConversationRequest, ctx: TranslationContext) -> bool {
    &&& ctx.provider@ == p.id.0@
    &&& ctx.model == (match request.model {
        Some(m) => Some(m),
        None => p.upstream_model,
    })
}

impl HttpJsonProvider {
    pub fn new(name: &str, base_url: &str) -> (r: Self)
        ensures
            r.id.0@ == name@,
            r.base_url@ == base_url@,
            r.upstream_model is None,
            mock_response_paths(r.translator.response.extractor),
            r.translator.response.validator.required_keys@.len() == 0,
            reliable_paths(r.extractor.fallback),
            is_reply_schema(r.extractor.reply_schema),
            r.extractor.needle.min_confidence == (crate::needle::Confidence { num: 1, den: 2 }),
            r.capabilities == (ProviderCapabilities { streaming: true, ..default_capabilities() }),
    {
        HttpJsonProvider {
            id: ProviderId::new(name),
            base_url: String::from_str(base_url),
            upstream_model: None,
            translator: ConversationTranslator::mock(),
            extractor: ReliableExtractor::default(),
            capabilities: ProviderCapabilities::text_only().with_streaming(),
        }
    }

    pub fn with_model(self, model: &str) -> (r: Self)
        ensures
            r.upstream_model matches Some(m) && m@ == model@,
            r.id == self.id,
            r.base_url == self.base_url,
            r.capabilities == self.capabilities,
    {
        HttpJsonProvider { upstream_model: Some(String::from_str(model)), ..self }
    }

    pub fn id(&self) -> (r: &ProviderId)
        ensures
            r == &self.id,
    {
        &self.id
    }

    pub fn capabilities(&self) -> (r: &ProviderCapabilities)
        ensures
            r == &self.capabilities,
    {
        &self.capabilities
    }

    pub fn descriptor(&self) -> (r: ProviderDescriptor)
        ensures
            r.id == self.id,
            r.capabilities == self.capabilities,
    {
        ProviderDescriptor { id: self.id.clone(), capabilities: self.capabilities }
    }

    /// What to send for `request` at `now`: the request must be valid and the
    /// session unexpired; the body is the translated conversation, the
    /// headers `accept: application/json` then the session's, the cookies
    /// the session's.
    pub fn prepare_at(&self, request: &ConversationRequest, session: Option<&Session>, now: i64) -> (r:
        crate::error::Result<(HttpCall, TranslationContext)>)
        ensures
            !valid_request(*request) ==> (r matches Err(e) && e.kind == ErrorKind::Validation),
            valid_request(*request) && session_expired(session, now) ==> (r matches Err(e) && e.kind
                == ErrorKind::SessionExpired),
            r matches Ok((call, ctx)) ==> {
                &&& valid_request(*request)
                &&& !session_expired(session, now)
                &&& http_json_context(*self, *request, ctx)
                &&& call.url@ == self.base_url@
                &&& pair_views(call.headers@) == seq![("accept"@, "application/json"@)] + session_headers(
                    session,
                )
                &&& pair_views(call.cookies@) == session_cookies(session)
                &&& exists|rep: ProviderRepresentation|
                    #[trigger] request_translation(*request, ctx, Ok(rep)) && call.json_body@
                        == json_text(rep.payload@)
            },
            valid_request(*request) && !session_expired(session, now) && r is Err ==> exists|
                ctx: TranslationContext,
                e: SetuError,
            |
                http_json_context(*self, *request, ctx) && #[trigger] request_translation(
                    *request,
                    ctx,
                    Err(e),
                ) && r == Err::<(HttpCall, TranslationContext), SetuError>(e),
    {
        request.validate()?;
        if let Some(s) = session {
            if s.is_expired_at(now) {
                let mut m = String::from_str("session for provider '");
                m.append(self.id.as_str());
                m.append("' is expired");
                return Err(SetuError::with_message(ErrorKind::SessionExpired, m));
            }
        }
        let ctx = TranslationContext {
            provider: self.id.to_string(),
            model: match &request.model {
                Some(m) => Some(m.clone()),
                None => crate::error::clone_opt_string(&self.upstream_model),
            },
        };
        let translated = self.translator.translate_request(request, &ctx);
        let ghost out = translated;
        let representation = match translated {
            Ok(rep) => rep,
            Err(e) => {
                proof {
                    assert(request_translation(*request, ctx, Err(e)));
                }
                return Err(e);
            },
        };
        let body = crate::json::json_to_string(&representation.payload);
        let base = vec![header("accept", "application/json")];
        assert(pair_views(base@) =~= seq![("accept"@, "application/json"@)]);
        let (headers, cookies) = session_parts(base, session);
        proof {
            assert(request_translation(*request, ctx, Ok(representation)));
        }
        Ok((HttpCall { url: self.base_url.clone(), headers, cookies, json_body: body }, ctx))
    }

    /// The response for what the transport returned: transport failures and
    /// non-2xx replies become errors attributed to the provider; otherwise
    /// the assistant text is extracted from the reply payload.
    pub fn finish(&self, ctx: &TranslationContext, outcome: Result<HttpReply, SetuError>) -> (r:
        crate::error::Result<ConversationResponse>)
        ensures
            match outcome {
                Err(e0) => r matches Err(e) && attributed(e, e0, self.id.0@),
                Ok(reply) => if !success_status(reply.status) {
                    r matches Err(e) && e.kind == http_error_kind(reply.status, reply.body@) && e.message@
                        == http_error_message(reply.status, reply.body@)
                } else {
                    match reliable_extraction(self.extractor, reply_payload(reply.body@)) {
                        Ok(text) => r matches Ok(resp) && http_json_reply(resp, text, self.id.0@, ctx.model),
                        Err(k) => r matches Err(e) && e.kind == k,
                    }
                },
            },
    {
        let reply = match outcome {
            Ok(reply) => reply,
            Err(e) => {
                return Err(crate::provider_error::normalize_transport_error(self.id.as_str(), e));
            },
        };
        if !(200 <= reply.status && reply.status <= 299) {
            return Err(crate::provider_error::normalize_http_error(self.id.as_str(), &reply));
        }
        let payload = match crate::json::parse_json(reply.body.as_str()) {
            Some(v) => v,
            None => {
                let o = vec![(String::from_str("text"), JsonValue::String(reply.body.clone()))];
                proof {
                    crate::json::lemma_jview_entries(o@, 1);
                    assert(crate::json::jview_entries(o@, 1) =~= seq![("text"@, Json::Str(reply.body@))]);
                }
                JsonValue::Object(o)
            },
        };
        let inbound = ProviderRepresentation::new("http_json", payload);
        proof {
            reveal_strlit("http_json");
            reveal_strlit("mock");
            reveal_strlit("echo");
            assert("http_json"@.len() == 9);
            assert("mock"@.len() == 4 && "echo"@.len() == 4);
            assert(inbound.kind@ != "mock"@);
            assert(inbound.kind@ != "echo"@);
        }
        let mut response = match self.translator.translate_response(&inbound, ctx) {
            Ok(r) => r,
            Err(err) => {
                if err.kind == ErrorKind::ParseFailure {
                    self.extractor.extract(&inbound)?
                } else {
                    return Err(err);
                }
            },
        };
        response.provider = Some(self.id.to_string());
        response.model = crate::error::clone_opt_string(&ctx.model);
        if response.usage.is_none() {
            response.usage = Some(Usage::new(0, 0));
        }
        Ok(response)
    }
}

/// `s` without trailing `/` characters.
pub open spec fn trim_slashes(s: Seq<char>) -> Seq<char>
    decreases s.len(),
{
    if s.len() > 0 && s.last() == '/' {
        trim_slashes(s.drop_last())
    } else {
        s
    }
}

/// The JSON form of one message for an OpenAI-compatible upstream.
pub open spec fn upstream_message(m: Message) -> Json {
    Json::Object(seq![("role"@, Json::Str(role_name(m.role))), ("content"@, Json::Str(m.content.text@))])
}

/// The request body for an OpenAI-compatible upstream: model (empty when
/// none), messages, `stream: false`, then the temperature, `max_tokens` and
/// `stop` when the request has them.
pub open spec fn upstream_body(request: ConversationRequest, temperature: Option<Json>) -> Json {
    let base = seq![
        ("model"@, Json::Str(
            match request.model {
                Some(m) => m@,
                None => Seq::empty(),
            },
        )),
        ("messages"@, Json::Array(request.conversation.messages@.map_values(|m: Message| upstream_message(m)))),
        ("stream"@, Json::Bool(false)),
    ];
    let with_t = match (request.temperature_bits, temperature) {
        (Some(_), Some(t)) => base.push(("temperature"@, t)),
        _ => base,
    };
    let with_n = match request.max_tokens {
        Some(n) => with_t.push(("max_tokens"@, Json::Number(crate::text::decimal(n as nat)))),
        None => with_t,
    };
    Json::Object(
        if request.stop@.len() > 0 {
            with_n.push(("stop"@, Json::Array(request.stop@.map_values(|s: String| Json::Str(s@)))))
        } else {
            with_n
        },
    )
}

/// The finish reason an upstream names: `length`, `content_filter`, or
/// else `Stop`.
pub open spec fn upstream_finish(v: Option<Json>) -> FinishReason {
    match v {
        Some(Json::Str(s)) => if s == "length"@ {
            FinishReason::Length
        } else if s == "content_filter"@ {
            FinishReason::ContentFilter
        } else {
            FinishReason::Stop
        },
        _ => FinishReason::Stop,
    }
}

/// `choices/0` as a JSON pointer reads it: element 0 of an array, or the
/// field `0` of an object.
pub open spec fn pointer_zero(v: Option<Json>) -> Option<Json> {
    match v {
        Some(Json::Array(items)) => if items.len() > 0 {
            Some(items[0])
        } else {
            None
        },
        Some(Json::Object(_)) => and_get(v, "0"@),
        _ => None,
    }
}

/// The first choice of an upstream reply.
pub open spec fn first_choice(v: Json) -> Option<Json> {
    pointer_zero(json_get(v, "choices"@))
}

/// The assistant content of an upstream reply: `choices/0/message/content`,
/// else `text`.
pub open spec fn upstream_content(v: Json) -> Option<Seq<char>> {
    match and_get(and_get(first_choice(v), "message"@), "content"@) {
        Some(Json::Str(s)) => Some(s),
        _ => match json_get(v, "text"@) {
            Some(Json::Str(s)) => Some(s),
            _ => None,
        },
    }
}

/// A token count of an upstream usage object: `as_u64`, 0 when missing,
/// truncated to 32 bits.
pub open spec fn usage_count(u: Json, key: Seq<char>) -> u32 {
    match json_get(u, key) {
        Some(x) => match json_u64(x) {
            Some(n) => n as u32,
            None => 0,
        },
        None => 0,
    }
}

/// What an upstream reply becomes: the assistant content, with the finish
/// reason, model (the request's, else the reply's) and usage it reports.
pub open spec fn upstream_reply(resp: ConversationResponse, v: Json, provider: Seq<char>, model: Option<String>) -> bool {
    &&& upstream_content(v) matches Some(c) && resp.message.content.text@ == c
    &&& resp.message.role == Role::Assistant
    &&& resp.provider matches Some(p) && p@ == provider
    &&& resp.finish_reason == upstream_finish(and_get(first_choice(v), "finish_reason"@))
    &&& match model {
        Some(m) => resp.model == Some(m),
        None => match json_get(v, "model"@) {
            Some(Json::Str(s)) => resp.model matches Some(m) && m@ == s,
            _ => resp.model is None,
        },
    }
    &&& match json_get(v, "usage"@) {
        Some(u) => resp.usage == Some(
            Usage {
                prompt_tokens: usage_count(u, "prompt_tokens"@),
                completion_tokens: usage_count(u, "completion_tokens"@),
                total_tokens: saturating_sum(usage_count(u, "prompt_tokens"@), usage_count(u, "completion_tokens"@)),
            },
        ),
        None => resp.usage is None,
    }
}

fn pointer_zero_exec(v: Option<&JsonValue>) -> (r: Option<&JsonValue>)
    ensures
        match pointer_zero(match v {
            Some(x) => Some(x@),
            None => None,
        }) {
            Some(j) => r matches Some(x) && x@ == j,
            None => r is None,
        },
{
    match v {
        Some(x) => match x {
            JsonValue::Array(items) => {
                proof {
                    crate::json::lemma_jview_seq(items@, items@.len() as int);
                }
                x.at(0)
            },
            JsonValue::Object(_) => x.get("0"),
            _ => None,
        },
        None => None,
    }
}

fn get_opt<'a>(v: Option<&'a JsonValue>, key: &str) -> (r: Option<&'a JsonValue>)
    ensures
        match and_get(match v {
            Some(x) => Some(x@),
            None => None,
        }, key@) {
            Some(j) => r matches Some(x) && x@ == j,
            None => r is None,
        },
{
    match v {
        Some(x) => x.get(key),
        None => None,
    }
}

fn str_of(v: Option<&JsonValue>) -> (r: Option<&str>)
    ensures
        match v {
            Some(x) => match x@ {
                Json::Str(s) => r matches Some(t) && t@ == s,
                _ => r is None,
            },
            None => r is None,
        },
{
    match v {
        Some(x) => x.as_str(),
        None => None,
    }
}

fn count_of(u: &JsonValue, key: &str) -> (r: u32)
    ensures
        r == usage_count(u@, key@),
{
    match u.get(key) {
        Some(x) => match x.as_u64() {
            Some(n) => n as u32,
            None => 0,
        },
        None => 0,
    }
}

/// Read the assistant reply of an OpenAI-compatible upstream.
pub fn parse_openai_response(provider: &str, value: &JsonValue, model: Option<String>) -> (r:
    crate::error::Result<ConversationResponse>)
    ensures
        upstream_content(value@) is None ==> (r matches Err(e) && e.kind == ErrorKind::ParseFailure),
        upstream_content(value@) is Some ==> (r matches Ok(resp) && upstream_reply(resp, value@, provider@, model)),
{
    let choice = pointer_zero_exec(value.get("choices"));
    let content = match str_of(get_opt(get_opt(choice, "message"), "content")) {
        Some(c) => c,
        None => match str_of(value.get("text")) {
            Some(c) => c,
            None => {
                return Err(SetuError::parse_failure("upstream response has no assistant content"));
            },
        },
    };
    let finish = match str_of(get_opt(choice, "finish_reason")) {
        Some(s) => if crate::text::str_eq(s, "length") {
            FinishReason::Length
        } else if crate::text::str_eq(s, "content_filter") {
            FinishReason::ContentFilter
        } else {
            FinishReason::Stop
        },
        None => FinishReason::Stop,
    };
    let mut out = ConversationResponse::assistant(content);
    out.provider = Some(String::from_str(provider));
    out.model = match model {
        Some(m) => Some(m),
        None => match str_of(value.get("model")) {
            Some(s) => Some(String::from_str(s)),
            None => None,
        },
    };
    out.finish_reason = finish;
    if let Some(u) = value.get("usage") {
        let prompt = count_of(u, "prompt_tokens");
        let completion = count_of(u, "completion_tokens");
        out.usage = Some(Usage::new(prompt, completion));
    }
    Ok(out)
}

/// Talks to a documented OpenAI-compatible HTTP API.
#[derive(Debug)]
pub struct OpenAiCompatibleProvider {
    pub id: ProviderId,
    pub base_url: String,
    pub api_key: Option<String>,
    pub capabilities: ProviderCapabilities,
}

impl OpenAiCompatibleProvider {
    /// A provider for `base_url`, trailing slashes removed.
    pub fn new(name: &str, base_url: &str) -> (r: Self)
        ensures
            r.id.0@ == name@,
            r.base_url@ == trim_slashes(base_url@),
            r.api_key is None,
            r.capabilities == (ProviderCapabilities {
                streaming: true,
                system_messages: true,
                ..default_capabilities()
            }),
    {
        let v = crate::text::chars_of(base_url);
        let mut end = v.len();
        assert(v@.take(end as int) =~= base_url@);
        while end > 0 && v[end - 1] == '/'
            invariant
                end <= v@.len(),
                v@ == base_url@,
                trim_slashes(v@.take(end as int)) == trim_slashes(base_url@),
            decreases end,
        {
            assert(v@.take(end as int).drop_last() =~= v@.take(end - 1));
            end = end - 1;
        }
        let url = crate::text::string_of_range(&v, 0, end);
        proof {
            assert(v@.subrange(0, end as int) =~= v@.take(end as int));
            assert(v@.take(v@.len() as int) =~= base_url@);
        }
        OpenAiCompatibleProvider {
            id: ProviderId::new(name),
            base_url: url,
            api_key: None,
            capabilities: ProviderCapabilities::text_only().with_system_messages().with_streaming(),
        }
    }

    pub fn with_api_key(self, key: &str) -> (r: Self)
        ensures
            r.api_key matches Some(k) && k@ == key@,
            r.id == self.id,
            r.base_url == self.base_url,
            r.capabilities == self.capabilities,
    {
        OpenAiCompatibleProvider { api_key: Some(String::from_str(key)), ..self }
    }

    pub fn id(&self) -> (r: &ProviderId)
        ensures
            r == &self.id,
    {
        &self.id
    }

    pub fn capabilities(&self) -> (r: &ProviderCapabilities)
        ensures
            r == &self.capabilities,
    {
        &self.capabilities
    }

    /// The upstream request body (see `upstream_body`); `temperature` is the
    /// request's temperature rendered as a JSON number by the caller.
    pub fn request_body(&self, request: &ConversationRequest, temperature: Option<JsonValue>) -> (r: JsonValue)
        ensures
            r@ == upstream_body(*request, opt_json(temperature)),
    {
        let msgs = &request.conversation.messages;
        let mut items: Vec<JsonValue> = Vec::new();
        let mut i: usize = 0;
        while i < msgs.len()
            invariant
                i <= msgs@.len(),
                items@.len() == i,
                forall|k: int| 0 <= k < i ==> (#[trigger] items@[k])@ == upstream_message(msgs@[k]),
            decreases msgs.len() - i,
        {
            let m = &msgs[i];
            let o = vec![
                (String::from_str("role"), JsonValue::string(m.role.as_str())),
                (String::from_str("content"), JsonValue::String(m.content.text.clone())),
            ];
            proof {
                crate::json::lemma_jview_entries(o@, 2);
                assert(crate::json::jview_entries(o@, 2) =~= seq![
                    ("role"@, Json::Str(role_name(m.role))),
                    ("content"@, Json::Str(m.content.text@)),
                ]);
            }
            items.push(JsonValue::Object(o));
            i = i + 1;
        }
        proof {
            crate::json::lemma_jview_seq(items@, items@.len() as int);
            assert(crate::json::jview_seq(items@, items@.len() as int) =~= msgs@.map_values(
                |m: Message| upstream_message(m),
            ));
        }
        let model = match &request.model {
            Some(m) => m.clone(),
            None => String::new(),
        };
        let mut body: Vec<(String, JsonValue)> = vec![
            (String::from_str("model"), JsonValue::String(model)),
            (String::from_str("messages"), JsonValue::Array(items)),
            (String::from_str("stream"), JsonValue::Bool(false)),
        ];
        proof {
            crate::json::lemma_jview_entries(body@, 3);
        }
        let ghost spec_t = opt_json(temperature);
        if request.temperature_bits.is_some() {
            if let Some(t) = temperature {
                body.push((String::from_str("temperature"), t));
            }
        }
        if let Some(n) = request.max_tokens {
            body.push((String::from_str("max_tokens"), JsonValue::Number(crate::text::decimal_string(n as u64))));
        }
        if request.stop.len() > 0 {
            let mut stops: Vec<JsonValue> = Vec::new();
            let mut k: usize = 0;
            while k < request.stop.len()
                invariant
                    k <= request.stop@.len(),
                    stops@.len() == k,
                    forall|j: int| 0 <= j < k ==> (#[trigger] stops@[j])@ == Json::Str(request.stop@[j]@),
                decreases request.stop.len() - k,
            {
                stops.push(JsonValue::String(request.stop[k].clone()));
                k = k + 1;
            }
            proof {
                crate::json::lemma_jview_seq(stops@, stops@.len() as int);
                assert(crate::json::jview_seq(stops@, stops@.len() as int) =~= request.stop@.map_values(
                    |s: String| Json::Str(s@),
                ));
            }
            body.push((String::from_str("stop"), JsonValue::Array(stops)));
        }
        proof {
            crate::json::lemma_jview_entries(body@, body@.len() as int);
            assert(crate::json::jview_entries(body@, body@.len() as int) =~= match upstream_body(*request, spec_t) {
                Json::Object(e) => e,
                _ => Seq::empty(),
            });
        }
        JsonValue::Object(body)
    }

    /// What to send for `request` at `now`: the request must be valid and the
    /// session unexpired; the URL is `<base>/chat/completions`; the headers
    /// are `accept` and `content-type` JSON, the API key as bearer
    /// authorization when set, then the session's; the cookies the session's.
    pub fn prepare_at(
        &self,
        request: &ConversationRequest,
        temperature: Option<JsonValue>,
        session: Option<&Session>,
        now: i64,
    ) -> (r: crate::error::Result<HttpCall>)
        ensures
            !valid_request(*request) ==> (r matches Err(e) && e.kind == ErrorKind::Validation),
            valid_request(*request) && session_expired(session, now) ==> (r matches Err(e) && e.kind
                == ErrorKind::SessionExpired),
            valid_request(*request) && !session_expired(session, now) ==> (r matches Ok(call) && {
                &&& call.url@ == self.base_url@ + "/chat/completions"@
                &&& pair_views(call.headers@) == seq![
                    ("accept"@, "application/json"@),
                    ("content-type"@, "application/json"@),
                ] + (match self.api_key {
                    Some(k) => seq![("authorization"@, "Bearer "@ + k@)],
                    None => Seq::empty(),
                }) + session_headers(session)
                &&& pair_views(call.cookies@) == session_cookies(session)
                &&& call.json_body@ == json_text(upstream_body(*request, opt_json(temperature)))
            }),
    {
        request.validate()?;
        if let Some(s) = session {
            if s.is_expired_at(now) {
                return Err(SetuError::session_expired("provider session expired"));
            }
        }
        let body = self.request_body(request, temperature);
        let text = crate::json::json_to_string(&body);
        let mut url = self.base_url.clone();
        url.append("/chat/completions");
        let mut base: Vec<(String, String)> = vec![
            header("accept", "application/json"),
            header("content-type", "application/json"),
        ];
        let ghost fixed = pair_views(base@);
        assert(fixed =~= seq![("accept"@, "application/json"@), ("content-type"@, "application/json"@)]);
        if let Some(key) = &self.api_key {
            let mut v = String::from_str("Bearer ");
            v.append(key.as_str());
            base.push((String::from_str("authorization"), v));
            assert(pair_views(base@) =~= fixed + seq![("authorization"@, "Bearer "@ + key@)]);
        } else {
            assert(pair_views(base@) =~= fixed + Seq::<(Seq<char>, Seq<char>)>::empty());
        }
        let (headers, cookies) = session_parts(base, session);
        Ok(HttpCall { url, headers, cookies, json_body: text })
    }

    /// The response for what the transport returned: transport failures and
    /// non-2xx replies become errors attributed to the provider; a body that
    /// is not JSON is a parse failure; otherwise the reply is read (see
    /// `parse_openai_response`) with the request's model.
    pub fn finish(&self, model: Option<String>, outcome: Result<HttpReply, SetuError>) -> (r:
        crate::error::Result<ConversationResponse>)
        ensures
            match outcome {
                Err(e0) => r matches Err(e) && attributed(e, e0, self.id.0@),
                Ok(reply) => if !success_status(reply.status) {
                    r matches Err(e) && e.kind == http_error_kind(reply.status, reply.body@) && e.message@
                        == http_error_message(reply.status, reply.body@)
                } else {
                    match json_parse(reply.body@) {
                        None => r matches Err(e) && e.kind == ErrorKind::ParseFailure,
                        Some(v) => if upstream_content(v) is Some {
                            r matches Ok(resp) && upstream_reply(resp, v, self.id.0@, model)
                        } else {
                            r matches Err(e) && e.kind == ErrorKind::ParseFailure
                        },
                    }
                },
            },
    {
        let reply = match outcome {
            Ok(reply) => reply,
            Err(e) => {
                return Err(crate::provider_error::normalize_transport_error(self.id.as_str(), e));
            },
        };
        if !(200 <= reply.status && reply.status <= 299) {
            return Err(crate::provider_error::normalize_http_error(self.id.as_str(), &reply));
        }
        let value = match crate::json::parse_json(reply.body.as_str()) {
            Some(v) => v,
            None => {
                return Err(SetuError::parse_failure("upstream response is not JSON"));
            },
        };
        parse_openai_response(self.id.as_str(), &value, model)
    }
}

} // verus!
