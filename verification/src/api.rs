//! The decisions of the OpenAI-compatible API: authentication, error
//! bodies, conversion of chat requests, routing of a chat call, and the
//! shapes of its replies.

use vstd::prelude::*;

use crate::config::{AppConfig, PRODUCT, VERSION};
use crate::conversation::{
    parse_role_spec, role_name, valid_conversation, with_role, Conversation, Message, Role, TextContent,
};
use crate::error::{family_name, kind_name, openai_family, status_of, ErrorKind, SetuError};
use crate::json::{Json, JsonValue};
use crate::provider::{has_capability, Capability, ProviderDescriptor};
use crate::registry::{route, ModelRecord, Router};
use crate::request::{valid_request, ConversationRequest};
use crate::response::{saturating_sum, ConversationResponse, FinishReason, Usage};
use crate::text::{decimal, is_ws, occurs_at};

verus! {

/// Who made an API call.
#[derive(Debug, Clone, Copy, PartialEq, Eq, Structural)]
pub struct AuthContext {
    pub authenticated: bool,
}

/// The outcome of enforcing the optional API key.
#[derive(Debug)]
pub struct RequireAuth(pub AuthContext);

/// Compare two byte strings in time that depends only on their lengths.
pub fn constant_time_eq(a: &[u8], b: &[u8]) -> (r: bool)
    ensures
        r == (a@ == b@),
{
    if a.len() != b.len() {
        return false;
    }
    let mut diff: u8 = 0;
    let mut i: usize = 0;
    assert(a@.take(0) =~= b@.take(0));
    while i < a.len()
        invariant
            a@.len() == b@.len(),
            i <= a@.len(),
            (diff == 0) <==> (a@.take(i as int) == b@.take(i as int)),
        decreases a.len() - i,
    {
        let x = a[i];
        let y = b[i];
        let d = diff;
        assert(((d | (x ^ y)) == 0u8) <==> (d == 0u8 && x == y)) by (bit_vector);
        proof {
            if a@.take(i + 1) == b@.take(i + 1) {
                assert(a@.take(i + 1)[i as int] == b@.take(i + 1)[i as int]);
                assert(a@.take(i as int) =~= a@.take(i + 1).take(i as int));
                assert(b@.take(i as int) =~= b@.take(i + 1).take(i as int));
            }
            if d == 0 && x == y {
                assert(a@.take(i + 1) =~= b@.take(i + 1));
            }
        }
        diff = d | (x ^ y);
        i = i + 1;
    }
    assert(a@.take(a@.len() as int) =~= a@);
    assert(b@.take(b@.len() as int) =~= b@);
    diff == 0
}

/// The key presented in an `Authorization` header: what follows `Bearer `
/// or `bearer `, else nothing.
pub open spec fn presented_key(header: Seq<char>) -> Seq<char> {
    if occurs_at(header, "Bearer "@, 0) {
        header.skip(7)
    } else if occurs_at(header, "bearer "@, 0) {
        header.skip(7)
    } else {
        Seq::empty()
    }
}

/// A call is let through when no key is configured (or it is empty), or
/// when the presented key equals it byte for byte.
pub open spec fn auth_passes(expected: Option<Seq<char>>, header: Option<Seq<char>>) -> bool {
    match expected {
        None => true,
        Some(k) => k.len() == 0 || vstd::utf8::encode_utf8(presented_key(
            match header {
                Some(h) => h,
                None => Seq::empty(),
            },
        )) == vstd::utf8::encode_utf8(k),
    }
}

/// The view of an optional text.
pub open spec fn opt_text(o: Option<&str>) -> Option<Seq<char>> {
    match o {
        Some(t) => Some(t@),
        None => None,
    }
}

fn presented(header: &str) -> (r: String)
    ensures
        r@ == presented_key(header@),
{
    let v = crate::text::chars_of(header);
    proof {
        reveal_strlit("Bearer ");
        reveal_strlit("bearer ");
    }
    if crate::text::starts_with(header, "Bearer ") || crate::text::starts_with(header, "bearer ") {
        let r = crate::text::string_of_range(&v, 7, v.len());
        assert(r@ =~= header@.skip(7));
        r
    } else {
        String::new()
    }
}

impl RequireAuth {
    /// Enforce the API key `expected` on a call whose `Authorization`
    /// header is `authorization` (absent when missing or not text).
    pub fn check(expected: Option<&str>, authorization: Option<&str>) -> (r: crate::error::Result<RequireAuth>)
        ensures
            auth_passes(opt_text(expected), opt_text(authorization)) ==> (r matches Ok(a)
                && a.0.authenticated),
            !auth_passes(opt_text(expected), opt_text(authorization)) ==> (r matches Err(e) && e.kind
                == ErrorKind::Authentication),
    {
        match expected {
            None => {
                assert(opt_text(expected) is None);
                assert(auth_passes(opt_text(expected), opt_text(authorization)));
                Ok(RequireAuth(AuthContext { authenticated: true }))
            },
            Some(key) => {
                if key.unicode_len() == 0 {
                    assert(auth_passes(opt_text(expected), opt_text(authorization)));
                    return Ok(RequireAuth(AuthContext { authenticated: true }));
                }
                proof {
                    reveal_strlit("");
                }
                let header = match authorization {
                    Some(h) => h,
                    None => "",
                };
                let p = presented(header);
                assert(header@ == (match opt_text(authorization) {
                    Some(h) => h,
                    None => Seq::empty(),
                }));
                let same = constant_time_eq(p.as_str().as_bytes(), key.as_bytes());
                assert(same == (vstd::utf8::encode_utf8(presented_key(header@)) == vstd::utf8::encode_utf8(key@)));
                if same {
                    assert(auth_passes(opt_text(expected), opt_text(authorization)));
                    Ok(RequireAuth(AuthContext { authenticated: true }))
                } else {
                    assert(!auth_passes(opt_text(expected), opt_text(authorization)));
                    Err(SetuError::authentication("invalid or missing API key"))
                }
            },
        }
    }
}

/// The `error` object of an OpenAI-style error body.
#[derive(Debug)]
pub struct OpenAiErrorDetail {
    pub message: String,
    pub error_type: String,
    pub param: Option<String>,
    pub code: String,
}

/// An OpenAI-style error body.
#[derive(Debug)]
pub struct OpenAiErrorBody {
    pub error: OpenAiErrorDetail,
}

impl OpenAiErrorBody {
    /// The body for `err`: its client message (redacted), the OpenAI type and
    /// the name of its kind, no parameter.
    pub fn from_error(err: &SetuError) -> (r: Self)
        ensures
            r.error.message@ == crate::redact::redact_text_spec(err.message@),
            r.error.error_type@ == family_name(openai_family(err.kind)),
            r.error.param is None,
            r.error.code@ == kind_name(err.kind),
    {
        OpenAiErrorBody {
            error: OpenAiErrorDetail {
                message: err.client_message(),
                error_type: String::from_str(err.kind.openai_type()),
                param: None,
                code: err.kind.to_string(),
            },
        }
    }
}

/// An error as the API answers it.
#[derive(Debug)]
pub struct ApiError(pub SetuError);

impl ApiError {
    pub fn new(err: SetuError) -> (r: Self)
        ensures
            r.0 == err,
    {
        ApiError(err)
    }

    /// The HTTP status of the answer.
    pub fn status(&self) -> (r: u16)
        ensures
            r == status_of(self.0.kind),
    {
        self.0.kind.http_status()
    }

    /// The extra headers of the answer: the request id as `x-request-id`,
    /// then, for an error with a retry delay, `retry-after` in whole seconds
    /// (at least 1).
    pub fn headers(&self) -> (r: Vec<(String, String)>)
        ensures
            crate::named::pair_views(r@) == (match self.0.request_id {
                Some(id) => seq![("x-request-id"@, id@)],
                None => Seq::empty(),
            }) + (match self.0.retry_after_ms {
                Some(ms) => seq![("retry-after"@, decimal(retry_seconds(ms) as nat))],
                None => Seq::empty(),
            }),
    {
        let mut out: Vec<(String, String)> = Vec::new();
        if let Some(id) = &self.0.request_id {
            out.push((String::from_str("x-request-id"), id.clone()));
        }
        let ghost first = crate::named::pair_views(out@);
        if let Some(ms) = self.0.retry_after_ms {
            let secs = if ms / 1000 > 1 {
                ms / 1000
            } else {
                1
            };
            out.push((String::from_str("retry-after"), crate::text::decimal_string(secs)));
            assert(crate::named::pair_views(out@) =~= first + seq![
                ("retry-after"@, decimal(retry_seconds(ms) as nat)),
            ]);
        } else {
            assert(crate::named::pair_views(out@) =~= first + Seq::<(Seq<char>, Seq<char>)>::empty());
        }
        proof {
            if self.0.request_id is None {
                assert(first =~= Seq::<(Seq<char>, Seq<char>)>::empty());
            } else {
                assert(first =~= seq![("x-request-id"@, self.0.request_id->0@)]);
            }
        }
        out
    }

    /// The JSON body of the answer.
    pub fn body(&self) -> (r: OpenAiErrorBody)
        ensures
            r.error.message@ == crate::redact::redact_text_spec(self.0.message@),
            r.error.error_type@ == family_name(openai_family(self.0.kind)),
            r.error.param is None,
            r.error.code@ == kind_name(self.0.kind),
    {
        OpenAiErrorBody::from_error(&self.0)
    }
}

/// Whole seconds of a retry delay, at least 1.
pub open spec fn retry_seconds(ms: u64) -> u64 {
    if ms / 1000 > 1 {
        ms / 1000
    } else {
        1
    }
}

/// The HTTP status of an error kind.
pub fn map_kind_status(kind: ErrorKind) -> (r: u16)
    ensures
        r == status_of(kind),
{
    kind.http_status()
}

/// One message of an OpenAI chat request.
#[derive(Debug)]
pub struct ChatMessage {
    pub role: String,
    pub content: String,
}

/// An OpenAI chat completion request. The temperature is carried as the bit
/// pattern of an `f32` (`f32::to_bits`).
#[derive(Debug)]
pub struct ChatCompletionRequest {
    pub model: String,
    pub messages: Vec<ChatMessage>,
    pub temperature_bits: Option<u32>,
    pub max_tokens: Option<u32>,
    pub stream: bool,
    pub stop: Option<Vec<String>>,
}

/// All roles of the chat messages are known.
pub open spec fn roles_known(ms: Seq<ChatMessage>) -> bool {
    forall|i: int| 0 <= i < ms.len() ==> (#[trigger] parse_role_spec(ms[i].role@)) is Some
}

/// The canonical messages of chat messages whose roles are all known.
pub open spec fn converted(ms: Seq<ChatMessage>, c: Seq<Message>) -> bool {
    &&& c.len() == ms.len()
    &&& forall|i: int|
        0 <= i < ms.len() ==> Some((#[trigger] c[i]).role) == parse_role_spec(ms[i].role@)
            && c[i].content.text@ == ms[i].content@
}

/// Convert the chat messages into a canonical conversation: there must be
/// at least one, and every role must be known.
pub fn openai_to_conversation(body: &ChatCompletionRequest) -> (r: Result<Conversation, ApiError>)
    ensures
        body.messages@.len() == 0 ==> (r matches Err(e) && e.0.kind == ErrorKind::InvalidRequest),
        body.messages@.len() > 0 && !roles_known(body.messages@) ==> (r matches Err(e) && e.0.kind
            == ErrorKind::Validation),
        body.messages@.len() > 0 && roles_known(body.messages@) ==> (r matches Ok(c) && converted(
            body.messages@,
            c.messages@,
        )),
{
    if body.messages.len() == 0 {
        return Err(ApiError(SetuError::invalid_request("messages must not be empty")));
    }
    let mut messages: Vec<Message> = Vec::new();
    let mut i: usize = 0;
    while i < body.messages.len()
        invariant
            i <= body.messages@.len(),
            messages@.len() == i,
            forall|k: int|
                0 <= k < i ==> Some((#[trigger] messages@[k]).role) == parse_role_spec(
                    body.messages@[k].role@,
                ) && messages@[k].content.text@ == body.messages@[k].content@,
        decreases body.messages.len() - i,
    {
        let msg = &body.messages[i];
        let role = match Role::parse(msg.role.as_str()) {
            Ok(r) => r,
            Err(e) => {
                assert(parse_role_spec(body.messages@[i as int].role@) is None);
                return Err(ApiError(e));
            },
        };
        messages.push(Message::new(role, TextContent::from_string(msg.content.clone())));
        i = i + 1;
    }
    assert(roles_known(body.messages@)) by {
        assert forall|k: int| 0 <= k < body.messages@.len() implies (#[trigger] parse_role_spec(
            body.messages@[k].role@,
        )) is Some by {
            assert(Some(messages@[k].role) == parse_role_spec(body.messages@[k].role@));
        }
    }
    let c = Conversation::with_messages(messages);
    Ok(c)
}

/// The OpenAI name of a finish reason.
pub open spec fn finish_reason_name(reason: FinishReason) -> Seq<char> {
    match reason {
        FinishReason::Stop => "stop"@,
        FinishReason::Length => "length"@,
        FinishReason::ContentFilter => "content_filter"@,
        FinishReason::Error => "stop"@,
    }
}

pub fn finish_reason_str(reason: FinishReason) -> (r: &'static str)
    ensures
        r@ == finish_reason_name(reason),
{
    match reason {
        FinishReason::Stop => "stop",
        FinishReason::Length => "length",
        FinishReason::ContentFilter => "content_filter",
        FinishReason::Error => "stop",
    }
}

/// One model in the model list.
#[derive(Debug)]
pub struct ModelObject {
    pub id: String,
    pub object: String,
    pub created: i64,
    pub owned_by: String,
}

/// The answer of the model list endpoint.
#[derive(Debug)]
pub struct ModelList {
    pub object: String,
    pub data: Vec<ModelObject>,
}

impl ModelList {
    /// The list of `models`, each marked created at `created`.
    pub fn of(models: &[ModelRecord], created: i64) -> (r: Self)
        ensures
            r.object@ == "list"@,
            r.data@.len() == models@.len(),
            forall|i: int|
                0 <= i < models@.len() ==> {
                    let m = #[trigger] r.data@[i];
                    &&& m.id@ == models@[i].id@
                    &&& m.object@ == "model"@
                    &&& m.created == created
                    &&& m.owned_by@ == models@[i].owned_by@
                },
    {
        let mut data: Vec<ModelObject> = Vec::new();
        let mut i: usize = 0;
        while i < models.len()
            invariant
                i <= models@.len(),
                data@.len() == i,
                forall|k: int|
                    0 <= k < i ==> {
                        let m = #[trigger] data@[k];
                        &&& m.id@ == models@[k].id@
                        &&& m.object@ == "model"@
                        &&& m.created == created
                        &&& m.owned_by@ == models@[k].owned_by@
                    },
            decreases models.len() - i,
        {
            data.push(
                ModelObject {
                    id: models[i].id.clone(),
                    object: String::from_str("model"),
                    created,
                    owned_by: models[i].owned_by.clone(),
                },
            );
            i = i + 1;
        }
        ModelList { object: String::from_str("list"), data }
    }
}

/// The chat message of a completion choice.
#[derive(Debug)]
pub struct ChatCompletionChoice {
    pub index: u32,
    pub message: ChatMessage,
    pub finish_reason: String,
}

#[derive(Debug, Clone, Copy, PartialEq, Eq, Structural)]
pub struct ChatCompletionUsage {
    pub prompt_tokens: u32,
    pub completion_tokens: u32,
    pub total_tokens: u32,
}

/// The answer of a (non-streaming) chat completion.
#[derive(Debug)]
pub struct ChatCompletionResponse {
    pub id: String,
    pub object: String,
    pub created: i64,
    pub model: String,
    pub choices: Vec<ChatCompletionChoice>,
    pub usage: ChatCompletionUsage,
}

/// The number of white-space separated words in `s`
/// (`str::split_whitespace().count()`).
pub open spec fn word_count(s: Seq<char>) -> nat
    decreases s.len(),
{
    if s.len() == 0 {
        0
    } else {
        word_count(s.drop_last()) + if !is_ws(s.last()) && (s.len() == 1 || is_ws(s[s.len() - 2])) {
            1nat
        } else {
            0nat
        }
    }
}

proof fn lemma_word_count_bound(s: Seq<char>)
    ensures
        word_count(s) <= s.len(),
    decreases s.len(),
{
    if s.len() > 0 {
        lemma_word_count_bound(s.drop_last());
    }
}

/// Count the words of `s` (see `word_count`).
pub fn count_words(s: &str) -> (r: usize)
    ensures
        r == word_count(s@),
{
    let v = crate::text::chars_of(s);
    let mut count: usize = 0;
    let mut i: usize = 0;
    while i < v.len()
        invariant
            v@ == s@,
            i <= v@.len(),
            count == word_count(v@.take(i as int)),
        decreases v.len() - i,
    {
        let ghost t = v@.take(i + 1);
        assert(t.drop_last() =~= v@.take(i as int));
        proof {
            lemma_word_count_bound(v@.take(i as int));
        }
        let c = v[i];
        let starts = !crate::text::char_is_ws(c) && (i == 0 || crate::text::char_is_ws(v[i - 1]));
        if starts {
            count = count + 1;
        }
        i = i + 1;
    }
    assert(v@.take(v@.len() as int) =~= v@);
    count
}

/// `s` with every leading copy of `p` removed (`str::trim_start_matches`).
pub open spec fn strip_leading(s: Seq<char>, p: Seq<char>) -> Seq<char>
    decreases s.len(),
{
    if p.len() > 0 && occurs_at(s, p, 0) {
        strip_leading(s.skip(p.len() as int), p)
    } else {
        s
    }
}

/// The id of a completion: `chatcmpl_` and the request id without its
/// leading `req_`.
pub fn completion_id(request_id: &str) -> (r: String)
    ensures
        r@ == "chatcmpl_"@ + strip_leading(request_id@, "req_"@),
{
    let v = crate::text::chars_of(request_id);
    let p = crate::text::chars_of("req_");
    proof {
        reveal_strlit("req_");
    }
    let mut i: usize = 0;
    assert(v@.skip(0) =~= v@);
    while crate::text::matches_at(&v, &p, i)
        invariant
            v@ == request_id@,
            p@ == "req_"@,
            p@.len() == 4,
            i <= v@.len(),
            strip_leading(v@.skip(i as int), p@) == strip_leading(request_id@, p@),
        decreases v.len() - i,
    {
        proof {
            assert(occurs_at(v@.skip(i as int), p@, 0)) by {
                assert(v@.skip(i as int).subrange(0, 4) =~= v@.subrange(i as int, i + 4));
            }
            assert(v@.skip(i as int).skip(4) =~= v@.skip(i + 4));
        }
        i = i + 4;
    }
    proof {
        if occurs_at(v@.skip(i as int), p@, 0) {
            assert(v@.skip(i as int).subrange(0, 4) =~= v@.subrange(i as int, i + 4));
        }
    }
    let rest = crate::text::string_of_range(&v, i, v.len());
    assert(rest@ =~= v@.skip(i as int));
    let mut out = String::from_str("chatcmpl_");
    out.append(rest.as_str());
    out
}

/// The usage reported for a response: its own, else zero prompt tokens and
/// one completion token per word of its text (truncated to 32 bits).
pub open spec fn reported_usage(resp: ConversationResponse) -> Usage {
    match resp.usage {
        Some(u) => u,
        None => Usage {
            prompt_tokens: 0,
            completion_tokens: word_count(resp.message.content.text@) as u32,
            total_tokens: word_count(resp.message.content.text@) as u32,
        },
    }
}

impl ChatCompletionResponse {
    /// The answer for `response` to a request for `model`.
    pub fn from_response(id: String, created: i64, model: String, response: &ConversationResponse) -> (r: Self)
        ensures
            r.id == id,
            r.object@ == "chat.completion"@,
            r.created == created,
            r.model == model,
            r.choices@.len() == 1,
            r.choices@[0].index == 0,
            r.choices@[0].message.role@ == "assistant"@,
            r.choices@[0].message.content@ == response.message.content.text@,
            r.choices@[0].finish_reason@ == finish_reason_name(response.finish_reason),
            r.usage.prompt_tokens == reported_usage(*response).prompt_tokens,
            r.usage.completion_tokens == reported_usage(*response).completion_tokens,
            r.usage.total_tokens == reported_usage(*response).total_tokens,
    {
        let usage = match response.usage {
            Some(u) => u,
            None => {
                let n = count_words(response.text());
                Usage::new(0, n as u32)
            },
        };
        ChatCompletionResponse {
            id,
            object: String::from_str("chat.completion"),
            created,
            model,
            choices: vec![
                ChatCompletionChoice {
                    index: 0,
                    message: ChatMessage {
                        role: String::from_str("assistant"),
                        content: String::from_str(response.text()),
                    },
                    finish_reason: String::from_str(finish_reason_str(response.finish_reason)),
                },
            ],
            usage: ChatCompletionUsage {
                prompt_tokens: usage.prompt_tokens,
                completion_tokens: usage.completion_tokens,
                total_tokens: usage.total_tokens,
            },
        }
    }
}

/// The answer to chat request `body`: the provider's `response` under the
/// completion id made from `request_id`, reporting the model the request
/// named.
pub fn chat_response(
    body: &ChatCompletionRequest,
    request_id: &str,
    created: i64,
    response: &ConversationResponse,
) -> (r: ChatCompletionResponse)
    ensures
        r.id@ == "chatcmpl_"@ + strip_leading(request_id@, "req_"@),
        r.object@ == "chat.completion"@,
        r.created == created,
        r.model@ == body.model@,
        r.choices@.len() == 1,
        r.choices@[0].index == 0,
        r.choices@[0].message.role@ == "assistant"@,
        r.choices@[0].message.content@ == response.message.content.text@,
        r.choices@[0].finish_reason@ == finish_reason_name(response.finish_reason),
        r.usage.prompt_tokens == reported_usage(*response).prompt_tokens,
        r.usage.completion_tokens == reported_usage(*response).completion_tokens,
        r.usage.total_tokens == reported_usage(*response).total_tokens,
{
    ChatCompletionResponse::from_response(completion_id(request_id), created, body.model.clone(), response)
}

/// A chat call ready for its provider: the model record and provider it
/// routes to, and the canonical request with the upstream model.
#[derive(Debug)]
pub struct ChatPlan {
    pub record: ModelRecord,
    pub provider: ProviderDescriptor,
    pub request: ConversationRequest,
}

/// Some message has the system role.
pub open spec fn has_system(c: Seq<Message>) -> bool {
    exists|i: int| 0 <= i < c.len() && (#[trigger] c[i]).role == Role::System
}

/// The refusals decided before the messages are converted: a stopping
/// server, too many messages, no message, an unknown role.
pub open spec fn early_refusal(stopping: bool, max_messages: usize, body: ChatCompletionRequest) -> Option<ErrorKind> {
    if stopping {
        Some(ErrorKind::Unavailable)
    } else if body.messages@.len() > max_messages {
        Some(ErrorKind::InvalidRequest)
    } else if body.messages@.len() == 0 {
        Some(ErrorKind::InvalidRequest)
    } else if !roles_known(body.messages@) {
        Some(ErrorKind::Validation)
    } else {
        None
    }
}

/// The decisions on the converted messages `c`: an invalid conversation or
/// request, a model that does not route to a provider with the needed
/// capability, or system messages the provider does not take.
pub open spec fn late_refusal(c: Seq<Message>, body: ChatCompletionRequest, router: Router) -> Result<(), ErrorKind> {
    if !valid_conversation(c) {
        Err(ErrorKind::Validation)
    } else if (body.temperature_bits matches Some(t) && !crate::request::temperature_in_range(t))
        || body.max_tokens == Some(0u32) {
        Err(ErrorKind::Validation)
    } else {
        match route(router, body.model@) {
            Err(k) => Err(k),
            Ok((rec, p)) => if !has_capability(
                p.capabilities,
                if body.stream {
                    Capability::Streaming
                } else {
                    Capability::Text
                },
            ) {
                Err(ErrorKind::InvalidRequest)
            } else if !p.capabilities.system_messages && has_system(c) {
                Err(ErrorKind::InvalidRequest)
            } else {
                Ok(())
            },
        }
    }
}

/// `plan` carries conversation `c` to the routed provider, with the
/// record's upstream model (else the requested one) and the request's
/// sampling settings.
pub open spec fn plan_for(plan: ChatPlan, c: Seq<Message>, body: ChatCompletionRequest, router: Router) -> bool {
    &&& route(router, body.model@) == Ok::<(ModelRecord, ProviderDescriptor), ErrorKind>((plan.record, plan.provider))
    &&& plan.request.conversation.messages@ == c
    &&& plan.request.model matches Some(m) && m@ == (match plan.record.upstream_model {
        Some(u) => u@,
        None => body.model@,
    })
    &&& plan.request.temperature_bits == body.temperature_bits
    &&& plan.request.max_tokens == body.max_tokens
    &&& plan.request.stream == body.stream
    &&& plan.request.stop@ == (match body.stop {
        Some(l) => l@,
        None => Seq::empty(),
    })
}

proof fn lemma_with_role_nonempty(c: Seq<Message>, role: Role)
    ensures
        with_role(c, role).len() > 0 <==> exists|i: int| 0 <= i < c.len() && (#[trigger] c[i]).role == role,
{
    let f = |m: Message| m.role == role;
    if with_role(c, role).len() > 0 {
        let e = with_role(c, role)[0];
        assert(with_role(c, role).contains(e));
        c.lemma_filter_contains_rev(f, e);
        c.lemma_filter_pred(f, 0);
        let i = choose|i: int| 0 <= i < c.len() && c[i] == e;
        assert(c[i].role == role);
    }
    if exists|i: int| 0 <= i < c.len() && (#[trigger] c[i]).role == role {
        let i = choose|i: int| 0 <= i < c.len() && (#[trigger] c[i]).role == role;
        c.lemma_filter_contains(f, i);
    }
}

/// A copy of a list of strings.
fn clone_list(v: &Option<Vec<String>>) -> (r: Vec<String>)
    ensures
        r@ == (match v {
            Some(l) => l@,
            None => Seq::empty(),
        }),
{
    match v {
        Some(l) => crate::request::clone_strings(l),
        None => Vec::new(),
    }
}

/// Decide a chat call (see `early_refusal` and `late_refusal`); when it
/// goes through, the plan carries the converted conversation to its
/// provider.
pub fn plan_chat(
    stopping: bool,
    config: &AppConfig,
    router: &Router,
    body: &ChatCompletionRequest,
) -> (r: Result<ChatPlan, ApiError>)
    ensures
        early_refusal(stopping, config.limits.max_messages, *body) matches Some(k) ==> (r matches Err(e)
            && e.0.kind == k),
        early_refusal(stopping, config.limits.max_messages, *body) is None ==> exists|c: Seq<Message>|
            #[trigger] converted(body.messages@, c) && match late_refusal(c, *body, *router) {
                Err(k) => r matches Err(e) && e.0.kind == k,
                Ok(()) => r matches Ok(plan) && plan_for(plan, c, *body, *router),
            },
{
    if stopping {
        return Err(ApiError(SetuError::unavailable("server is shutting down")));
    }
    if body.messages.len() > config.limits.max_messages {
        let mut m = String::from_str("too many messages (max ");
        m.append(crate::text::decimal_string(config.limits.max_messages as u64).as_str());
        m.append(")");
        return Err(ApiError(SetuError::with_message(ErrorKind::InvalidRequest, m)));
    }
    let conversation = openai_to_conversation(body)?;
    let ghost c = conversation.messages@;
    if let Err(e) = conversation.validate() {
        assert(converted(body.messages@, c));
        return Err(ApiError(e));
    }
    let mut request = ConversationRequest::new(conversation);
    request.model = Some(body.model.clone());
    request.temperature_bits = body.temperature_bits;
    request.max_tokens = body.max_tokens;
    request.stop = clone_list(&body.stop);
    request.stream = body.stream;
    if let Err(e) = request.validate() {
        assert(converted(body.messages@, c));
        return Err(ApiError(e));
    }
    let cap = if body.stream {
        Capability::Streaming
    } else {
        Capability::Text
    };
    let (record, provider) = match router.require(body.model.as_str(), cap) {
        Ok(x) => x,
        Err(e) => {
            assert(converted(body.messages@, c));
            return Err(ApiError(e));
        },
    };
    proof {
        lemma_with_role_nonempty(c, Role::System);
    }
    if !provider.capabilities.system_messages && request.conversation.system_messages().len() > 0 {
        let mut m = String::from_str("model '");
        m.append(body.model.as_str());
        m.append("' does not support system messages");
        assert(converted(body.messages@, c));
        return Err(ApiError(SetuError::with_message(ErrorKind::InvalidRequest, m)));
    }
    let upstream = match &record.upstream_model {
        Some(u) => u.clone(),
        None => body.model.clone(),
    };
    request.model = Some(upstream);
    let plan = ChatPlan { record, provider, request };
    assert(converted(body.messages@, c));
    Ok(plan)
}

/// The body of the health endpoint.
pub fn health_body(stopping: bool, uptime_ms: u64) -> (r: JsonValue)
    ensures
        r@ == Json::Object(
            seq![
                ("status"@, Json::Str(if stopping { "stopping"@ } else { "ok"@ })),
                ("product"@, Json::Str(PRODUCT@)),
                ("version"@, Json::Str(VERSION@)),
                ("uptime_ms"@, Json::Number(decimal(uptime_ms as nat))),
            ],
        ),
{
    let o = vec![
        (String::from_str("status"), JsonValue::string(if stopping { "stopping" } else { "ok" })),
        (String::from_str("product"), JsonValue::string(PRODUCT)),
        (String::from_str("version"), JsonValue::string(VERSION)),
        (String::from_str("uptime_ms"), JsonValue::Number(crate::text::decimal_string(uptime_ms))),
    ];
    proof {
        crate::json::lemma_jview_entries(o@, 4);
        assert(crate::json::jview_entries(o@, 4) =~= seq![
            ("status"@, Json::Str(if stopping { "stopping"@ } else { "ok"@ })),
            ("product"@, Json::Str(PRODUCT@)),
            ("version"@, Json::Str(VERSION@)),
            ("uptime_ms"@, Json::Number(decimal(uptime_ms as nat))),
        ]);
    }
    JsonValue::Object(o)
}

/// The answer to a request for an unknown route.
pub fn not_found() -> (r: ApiError)
    ensures
        r.0.kind == ErrorKind::NotFound,
{
    ApiError(SetuError::not_found("route not found"))
}

/// The request id of an API call: the incoming one when it is acceptable,
/// else a fresh one.
pub fn assign_request_id(incoming: Option<&str>) -> (r: crate::id::RequestId)
    ensures
        match incoming {
            Some(raw) => if crate::id::acceptable_request_id(raw@) {
                r.0@ == raw@
            } else {
                crate::id::is_generated_id(r.0@, "req_"@)
            },
            None => crate::id::is_generated_id(r.0@, "req_"@),
        },
{
    match incoming {
        Some(raw) => crate::id::RequestId::from_raw(raw),
        None => crate::id::RequestId::new(),
    }
}

} // verus!
