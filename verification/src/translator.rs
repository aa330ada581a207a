//! Bidirectional conversation translation between the canonical model and a
//! provider representation.

use vstd::prelude::*;

use crate::conversation::{role_name, valid_conversation, Message, Role};
use crate::error::{ErrorKind, SetuError};
use crate::extractor::{Extractor, FallbackExtractor, JsonPathExtractor, TextExtractor};
use crate::json::{json_get, jview_entries, jview_seq, Json, JsonValue};
use crate::normalizer::{msg_view, msgs_view, normalized_messages, WhitespaceNormalizer};
use crate::request::ConversationRequest;
use crate::response::{ConversationResponse, FinishReason};
use crate::text::{collapse_ws, is_blank};
use crate::validator::{has_keys, SchemaValidator, Validator};

verus! {

/// Opaque provider-side representation of a conversation turn.
#[derive(Debug, PartialEq)]
pub struct ProviderRepresentation {
    pub kind: String,
    pub payload: JsonValue,
}

impl ProviderRepresentation {
    pub fn new(kind: &str, payload: JsonValue) -> (r: Self)
        ensures
            r.kind@ == kind@,
            r.payload == payload,
    {
        ProviderRepresentation { kind: String::from_str(kind), payload }
    }
}

#[derive(Debug)]
pub struct TranslationContext {
    pub provider: String,
    pub model: Option<String>,
}

impl Default for TranslationContext {
    fn default() -> (r: Self)
        ensures
            r.provider@.len() == 0,
            r.model is None,
    {
        TranslationContext { provider: String::new(), model: None }
    }
}

/// The JSON form of one message: `{"content": text, "role": name}`.
pub open spec fn message_json(m: (Role, Seq<char>)) -> Json {
    Json::Object(seq![("content"@, Json::Str(m.1)), ("role"@, Json::Str(role_name(m.0)))])
}

/// The model named in the payload: the request's, else the context's, else null.
pub open spec fn payload_model(request_model: Option<String>, ctx_model: Option<String>) -> Json {
    match request_model {
        Some(m) => Json::Str(m@),
        None => match ctx_model {
            Some(m) => Json::Str(m@),
            None => Json::Null,
        },
    }
}

/// The mock provider payload for messages `msgs`:
/// `{"messages": [...], "model": ..., "provider": ...}`.
pub open spec fn mock_request_payload(
    msgs: Seq<(Role, Seq<char>)>,
    request_model: Option<String>,
    ctx: TranslationContext,
) -> Json {
    Json::Object(
        seq![
            ("messages"@, Json::Array(msgs.map_values(|m: (Role, Seq<char>)| message_json(m)))),
            ("model"@, payload_model(request_model, ctx.model)),
            ("provider"@, Json::Str(ctx.provider@)),
        ],
    )
}

fn opt_json_string(s: &Option<String>) -> (r: Option<JsonValue>)
    ensures
        match s {
            Some(v) => r matches Some(j) && j@ == Json::Str(v@),
            None => r is None,
        },
{
    match s {
        Some(v) => Some(JsonValue::String(v.clone())),
        None => None,
    }
}

fn message_to_json(m: &Message) -> (r: JsonValue)
    ensures
        r@ == message_json(msg_view(*m)),
{
    let o = vec![
        (String::from_str("content"), JsonValue::String(m.content.text.clone())),
        (String::from_str("role"), JsonValue::string(m.role.as_str())),
    ];
    proof {
        crate::json::lemma_jview_entries(o@, 2);
        assert(jview_entries(o@, 2) =~= seq![
            ("content"@, Json::Str(m.content.text@)),
            ("role"@, Json::Str(role_name(m.role))),
        ]);
    }
    JsonValue::Object(o)
}

/// Turns a canonical request into a provider representation.
pub trait RequestTranslator {
    fn to_provider(
        &self,
        request: &ConversationRequest,
        ctx: &TranslationContext,
    ) -> crate::error::Result<ProviderRepresentation>;
}

/// Reads a provider representation back as a canonical response.
pub trait ResponseTranslator {
    fn decode(
        &self,
        representation: &ProviderRepresentation,
        ctx: &TranslationContext,
    ) -> crate::error::Result<ConversationResponse>;
}

/// Translates canonical requests into the mock provider's JSON shape.
#[derive(Debug)]
pub struct MockRequestTranslator;

impl MockRequestTranslator {
    pub fn to_provider(
        &self,
        request: &ConversationRequest,
        ctx: &TranslationContext,
    ) -> (r: crate::error::Result<ProviderRepresentation>)
        ensures
            r matches Ok(rep) && rep.kind@ == "mock"@ && rep.payload@ == mock_request_payload(
                msgs_view(request.conversation.messages@),
                request.model,
                *ctx,
            ),
    {
        let msgs = &request.conversation.messages;
        let mut items: Vec<JsonValue> = Vec::new();
        let mut i: usize = 0;
        while i < msgs.len()
            invariant
                i <= msgs@.len(),
                items@.len() == i,
                forall|k: int| 0 <= k < i ==> (#[trigger] items@[k])@ == message_json(msg_view(msgs@[k])),
            decreases msgs.len() - i,
        {
            items.push(message_to_json(&msgs[i]));
            i = i + 1;
        }
        let model = match opt_json_string(&request.model) {
            Some(m) => m,
            None => match opt_json_string(&ctx.model) {
                Some(m) => m,
                None => JsonValue::Null,
            },
        };
        let ghost items_view = items@;
        let arr = JsonValue::Array(items);
        proof {
            crate::json::lemma_jview_seq(items_view, items_view.len() as int);
            assert(jview_seq(items_view, items_view.len() as int) =~= msgs_view(msgs@).map_values(
                |m: (Role, Seq<char>)| message_json(m),
            ));
        }
        let o = vec![
            (String::from_str("messages"), arr),
            (String::from_str("model"), model),
            (String::from_str("provider"), JsonValue::String(ctx.provider.clone())),
        ];
        proof {
            crate::json::lemma_jview_entries(o@, 3);
            assert(o@[0].1@ == Json::Array(msgs_view(msgs@).map_values(
                |m: (Role, Seq<char>)| message_json(m),
            )));
            assert(o@[1].1@ == payload_model(request.model, ctx.model));
            assert(jview_entries(o@, 3) =~= seq![
                ("messages"@, Json::Array(msgs_view(msgs@).map_values(|m: (Role, Seq<char>)| message_json(m)))),
                ("model"@, payload_model(request.model, ctx.model)),
                ("provider"@, Json::Str(ctx.provider@)),
            ]);
        }
        let payload = JsonValue::Object(o);
        proof {
            assert(payload@ == mock_request_payload(msgs_view(msgs@), request.model, *ctx));
        }
        Ok(ProviderRepresentation::new("mock", payload))
    }
}

/// The default extraction paths of the mock response translator.
pub open spec fn mock_response_paths(e: FallbackExtractor) -> bool {
    &&& e.extractors@.len() == 4
    &&& e.extractors@[0] matches TextExtractor::JsonPath(x) && x.path@ == "message.content"@
    &&& e.extractors@[1] matches TextExtractor::JsonPath(x) && x.path@ == "text"@
    &&& e.extractors@[2] matches TextExtractor::JsonPath(x) && x.path@ == "content"@
    &&& e.extractors@[3] matches TextExtractor::JsonPath(x) && x.path@ == "choices.0.message.content"@
}

/// Decodes mock and echo provider payloads.
#[derive(Debug)]
pub struct MockResponseTranslator {
    pub extractor: FallbackExtractor,
    pub validator: SchemaValidator,
}

impl Default for MockResponseTranslator {
    fn default() -> (r: Self)
        ensures
            mock_response_paths(r.extractor),
            r.validator.required_keys@.len() == 0,
    {
        MockResponseTranslator {
            extractor: FallbackExtractor::new(
                vec![
                    TextExtractor::JsonPath(JsonPathExtractor::new("message.content")),
                    TextExtractor::JsonPath(JsonPathExtractor::new("text")),
                    TextExtractor::JsonPath(JsonPathExtractor::new("content")),
                    TextExtractor::JsonPath(JsonPathExtractor::new("choices.0.message.content")),
                ],
            ),
            validator: SchemaValidator::new(&[]),
        }
    }
}

/// What decoding yields: the assistant text, or the kind of the failure.
/// The kind must be `mock` or `echo`; configured keys must be present; an
/// `error` field is a provider failure; otherwise the extractors must find
/// non-blank text.
pub open spec fn mock_decode(t: MockResponseTranslator, kind: Seq<char>, payload: Json) -> Result<
    Seq<char>,
    ErrorKind,
> {
    if !(kind == "mock"@ || kind == "echo"@) {
        Err(ErrorKind::ParseFailure)
    } else if t.validator.required_keys@.len() > 0 && !has_keys(payload, t.validator.required_keys@) {
        Err(ErrorKind::Validation)
    } else if json_get(payload, "error"@) is Some {
        Err(ErrorKind::ProviderFailure)
    } else {
        match t.extractor.extraction(payload) {
            None => Err(ErrorKind::ParseFailure),
            Some(text) => if is_blank(text) {
                Err(ErrorKind::ParseFailure)
            } else {
                Ok(text)
            },
        }
    }
}

/// `r` is the reply with text `text` attributed to the context's provider
/// and model.
pub open spec fn attributed_reply(r: ConversationResponse, text: Seq<char>, ctx: TranslationContext) -> bool {
    &&& r.message.role == Role::Assistant
    &&& r.message.content.text@ == text
    &&& r.finish_reason == FinishReason::Stop
    &&& r.usage is None
    &&& r.provider == Some(ctx.provider)
    &&& r.model == ctx.model
}

impl MockResponseTranslator {
    pub fn decode(
        &self,
        representation: &ProviderRepresentation,
        ctx: &TranslationContext,
    ) -> (r: crate::error::Result<ConversationResponse>)
        ensures
            match mock_decode(*self, representation.kind@, representation.payload@) {
                Ok(text) => r matches Ok(resp) && attributed_reply(resp, text, *ctx),
                Err(k) => r matches Err(e) && e.kind == k,
            },
    {
        let kind = representation.kind.as_str();
        if !(crate::text::str_eq(kind, "mock") || crate::text::str_eq(kind, "echo")) {
            let mut m = String::from_str("unexpected provider kind '");
            m.append(kind);
            m.append("'");
            return Err(SetuError::with_message(ErrorKind::ParseFailure, m));
        }
        if self.validator.required_keys.len() > 0 {
            self.validator.validate_payload(&representation.payload)?;
        }
        if representation.payload.get("error").is_some() {
            let mut m = String::from_str("provider '");
            m.append(ctx.provider.as_str());
            m.append("' returned an error payload");
            return Err(SetuError::with_message(ErrorKind::ProviderFailure, m));
        }
        let text = self.extractor.extract_text(&representation.payload)?;
        if crate::text::is_blank_str(text.as_str()) {
            return Err(SetuError::parse_failure("extracted assistant text is empty"));
        }
        let mut response = ConversationResponse::assistant(text.as_str());
        response.provider = Some(ctx.provider.clone());
        response.model = crate::error::clone_opt_string(&ctx.model);
        response.finish_reason = FinishReason::Stop;
        Ok(response)
    }
}

impl RequestTranslator for MockRequestTranslator {
    fn to_provider(
        &self,
        request: &ConversationRequest,
        ctx: &TranslationContext,
    ) -> (r: crate::error::Result<ProviderRepresentation>)
        ensures
            r matches Ok(rep) && rep.kind@ == "mock"@ && rep.payload@ == mock_request_payload(
                msgs_view(request.conversation.messages@),
                request.model,
                *ctx,
            ),
    {
        MockRequestTranslator::to_provider(self, request, ctx)
    }
}

impl ResponseTranslator for MockResponseTranslator {
    fn decode(
        &self,
        representation: &ProviderRepresentation,
        ctx: &TranslationContext,
    ) -> (r: crate::error::Result<ConversationResponse>)
        ensures
            match mock_decode(*self, representation.kind@, representation.payload@) {
                Ok(text) => r matches Ok(resp) && attributed_reply(resp, text, *ctx),
                Err(k) => r matches Err(e) && e.kind == k,
            },
    {
        MockResponseTranslator::decode(self, representation, ctx)
    }
}

/// The outcome of translating `req` outward: the normalized conversation is
/// validated and rendered as the mock payload.
pub open spec fn request_translation(
    req: ConversationRequest,
    ctx: TranslationContext,
    r: crate::error::Result<ProviderRepresentation>,
) -> bool {
    exists|n: Seq<Message>|
        #[trigger] msgs_view(n) == normalized_messages(msgs_view(req.conversation.messages@)) && (
        r is Ok <==> valid_conversation(n)) && (r matches Err(e) ==> e.kind == ErrorKind::Validation)
            && (r matches Ok(rep) ==> rep.kind@ == "mock"@ && rep.payload@ == mock_request_payload(
            msgs_view(n),
            req.model,
            ctx,
        ))
}

/// The outcome of translating `rep` inward: decode, collapse the text's white
/// space, and require non-blank assistant text.
pub open spec fn response_translation(
    t: MockResponseTranslator,
    rep: ProviderRepresentation,
    ctx: TranslationContext,
    r: crate::error::Result<ConversationResponse>,
) -> bool {
    match mock_decode(t, rep.kind@, rep.payload@) {
        Err(k) => r matches Err(e) && e.kind == k,
        Ok(text) => if is_blank(collapse_ws(text)) {
            r matches Err(e) && e.kind == ErrorKind::ParseFailure
        } else {
            r matches Ok(resp) && attributed_reply(resp, collapse_ws(text), ctx)
        },
    }
}

/// Composite translator used by providers and tests: mock request and
/// response translation around white-space normalization.
#[derive(Debug)]
pub struct ConversationTranslator {
    pub request: MockRequestTranslator,
    pub response: MockResponseTranslator,
    pub normalizer: WhitespaceNormalizer,
}

impl ConversationTranslator {
    pub fn mock() -> (r: Self)
        ensures
            mock_response_paths(r.response.extractor),
            r.response.validator.required_keys@.len() == 0,
    {
        ConversationTranslator {
            request: MockRequestTranslator,
            response: MockResponseTranslator::default(),
            normalizer: WhitespaceNormalizer,
        }
    }

    pub fn translate_request(
        &self,
        request: &ConversationRequest,
        ctx: &TranslationContext,
    ) -> (r: crate::error::Result<ProviderRepresentation>)
        ensures
            request_translation(*request, *ctx, r),
    {
        let mut normalized = request.clone();
        normalized.conversation = self.normalizer.normalize(&request.conversation);
        let r = match crate::validator::validate_request_conversation(&normalized.conversation) {
            Err(e) => Err(e),
            Ok(()) => self.request.to_provider(&normalized, ctx),
        };
        proof {
            assert(msgs_view(normalized.conversation.messages@) == normalized_messages(
                msgs_view(request.conversation.messages@),
            ));
        }
        r
    }

    pub fn translate_response(
        &self,
        representation: &ProviderRepresentation,
        ctx: &TranslationContext,
    ) -> (r: crate::error::Result<ConversationResponse>)
        ensures
            response_translation(self.response, *representation, *ctx, r),
    {
        let mut response = self.response.decode(representation, ctx)?;
        let text = self.normalizer.collapse(response.text());
        response.message = Message::assistant(text.as_str());
        crate::validator::validate_response(&response)?;
        Ok(response)
    }

    /// Translate outward, hand the representation to `apply`, and translate
    /// its answer inward.
    pub fn roundtrip<F>(
        &self,
        request: &ConversationRequest,
        ctx: &TranslationContext,
        apply: F,
    ) -> (r: crate::error::Result<ConversationResponse>) where
        F: Fn(ProviderRepresentation) -> crate::error::Result<ProviderRepresentation>,

        requires
            forall|rep: ProviderRepresentation| apply.requires((rep,)),
        ensures
            exists|out: crate::error::Result<ProviderRepresentation>|
                #[trigger] request_translation(*request, *ctx, out) && match out {
                    Err(e) => r == Err::<ConversationResponse, SetuError>(e),
                    Ok(rep) => exists|res: crate::error::Result<ProviderRepresentation>|
                        #[trigger] call_ensures(apply, (rep,), res) && match res {
                            Err(e) => r == Err::<ConversationResponse, SetuError>(e),
                            Ok(inbound) => response_translation(self.response, inbound, *ctx, r),
                        },
                },
    {
        let outbound = self.translate_request(request, ctx);
        let ghost out_r = outbound;
        let rep = match outbound {
            Err(e) => return Err(e),
            Ok(rep) => rep,
        };
        let ghost rep_g = rep;
        let answer = apply(rep);
        let ghost res_g = answer;
        let inbound = match answer {
            Err(e) => {
                assert(call_ensures(apply, (rep_g,), res_g));
                return Err(e);
            },
            Ok(inbound) => inbound,
        };
        let r = self.translate_response(&inbound, ctx);
        proof {
            assert(request_translation(*request, *ctx, out_r));
            assert(call_ensures(apply, (rep_g,), res_g));
        }
        r
    }
}

} // verus!
