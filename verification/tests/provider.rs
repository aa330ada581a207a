use aisetu::config::{AppConfig, ConfigFile, EnvOverrides};
use aisetu::conversation::{Conversation, Message, Role};
use aisetu::error::{ErrorKind, SetuError};
use aisetu::http_provider::{parse_openai_response, HttpJsonProvider, OpenAiCompatibleProvider};
use aisetu::json::JsonValue;
use aisetu::provider::{Capability, EchoProvider, MockProvider, ProviderCapabilities, ProviderId};
use aisetu::provider_error::{normalize_http_error, parse_u64, HttpReply};
use aisetu::registry::{ModelRecord, ModelRegistry, ProviderRegistry, Router};
use aisetu::reliability::{sanitize, ReliableExtractor};
use aisetu::request::ConversationRequest;
use aisetu::response::{FinishReason, Usage};
use aisetu::session::Session;
use aisetu::translator::ProviderRepresentation;

fn s(v: &str) -> JsonValue {
    JsonValue::String(v.to_string())
}

fn obj(entries: Vec<(&str, JsonValue)>) -> JsonValue {
    JsonValue::Object(entries.into_iter().map(|(k, v)| (k.to_string(), v)).collect())
}

fn reply(status: u16, body: &str) -> HttpReply {
    HttpReply { status, body: body.to_string(), retry_after: None }
}

#[test]
fn id_display() {
    let id = ProviderId::new("mock");
    assert_eq!(id.to_string(), "mock");
}

#[test]
fn require_streaming() {
    let caps = ProviderCapabilities::text_only();
    assert!(caps.require(Capability::Text).is_ok());
    assert!(caps.require(Capability::Streaming).is_err());
    let caps = caps.with_streaming();
    assert!(caps.require(Capability::Streaming).is_ok());
}

#[test]
fn echoes() {
    let p = EchoProvider::new("echo");
    let req = ConversationRequest::new(Conversation::with_messages(vec![Message::system("sys"), Message::user("ping")]));
    let resp = p.complete(&req).unwrap();
    assert_eq!(resp.text(), "ping");
    assert_eq!(resp.provider.as_deref(), Some("echo"));
}

#[test]
fn replies_to_user() {
    let p = MockProvider::new("mock");
    let req = ConversationRequest::new(Conversation::with_messages(vec![Message::user("hello")])).with_model("mock-text");
    let resp = p.complete(&req).unwrap();
    assert!(resp.text().contains("hello"));
    assert_eq!(resp.provider.as_deref(), Some("mock"));
}

#[test]
fn maps_auth_rate_limit_timeout() {
    let e = normalize_http_error("p", &reply(401, r#"{"error":{"message":"bad key"}}"#));
    assert_eq!(e.kind, ErrorKind::Authentication);
    assert_eq!(e.message, "bad key");

    let mut r = reply(429, r#"{"error":{"message":"slow down"}}"#);
    r.retry_after = Some("2".to_string());
    let e = normalize_http_error("p", &r);
    assert_eq!(e.kind, ErrorKind::RateLimited);
    assert_eq!(e.retry_after_ms, Some(2000));

    let e = normalize_http_error("p", &reply(504, "gateway"));
    assert_eq!(e.kind, ErrorKind::Timeout);

    let e = normalize_http_error("p", &reply(401, "session expired, please login"));
    assert_eq!(e.kind, ErrorKind::SessionExpired);
}

#[test]
fn http_error_messages_and_kinds() {
    let e = normalize_http_error("p", &reply(418, "   "));
    assert_eq!(e.kind, ErrorKind::InvalidRequest);
    assert_eq!(e.message, "provider returned HTTP 418");
    assert_eq!(e.source_detail.as_deref(), Some("http 418"));
    assert_eq!(e.provider.as_deref(), Some("p"));
    let e = normalize_http_error("p", &reply(503, r#"{"detail":"down"}"#));
    assert_eq!(e.kind, ErrorKind::ProviderFailure);
    assert_eq!(e.message, "down");
    let e = normalize_http_error("p", &reply(302, &"x".repeat(300)));
    assert_eq!(e.kind, ErrorKind::ProviderFailure);
    assert_eq!(e.message, "provider returned HTTP 302");
    let mut r = reply(429, "busy");
    r.retry_after = Some("soon".to_string());
    assert_eq!(normalize_http_error("p", &r).retry_after_ms, None);
}

#[test]
fn parses_u64_like_std() {
    assert_eq!(parse_u64("+7"), Some(7));
    assert_eq!(parse_u64("18446744073709551615"), Some(u64::MAX));
    assert_eq!(parse_u64("18446744073709551616"), None);
    assert_eq!(parse_u64("+"), None);
    assert_eq!(parse_u64("-1"), None);
}

#[test]
fn register_and_get() {
    let mut reg = ProviderRegistry::new();
    reg.register(MockProvider::new("mock").descriptor());
    assert!(reg.get("mock").is_some());
    assert!(reg.get("nope").is_none());
}

#[test]
fn register_replaces_same_name() {
    let mut reg = ProviderRegistry::new();
    reg.register(MockProvider::new("p").descriptor());
    reg.register(EchoProvider::new("p").descriptor());
    assert_eq!(reg.names().len(), 1);
    assert!(reg.get("p").unwrap().capabilities.streaming);
}

#[test]
fn models_from_config() {
    let cfg = AppConfig::load(ConfigFile::NotConfigured, &EnvOverrides::default()).unwrap();
    let models = ModelRegistry::from_config(&cfg);
    assert!(models.get("aisetu-default").is_some());
}

fn record(id: &str, provider: &str) -> ModelRecord {
    ModelRecord { id: id.into(), provider: provider.into(), upstream_model: None, owned_by: "aisetu".into() }
}

#[test]
fn routes_by_model() {
    let mut providers = ProviderRegistry::new();
    providers.register(MockProvider::new("mock").descriptor());
    providers.register(EchoProvider::new("echo").descriptor());
    let models = ModelRegistry::from_records(vec![record("aisetu-default", "mock"), record("aisetu-echo", "echo")]);
    let router = Router::new(models, providers);
    let (rec, p) = router.resolve("aisetu-echo").unwrap();
    assert_eq!(rec.provider, "echo");
    assert_eq!(p.id().as_str(), "echo");
    assert!(router.resolve("nope").is_err());
}

#[test]
fn routing_errors() {
    let models = ModelRegistry::from_records(vec![record("m", "ghost")]);
    let router = Router::new(models, ProviderRegistry::new());
    assert_eq!(router.resolve("m").unwrap_err().kind, ErrorKind::Configuration);
    assert_eq!(router.resolve("x").unwrap_err().kind, ErrorKind::NotFound);
}

fn rep(payload: JsonValue) -> ProviderRepresentation {
    ProviderRepresentation::new("x", payload)
}

#[test]
fn extracts_standard_paths() {
    let r = ReliableExtractor::default();
    let p = obj(vec![("choices", JsonValue::Array(vec![obj(vec![("message", obj(vec![("content", s(" hello "))]))])]))]);
    let out = r.extract(&rep(p)).unwrap();
    assert_eq!(out.text(), "hello");
}

#[test]
fn malformed_null_fails_explicitly() {
    let r = ReliableExtractor::default();
    let err = r.extract(&rep(JsonValue::Null)).unwrap_err();
    assert_eq!(err.kind, ErrorKind::ParseFailure);
}

#[test]
fn unexpected_shape_uses_needle() {
    let r = ReliableExtractor::default();
    let out = r.extract(&rep(obj(vec![("text", s("recovered"))]))).unwrap();
    assert_eq!(out.text(), "recovered");
}

#[test]
fn missing_content_fails() {
    let r = ReliableExtractor::default();
    let err = r.extract(&rep(obj(vec![("foo", JsonValue::Number("1".to_string()))]))).unwrap_err();
    assert_eq!(err.kind, ErrorKind::ParseFailure);
}

#[test]
fn error_field_is_provider_failure() {
    let r = ReliableExtractor::default();
    let err = r.extract(&rep(obj(vec![("error", s("boom"))]))).unwrap_err();
    assert_eq!(err.kind, ErrorKind::ProviderFailure);
    assert_eq!(err.message, "provider error: \"boom\"");
    let ok = r.extract(&rep(obj(vec![("error", JsonValue::Null), ("text", s("fine"))]))).unwrap();
    assert_eq!(ok.text(), "fine");
}

#[test]
fn needle_reads_string_payloads() {
    let r = ReliableExtractor::default();
    let out = r.extract(&rep(s("text: from needle"))).unwrap();
    assert_eq!(out.text(), "from needle");
}

#[test]
fn sanitize_removes_nul_and_trims() {
    assert_eq!(sanitize(" a\u{0}b \n"), "ab");
}

fn user_request(text: &str) -> ConversationRequest {
    ConversationRequest::new(Conversation::with_messages(vec![Message::user(text)]))
}

#[test]
fn http_json_roundtrip() {
    let provider = HttpJsonProvider::new("web", "https://provider.example/chat");
    let (call, ctx) = provider.prepare_at(&user_request("hello"), None, 0).unwrap();
    assert_eq!(call.url, "https://provider.example/chat");
    assert_eq!(call.headers, vec![("accept".to_string(), "application/json".to_string())]);
    assert!(call.json_body.contains("hello"));
    let resp = provider.finish(&ctx, Ok(reply(200, r#"{"text":"from provider"}"#))).unwrap();
    assert_eq!(resp.text(), "from provider");
    assert_eq!(resp.provider.as_deref(), Some("web"));
    assert_eq!(resp.usage, Some(Usage::new(0, 0)));
}

#[test]
fn http_error_normalized() {
    let provider = HttpJsonProvider::new("web", "https://provider.example/chat");
    let (_, ctx) = provider.prepare_at(&user_request("x"), None, 0).unwrap();
    let err = provider.finish(&ctx, Ok(reply(429, r#"{"error":{"message":"rate"}}"#))).unwrap_err();
    assert_eq!(err.kind, ErrorKind::RateLimited);
    assert_eq!(err.message, "rate");
}

#[test]
fn http_json_plain_text_body_is_the_reply() {
    let provider = HttpJsonProvider::new("web", "https://provider.example/chat");
    let (_, ctx) = provider.prepare_at(&user_request("x"), None, 0).unwrap();
    let resp = provider.finish(&ctx, Ok(reply(200, "  just text  "))).unwrap();
    assert_eq!(resp.text(), "just text");
}

#[test]
fn http_json_transport_failure_is_attributed() {
    let provider = HttpJsonProvider::new("web", "https://provider.example/chat");
    let (_, ctx) = provider.prepare_at(&user_request("x"), None, 0).unwrap();
    let err = provider.finish(&ctx, Err(SetuError::network("refused"))).unwrap_err();
    assert_eq!(err.kind, ErrorKind::Network);
    assert_eq!(err.provider.as_deref(), Some("web"));
}

#[test]
fn http_json_applies_session_and_refuses_expired() {
    let provider = HttpJsonProvider::new("web", "https://provider.example/chat").with_model("up");
    let session = Session::new_at("web", 1_000).cookie("sid", "abc").header("x-h", "v");
    let (call, ctx) = provider.prepare_at(&user_request("x"), Some(&session), 1_000).unwrap();
    assert_eq!(call.cookies, vec![("sid".to_string(), "abc".to_string())]);
    assert_eq!(call.headers.len(), 2);
    assert_eq!(ctx.model.as_deref(), Some("up"));
    let late = 1_000 + 86_400_000;
    let err = provider.prepare_at(&user_request("x"), Some(&session), late).unwrap_err();
    assert_eq!(err.kind, ErrorKind::SessionExpired);
    let bad = ConversationRequest::new(Conversation::new());
    assert_eq!(provider.prepare_at(&bad, None, 0).unwrap_err().kind, ErrorKind::Validation);
}

#[test]
fn parses_openai_response() {
    let p = OpenAiCompatibleProvider::new("upstream", "https://example.invalid/v1");
    let call = p.prepare_at(&user_request("hi"), None, None, 0).unwrap();
    assert_eq!(call.url, "https://example.invalid/v1/chat/completions");
    let body = r#"{"model":"m","choices":[{"message":{"role":"assistant","content":"ok"},"finish_reason":"stop"}]}"#;
    let r = p.finish(None, Ok(reply(200, body))).unwrap();
    assert_eq!(r.text(), "ok");
}

#[test]
fn openai_details() {
    let p = OpenAiCompatibleProvider::new("up", "https://x.invalid/v1//").with_api_key("k");
    assert_eq!(p.base_url, "https://x.invalid/v1");
    let mut req = user_request("hi");
    req.max_tokens = Some(5);
    let call = p.prepare_at(&req, None, None, 0).unwrap();
    assert!(call.headers.contains(&("authorization".to_string(), "Bearer k".to_string())));
    assert!(call.json_body.contains("\"max_tokens\":5"));
    let v = obj(vec![
        ("choices", JsonValue::Array(vec![obj(vec![("finish_reason", s("length"))])])),
        ("text", s("fallback")),
        ("model", s("served")),
        ("usage", obj(vec![("prompt_tokens", JsonValue::Number("3".to_string())), ("completion_tokens", JsonValue::Number("4".to_string()))])),
    ]);
    let r = parse_openai_response("up", &v, None).unwrap();
    assert_eq!(r.text(), "fallback");
    assert_eq!(r.finish_reason, FinishReason::Length);
    assert_eq!(r.model.as_deref(), Some("served"));
    assert_eq!(r.usage, Some(Usage::new(3, 4)));
    assert_eq!(r.message.role, Role::Assistant);
    assert_eq!(parse_openai_response("up", &obj(vec![]), None).unwrap_err().kind, ErrorKind::ParseFailure);
    assert_eq!(p.finish(None, Ok(reply(200, "not json"))).unwrap_err().kind, ErrorKind::ParseFailure);
}

#[test]
fn reliable_text_is_clean() {
    let r = ReliableExtractor::default();
    let out = r.extract(&rep(obj(vec![("content", s(" \u{0}he\u{0}llo\t "))]))).unwrap();
    assert_eq!(out.text(), "hello");
    let blank = r.extract(&rep(obj(vec![("content", s(" \u{0} "))])));
    assert!(blank.is_err());
}
