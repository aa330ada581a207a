use aisetu::canonical::CanonicalJsonTranslator;
use aisetu::conversation::{Conversation, Message, Role};
use aisetu::response::FinishReason;
use aisetu::error::ErrorKind;
use aisetu::extractor::{Extractor, FallbackExtractor, JsonPathExtractor, RegexExtractor, TextExtractor};
use aisetu::json::JsonValue;
use aisetu::normalizer::{Normalizer, WhitespaceNormalizer};
use aisetu::request::ConversationRequest;
use aisetu::translator::{ConversationTranslator, ProviderRepresentation, TranslationContext};
use aisetu::validator::{SchemaValidator, Validator};

fn s(v: &str) -> JsonValue {
    JsonValue::String(v.to_string())
}

fn obj(entries: Vec<(&str, JsonValue)>) -> JsonValue {
    JsonValue::Object(entries.into_iter().map(|(k, v)| (k.to_string(), v)).collect())
}

#[test]
fn json_path() {
    let payload = obj(vec![(
        "choices",
        JsonValue::Array(vec![obj(vec![("message", obj(vec![("content", s("hello"))]))])]),
    )]);
    let ex = JsonPathExtractor::new("choices.0.message.content");
    assert_eq!(ex.extract_text(&payload).unwrap(), "hello");
}

#[test]
fn json_path_missing() {
    let payload = obj(vec![("choices", JsonValue::Array(vec![]))]);
    let ex = JsonPathExtractor::new("choices.0.message.content");
    assert!(ex.extract_text(&payload).is_err());
}

#[test]
fn json_path_scalars_as_text() {
    let payload = obj(vec![("n", JsonValue::Number("36".to_string())), ("b", JsonValue::Bool(true))]);
    assert_eq!(JsonPathExtractor::new("n").extract_text(&payload).unwrap(), "36");
    assert_eq!(JsonPathExtractor::new("b").extract_text(&payload).unwrap(), "true");
    assert_eq!(
        JsonPathExtractor::new("x").extract_text(&payload).unwrap_err().kind,
        ErrorKind::ParseFailure
    );
}

#[test]
fn regex_between() {
    let payload = s("PRE hello SUF");
    let ex = RegexExtractor::between("PRE ", " SUF");
    assert_eq!(ex.extract_text(&payload).unwrap(), "hello");
}

#[test]
fn fallback() {
    let payload = obj(vec![("text", s("ok"))]);
    let fb = FallbackExtractor::new(vec![
        TextExtractor::JsonPath(JsonPathExtractor::new("missing")),
        TextExtractor::JsonPath(JsonPathExtractor::new("text")),
    ]);
    assert_eq!(fb.extract_text(&payload).unwrap(), "ok");
}

#[test]
fn collapses_whitespace() {
    let n = WhitespaceNormalizer;
    assert_eq!(n.normalize_text("  hello   world \n"), "hello world");
}

#[test]
fn merges_adjacent_same_role() {
    let n = WhitespaceNormalizer;
    let c = Conversation::with_messages(vec![
        Message::user("hello"),
        Message::user("world"),
        Message::assistant("ok"),
    ]);
    let out = n.normalize_conversation(&c);
    assert_eq!(out.len(), 2);
    assert_eq!(out.messages[0].content.as_str(), "hello world");
}

#[test]
fn normalizing_drops_blank_messages() {
    let n = WhitespaceNormalizer;
    let c = Conversation::with_messages(vec![Message::user(" a "), Message::assistant("   ")]);
    let out = n.normalize_conversation(&c);
    assert_eq!(out.len(), 1);
    assert_eq!(out.messages[0].role, Role::User);
    assert_eq!(out.messages[0].content.as_str(), "a");
}

fn sample_request() -> ConversationRequest {
    ConversationRequest::new(Conversation::with_messages(vec![
        Message::system("be brief"),
        Message::user("hello"),
    ]))
    .with_model("mock-text")
}

#[test]
fn mock_roundtrip() {
    let engine = ConversationTranslator::mock();
    let ctx = TranslationContext { provider: "mock".into(), model: Some("mock-text".into()) };
    let response = engine
        .roundtrip(&sample_request(), &ctx, |rep| {
            assert_eq!(rep.kind, "mock");
            let content = rep.payload.get("messages").unwrap().at(1).unwrap().get("content").unwrap();
            assert_eq!(content, &s("hello"));
            Ok(ProviderRepresentation::new("mock", obj(vec![("text", s("  hi there  "))])))
        })
        .unwrap();
    assert_eq!(response.text(), "hi there");
    assert_eq!(response.provider.as_deref(), Some("mock"));
}

#[test]
fn empty_extraction_fails() {
    let engine = ConversationTranslator::mock();
    let ctx = TranslationContext { provider: "mock".into(), model: None };
    let err = engine
        .translate_response(&ProviderRepresentation::new("mock", obj(vec![("text", s("  "))])), &ctx)
        .unwrap_err();
    assert_eq!(err.kind, ErrorKind::ParseFailure);
}

#[test]
fn error_payload_fails() {
    let engine = ConversationTranslator::mock();
    let ctx = TranslationContext { provider: "mock".into(), model: None };
    let err = engine
        .translate_response(&ProviderRepresentation::new("mock", obj(vec![("error", s("nope"))])), &ctx)
        .unwrap_err();
    assert_eq!(err.kind, ErrorKind::ProviderFailure);
}

#[test]
fn unexpected_fields_are_ignored() {
    let engine = ConversationTranslator::mock();
    let ctx = TranslationContext { provider: "mock".into(), model: Some("m".into()) };
    let rep = ProviderRepresentation::new(
        "mock",
        obj(vec![
            ("text", s("ok")),
            ("unexpected", obj(vec![("nested", JsonValue::Bool(true))])),
            ("foo", JsonValue::Number("1".to_string())),
        ]),
    );
    let response = engine.translate_response(&rep, &ctx).unwrap();
    assert_eq!(response.text(), "ok");
}

#[test]
fn unknown_kind_is_a_parse_failure() {
    let engine = ConversationTranslator::mock();
    let ctx = TranslationContext { provider: "mock".into(), model: None };
    let err = engine
        .translate_response(&ProviderRepresentation::new("other", obj(vec![("text", s("x"))])), &ctx)
        .unwrap_err();
    assert_eq!(err.kind, ErrorKind::ParseFailure);
}

#[test]
fn schema_ok_and_missing() {
    let v = SchemaValidator::new(&["text", "ok"]);
    v.validate_payload(&obj(vec![("text", s("a")), ("ok", JsonValue::Bool(true))])).unwrap();
    assert!(v.validate_payload(&obj(vec![("text", s("a"))])).is_err());
    assert!(v.validate_payload(&s("nope")).is_err());
}

#[test]
fn canonical_roundtrip_shapes() {
    let t = CanonicalJsonTranslator;
    let ctx = TranslationContext { provider: "p".into(), model: None };
    let rep = t.to_provider(&sample_request(), None, &ctx).unwrap();
    assert_eq!(rep.kind, "canonical");
    assert_eq!(rep.payload.get("model"), Some(&s("mock-text")));
    assert_eq!(rep.payload.get("temperature"), Some(&JsonValue::Null));
    let payload = obj(vec![
        ("message", obj(vec![("role", s("assistant")), ("content", obj(vec![("text", s("hi"))]))])),
        ("finish_reason", s("length")),
        ("usage", JsonValue::Null),
    ]);
    let resp = t.decode(&ProviderRepresentation::new("canonical", payload), &ctx).unwrap();
    assert_eq!(resp.text(), "hi");
    assert_eq!(resp.finish_reason, FinishReason::Length);
    assert_eq!(resp.provider.as_deref(), Some("p"));
    let bad = obj(vec![("message", s("x"))]);
    assert_eq!(t.decode(&ProviderRepresentation::new("canonical", bad), &ctx).unwrap_err().kind, ErrorKind::ParseFailure);
}

#[test]
fn canonical_reads_positional_and_tagged_forms() {
    let t = CanonicalJsonTranslator;
    let ctx = TranslationContext { provider: "p".into(), model: None };
    let num = |n: &str| JsonValue::Number(n.to_string());
    let payload = JsonValue::Array(vec![
        JsonValue::Array(vec![obj(vec![("user", JsonValue::Null)]), JsonValue::Array(vec![s("yo")])]),
        obj(vec![("stop", JsonValue::Null)]),
        JsonValue::Array(vec![num("1"), num("2"), num("3")]),
        s("m"),
        JsonValue::Null,
    ]);
    let resp = t.decode(&ProviderRepresentation::new("canonical", payload), &ctx).unwrap();
    assert_eq!(resp.message.role, Role::User);
    assert_eq!(resp.text(), "yo");
    assert_eq!(resp.finish_reason, FinishReason::Stop);
    assert_eq!(resp.usage.unwrap().total_tokens, 3);
    assert_eq!(resp.model.as_deref(), Some("m"));
    assert_eq!(resp.provider.as_deref(), Some("p"));
    let short = JsonValue::Array(vec![JsonValue::Null]);
    assert_eq!(t.decode(&ProviderRepresentation::new("canonical", short), &ctx).unwrap_err().kind, ErrorKind::ParseFailure);
    let tagged_with_value = obj(vec![
        ("message", obj(vec![("role", s("assistant")), ("content", obj(vec![("text", s("hi"))]))])),
        ("finish_reason", obj(vec![("stop", s("x"))])),
    ]);
    assert!(t.decode(&ProviderRepresentation::new("canonical", tagged_with_value), &ctx).is_err());
}
