use aisetu::error::ErrorKind;
use aisetu::intelligence::{DeterministicEngine, IntelligenceContext, IntelligenceInput};
use aisetu::json::JsonValue;
use aisetu::needle::{find_labeled, NeedleEngine, NeedleMatch};
use aisetu::schema::{JsonSchema, SchemaType};

fn obj(entries: Vec<(&str, JsonValue)>) -> JsonValue {
    JsonValue::Object(entries.into_iter().map(|(k, v)| (k.to_string(), v)).collect())
}

fn person_schema() -> JsonSchema {
    JsonSchema::object(&["name", "age"], vec![("name", JsonSchema::string()), ("age", JsonSchema::number())])
}

fn confidence(m: NeedleMatch) -> f64 {
    let (n, d) = m.confidence();
    n as f64 / d as f64
}

#[test]
fn object_required() {
    let schema = JsonSchema::object(&["name"], vec![("name", JsonSchema::string()), ("age", JsonSchema::number())]);
    schema
        .validate(&obj(vec![
            ("name", JsonValue::String("ada".to_string())),
            ("age", JsonValue::Number("36".to_string())),
        ]))
        .unwrap();
    assert!(schema.validate(&obj(vec![("age", JsonValue::Number("36".to_string()))])).is_err());
    assert!(schema.validate(&obj(vec![("name", JsonValue::Number("1".to_string()))])).is_err());
}

#[test]
fn object_later_property_wins() {
    let schema = JsonSchema::object(&[], vec![("a", JsonSchema::string()), ("a", JsonSchema::number())]);
    assert_eq!(schema.properties.len(), 1);
    schema.validate(&obj(vec![("a", JsonValue::Number("2".to_string()))])).unwrap();
    assert_eq!(
        schema.validate(&obj(vec![("a", JsonValue::String("x".to_string()))])).unwrap_err().kind,
        ErrorKind::Validation
    );
}

#[test]
fn extracts_embedded_json() {
    let engine = NeedleEngine::new();
    let (value, how) = engine
        .infer(
            &IntelligenceInput::new("noise {\"name\":\"Ada\",\"age\":36} trailing"),
            &person_schema(),
            &IntelligenceContext::default(),
        )
        .unwrap();
    assert_eq!(value.get("name"), Some(&JsonValue::String("Ada".to_string())));
    assert_eq!(value.get("age").unwrap().as_u64(), Some(36));
    assert!(confidence(how) >= 0.9);
    assert_eq!(engine.name(), "needle");
}

#[test]
fn extracts_labeled_fields() {
    let engine = NeedleEngine::new();
    let (value, how) = engine
        .infer(&IntelligenceInput::new("name: Grace\nage: 85"), &person_schema(), &IntelligenceContext::default())
        .unwrap();
    assert_eq!(value.get("name"), Some(&JsonValue::String("Grace".to_string())));
    match value.get("age") {
        Some(JsonValue::Number(t)) => assert_eq!(t.parse::<f64>().unwrap(), 85.0),
        other => panic!("age is not a number: {:?}", other),
    }
    assert!(confidence(how) >= 0.5);
    assert_eq!(how, NeedleMatch::Labeled { hits: 2, total: 2 });
}

#[test]
fn fails_when_nothing_matches() {
    let engine = NeedleEngine::new();
    let err = engine
        .infer(&IntelligenceInput::new("nothing useful here"), &person_schema(), &IntelligenceContext::default())
        .unwrap_err();
    assert_eq!(err.kind, ErrorKind::ParseFailure);
}

#[test]
fn whole_text_json_is_most_confident() {
    let engine = NeedleEngine::new();
    let (_, how) = engine
        .infer(&IntelligenceInput::new(" {\"name\":\"A\",\"age\":1} "), &person_schema(), &IntelligenceContext::default())
        .unwrap();
    assert_eq!(how, NeedleMatch::Whole);
    assert_eq!(how.confidence(), (99, 100));
}

#[test]
fn finds_labeled_values() {
    assert_eq!(find_labeled("Name=\"Ada\"\n", "name").as_deref(), Some("Ada"));
    assert_eq!(find_labeled("nothing", "name"), None);
}

fn bool_schema() -> JsonSchema {
    JsonSchema::object(&["ok"], vec![("ok", JsonSchema::boolean())])
}

#[test]
fn deterministic_validates() {
    let engine = DeterministicEngine;
    let out = engine
        .infer(&IntelligenceInput::new(r#"{"ok": true}"#), &bool_schema(), &IntelligenceContext::default())
        .unwrap();
    assert_eq!(out, obj(vec![("ok", JsonValue::Bool(true))]));
    assert_eq!(engine.name(), "deterministic");
}

#[test]
fn deterministic_rejects_invalid() {
    let engine = DeterministicEngine;
    let err = engine
        .infer(&IntelligenceInput::new(r#"{"ok": "nope"}"#), &bool_schema(), &IntelligenceContext::default())
        .unwrap_err();
    assert_eq!(err.kind, ErrorKind::Validation);
}

#[test]
fn both_engines_same_contract() {
    let det = DeterministicEngine;
    let needle = NeedleEngine::new();
    let a = det.infer(&IntelligenceInput::new(r#"{"ok": true}"#), &bool_schema(), &IntelligenceContext::default()).unwrap();
    bool_schema().validate(&a).unwrap();
    assert_eq!(a.get("ok"), Some(&JsonValue::Bool(true)));
    let (b, how) = needle
        .infer(&IntelligenceInput::new(r#"prefix {"ok": true} suffix"#), &bool_schema(), &IntelligenceContext::default())
        .unwrap();
    bool_schema().validate(&b).unwrap();
    assert!(confidence(how) > 0.0);
    assert_eq!(b.get("ok"), Some(&JsonValue::Bool(true)));
    assert_eq!(det.name(), "deterministic");
    assert_eq!(needle.name(), "needle");
}

#[test]
fn object_schema_keeps_names_in_order_once() {
    let schema = JsonSchema::object(
        &["b"],
        vec![("b", JsonSchema::string()), ("a", JsonSchema::boolean()), ("b", JsonSchema::number())],
    );
    let names: Vec<&str> = schema.properties.iter().map(|(k, _)| k.as_str()).collect();
    assert_eq!(names, vec!["a", "b"]);
    assert_eq!(schema.properties[1].1.schema_type, SchemaType::Number);
}
