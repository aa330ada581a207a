use aisetu::conversation::{validate_conversation, Conversation, Message, Role, TextContent};
use aisetu::error::ErrorKind;
use aisetu::request::ConversationRequest;
use aisetu::response::ConversationResponse;

#[test]
fn empty_detection() {
    assert!(TextContent::new("  ").is_empty());
    assert!(!TextContent::new("hello").is_empty());
}

#[test]
fn build_and_query() {
    let mut c = Conversation::new();
    c.push(Message::system("sys"));
    c.push(Message::user("hello"));
    c.push(Message::assistant("hi"));
    assert_eq!(c.len(), 3);
    assert_eq!(c.last_user().unwrap().content.as_str(), "hello");
    assert_eq!(c.system_messages().len(), 1);
    c.validate().unwrap();
}

#[test]
fn constructors() {
    let m = Message::user("hi");
    assert_eq!(m.role, Role::User);
    assert_eq!(m.content.as_str(), "hi");
}

#[test]
fn parse_roundtrip() {
    for role in [Role::System, Role::User, Role::Assistant] {
        assert_eq!(Role::parse(role.as_str()).unwrap(), role);
    }
    assert!(Role::parse("tool").is_err());
    assert!(Role::parse("").is_err());
}

#[test]
fn role_parse_trims_and_ignores_case() {
    assert_eq!(Role::parse("  USER ").unwrap(), Role::User);
    assert_eq!(Role::parse("Assistant").unwrap(), Role::Assistant);
    assert_eq!(Role::parse("tool").unwrap_err().kind, ErrorKind::Validation);
    assert_eq!(Role::System.to_string(), "system");
}

#[test]
fn empty_rejected() {
    assert!(validate_conversation(&Conversation::new()).is_err());
}

#[test]
fn system_only_rejected() {
    let c = Conversation::with_messages(vec![Message::system("s")]);
    assert!(validate_conversation(&c).is_err());
}

#[test]
fn assistant_first_rejected() {
    let c = Conversation::with_messages(vec![Message::assistant("a")]);
    assert!(validate_conversation(&c).is_err());
}

#[test]
fn system_after_user_rejected() {
    let c = Conversation::with_messages(vec![Message::user("u"), Message::system("late")]);
    assert!(validate_conversation(&c).is_err());
}

#[test]
fn empty_content_rejected() {
    let c = Conversation::with_messages(vec![Message::user("   ")]);
    assert!(validate_conversation(&c).is_err());
}

#[test]
fn valid_shapes() {
    let a = Conversation::with_messages(vec![Message::user("hi")]);
    validate_conversation(&a).unwrap();
    let b = Conversation::with_messages(vec![
        Message::system("s"),
        Message::user("u"),
        Message::assistant("a"),
        Message::user("u2"),
    ]);
    validate_conversation(&b).unwrap();
}

#[test]
fn validation_errors_are_validation_kind() {
    let c = Conversation::with_messages(vec![Message::assistant("a")]);
    assert_eq!(validate_conversation(&c).unwrap_err().kind, ErrorKind::Validation);
}

#[test]
fn validates_temperature() {
    let mut req = ConversationRequest::new(Conversation::with_messages(vec![Message::user("hi")]));
    req.temperature_bits = Some(3.0f32.to_bits());
    assert!(req.validate().is_err());
    req.temperature_bits = Some(0.7f32.to_bits());
    req.validate().unwrap();
}

#[test]
fn temperature_edges() {
    let mut req = ConversationRequest::new(Conversation::with_messages(vec![Message::user("hi")]));
    req.temperature_bits = Some(2.0f32.to_bits());
    req.validate().unwrap();
    req.temperature_bits = Some((-0.0f32).to_bits());
    req.validate().unwrap();
    req.temperature_bits = Some((-0.1f32).to_bits());
    assert!(req.validate().is_err());
    req.temperature_bits = Some(f32::NAN.to_bits());
    assert!(req.validate().is_err());
    req.temperature_bits = None;
    req.max_tokens = Some(0);
    assert!(req.validate().is_err());
}

#[test]
fn assistant_response() {
    let r = ConversationResponse::assistant("ok");
    r.validate().unwrap();
    assert_eq!(r.text(), "ok");
    let back = r.clone();
    assert_eq!(r, back);
}

#[test]
fn validation_messages_name_the_message() {
    let c = Conversation::with_messages(vec![Message::user("u"), Message::system("late")]);
    assert_eq!(
        validate_conversation(&c).unwrap_err().message,
        "system message at index 1 appears after a non-system message"
    );
    let c = Conversation::with_messages(vec![Message::user("ok"), Message::user("   ")]);
    assert_eq!(c.validate().unwrap_err().message, "message 1 has empty content");
    assert_eq!(Role::parse(" Tool ").unwrap_err().message, "unsupported role 'tool'");
}
