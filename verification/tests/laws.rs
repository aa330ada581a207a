use aisetu::api::RequireAuth;
use aisetu::config::{AppConfig, ConfigFile, EnvOverrides};
use aisetu::conversation::{Conversation, Message, Role};
use aisetu::needle::{Confidence, NeedleMatch};
use aisetu::normalizer::WhitespaceNormalizer;
use aisetu::secret::{kind_dir, SecretKind};
use aisetu::session::Session;
use aisetu::session_store::MemorySessionStore;

#[test]
fn default_config_has_builtin_models() {
    let cfg = AppConfig::load(ConfigFile::NotConfigured, &EnvOverrides::default()).unwrap();
    assert_eq!(cfg.models.len(), 2);
    assert_eq!(cfg.models[0].id, "aisetu-default");
    assert_eq!(cfg.models[1].id, "aisetu-echo");
}

#[test]
fn role_names_parse_back() {
    for r in [Role::System, Role::User, Role::Assistant] {
        assert_eq!(Role::parse(r.as_str()).unwrap(), r);
    }
}

#[test]
fn collapsing_twice_is_collapsing_once() {
    let n = WhitespaceNormalizer;
    for s in ["", "   ", " a  b\t\nc ", "x", "\u{3000}y\u{a0}z "] {
        let once = n.collapse(s);
        assert_eq!(n.collapse(&once), once);
    }
}

#[test]
fn normalized_neighbours_differ() {
    let n = WhitespaceNormalizer;
    let c = Conversation::with_messages(vec![
        Message::system("a"),
        Message::system("b"),
        Message::user("u1"),
        Message::user("  "),
        Message::user("u2"),
        Message::assistant("x"),
    ]);
    let out = n.normalize(&c);
    let roles: Vec<Role> = out.messages.iter().map(|m| m.role).collect();
    assert_eq!(roles, vec![Role::System, Role::System, Role::User, Role::Assistant]);
    assert_eq!(out.messages[2].content.as_str(), "u1 u2");
}

#[test]
fn saving_twice_keeps_one_copy() {
    let mut store = MemorySessionStore::new();
    let s = Session::new_at("p", 1);
    store.save(&s);
    store.save(&s);
    assert_eq!(store.list().len(), 1);
    assert_eq!(store.load(&s.id).unwrap().id, s.id);
}

#[test]
fn deleted_sessions_are_gone() {
    let mut store = MemorySessionStore::new();
    let s = Session::new_at("p", 1);
    store.save(&s);
    store.delete(&s.id);
    assert!(store.load(&s.id).is_none());
}

#[test]
fn invalidated_sessions_never_validate() {
    let mut s = Session::new_at("p", 1);
    s.invalidate_at(2);
    assert!(s.validate_at(2).is_err());
    assert!(s.validate_at(0).is_err());
}

#[test]
fn elapsed_ttl_expires() {
    let s = Session::new_at("p", 10).with_ttl_at(0, 10);
    assert!(s.is_expired_at(10));
}

#[test]
fn bearer_tokens_are_compared_exactly() {
    assert!(RequireAuth::check(Some("k1"), Some("Bearer k1")).is_ok());
    assert!(RequireAuth::check(Some("k1"), Some("Bearer k2")).is_err());
    assert!(RequireAuth::check(Some("k1"), Some("Bearer k1 ")).is_err());
}

#[test]
fn default_threshold_admits_labeled_matches() {
    let half = Confidence { num: 1, den: 2 };
    assert!(NeedleMatch::Labeled { hits: 1, total: 10 }.meets(half));
    assert!(NeedleMatch::Labeled { hits: 0, total: 0 }.meets(half));
    assert!(!NeedleMatch::Labeled { hits: 1, total: 10 }.meets(Confidence { num: 6, den: 10 }));
}

#[test]
fn secret_kinds_use_distinct_directories() {
    let kinds = [SecretKind::ApiCredential, SecretKind::ProviderSession, SecretKind::Configuration, SecretKind::RuntimeState];
    for a in kinds {
        for b in kinds {
            if a != b {
                assert_ne!(kind_dir(a), kind_dir(b));
            }
        }
    }
}

#[test]
fn normalizing_twice_is_normalizing_once() {
    let n = WhitespaceNormalizer;
    let c = Conversation::with_messages(vec![
        Message::system(" a \t b "),
        Message::system("c"),
        Message::user("u1\n"),
        Message::user("   "),
        Message::user(" u2  u3"),
        Message::assistant("x"),
        Message::assistant("y"),
    ]);
    let once = n.normalize(&c);
    let twice = n.normalize(&once);
    assert_eq!(twice, once);
    assert_eq!(once.messages[0].content.as_str(), "a b");
    assert_eq!(once.messages[2].content.as_str(), "u1 u2 u3");
    assert_eq!(once.messages[3].content.as_str(), "x y");
}

#[test]
fn role_parsing_normalizes_first() {
    for v in [" USER ", "Assistant", "\tsystem\n", " Tool ", "", "  "] {
        let normalized = v.trim().to_ascii_lowercase();
        match (Role::parse(v), Role::parse(&normalized)) {
            (Ok(a), Ok(b)) => assert_eq!(a, b),
            (Err(a), Err(b)) => {
                assert_eq!(a.kind, b.kind);
                assert_eq!(a.message, b.message);
            },
            _ => panic!("parsing {:?} and its normalized form disagree", v),
        }
    }
    assert_eq!(Role::parse(" USER ").unwrap(), Role::User);
}
