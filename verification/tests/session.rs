use aisetu::capture::{check_login_url, CapturedSession, SessionCapture};
use aisetu::error::ErrorKind;
use aisetu::named::NamedValues;
use aisetu::secret::{kind_dir, secret_location, SecretKind, SecretStore};
use aisetu::session::{Session, SessionId, SessionState};
use aisetu::session_store::{MemorySessionStore, SessionManager};

#[test]
fn validate_active() {
    let s = Session::new("mock").cookie("sid", "abc");
    s.validate().unwrap();
    assert!(!s.is_expired());
}

#[test]
fn expired_ttl() {
    let s = Session::new("mock").with_ttl(-1);
    assert!(s.is_expired());
    assert!(s.validate().is_err());
}

#[test]
fn invalidate_clears_secrets() {
    let mut s = Session::new("mock").cookie("sid", "abc");
    s.invalidate();
    assert!(s.cookies.is_empty());
    assert_eq!(s.state, SessionState::Invalid);
    assert!(s.validate().is_err());
}

#[test]
fn session_times_are_explicit() {
    let s = Session::new_at("mock", 100);
    assert_eq!(s.created_at, 100);
    assert_eq!(s.expires_at, Some(100 + 86_400_000));
    assert!(!s.is_expired_at(100 + 86_399_999));
    assert!(s.is_expired_at(100 + 86_400_000));
    assert!(s.id.as_str().starts_with("sess_"));
    let blank = Session::new_at("  ", 100);
    assert_eq!(blank.validate_at(100).unwrap_err().kind, ErrorKind::Validation);
}

#[test]
fn named_values_keep_order_and_replace() {
    let mut v = NamedValues::new();
    v.insert("b", "2");
    v.insert("a", "1");
    v.insert("c", "3");
    v.insert("b", "22");
    assert_eq!(v.len(), 3);
    let names: Vec<&str> = v.entries().iter().map(|(k, _)| k.as_str()).collect();
    assert_eq!(names, vec!["a", "b", "c"]);
    assert_eq!(v.get("b"), Some("22"));
    assert_eq!(v.get("z"), None);
}

#[test]
fn memory_crud() {
    let mut store = MemorySessionStore::new();
    let s = Session::new("mock").cookie("sid", "abc");
    let id = s.id.clone();
    store.save(&s);
    assert!(store.load(&id).is_some());
    assert_eq!(store.load_for_provider("mock").unwrap().cookies.get("sid"), Some("abc"));
    store.delete(&id);
    assert!(store.load(&id).is_none());
}

#[test]
fn latest_session_for_provider_wins() {
    let mut store = MemorySessionStore::new();
    let mut a = Session::new_at("p", 10);
    a.touch_at(50);
    let b = Session::new_at("p", 50);
    let c = Session::new_at("q", 99);
    store.save(&a);
    store.save(&b);
    store.save(&c);
    assert_eq!(store.load_for_provider("p").unwrap().id, b.id);
    assert_eq!(store.list().len(), 3);
    assert!(store.load_for_provider("r").is_none());
}

#[test]
fn lifecycle() {
    let mut mgr = SessionManager::new(MemorySessionStore::new());
    let session = mgr.create(Session::new("mock").cookie("sid", "abc")).unwrap();
    let id = session.id.clone();
    mgr.validate(&id).unwrap();
    mgr.invalidate(&id).unwrap();
    assert!(mgr.load(&id).is_err());
    mgr.delete(&id).unwrap();
    assert_eq!(mgr.load(&id).unwrap_err().kind, ErrorKind::NotFound);
}

#[test]
fn manager_hides_invalid_sessions_from_transport() {
    let mut mgr = SessionManager::new(MemorySessionStore::new());
    let s = mgr.create_at(Session::new_at("p", 0), 0).unwrap();
    assert!(mgr.for_transport_at("p", 1).unwrap().is_some());
    mgr.invalidate_at(&s.id, 2).unwrap();
    assert!(mgr.for_transport_at("p", 3).unwrap().is_none());
    assert!(mgr.create_at(Session::new_at("p", 0), 86_400_000).is_err());
    assert_eq!(SessionId::from_raw("x").as_str(), "x");
}

#[test]
fn filters_cookies() {
    let mut cap = CapturedSession::new("web");
    cap.cookies.insert("sid", "abc");
    cap.cookies.insert("tracking", "nope");
    let filtered = SessionCapture::allow_cookies(&["sid"]).filter(cap);
    assert_eq!(filtered.cookies.len(), 1);
    assert_eq!(filtered.cookies.get("sid"), Some("abc"));
    let session = filtered.into_session();
    assert_eq!(session.provider, "web");
}

#[test]
fn filters_ignore_ascii_case_and_permissive_keeps_all() {
    let mut cap = CapturedSession::new("web");
    cap.cookies.insert("SID", "1");
    cap.headers.insert("Authorization", "Bearer t");
    cap.headers.insert("x-other", "o");
    let kept = SessionCapture::allow_cookies(&["sid"]).filter(cap);
    assert_eq!(kept.cookies.get("SID"), Some("1"));
    assert_eq!(kept.headers.len(), 1);
    let mut cap = CapturedSession::new("web");
    cap.cookies.insert("a", "1");
    let all = SessionCapture::permissive().filter(cap);
    assert_eq!(all.cookies.len(), 1);
}

#[test]
fn headless_login_transfers() {
    check_login_url("https://example.com/login").unwrap();
    let mut captured = CapturedSession::new("web");
    captured.cookies.insert("sid", "abc123");
    let captured = SessionCapture::allow_cookies(&["sid"]).filter(captured);
    assert_eq!(captured.cookies.get("sid"), Some("abc123"));
    let mut mgr = SessionManager::new(MemorySessionStore::new());
    let session = mgr.create(captured.into_session()).unwrap();
    assert_eq!(session.provider, "web");
    assert_eq!(session.cookies.get("sid"), Some("abc123"));
}

#[test]
fn rejects_bad_url() {
    let err = check_login_url("not-a-url").unwrap_err();
    assert_eq!(err.kind, ErrorKind::InvalidRequest);
}

#[test]
fn secrets_from_config() {
    let mut extra = NamedValues::new();
    extra.insert("z", "26");
    extra.insert("a", "1");
    let secrets = SecretStore::split_from_config(Some("sk"), &extra);
    assert_eq!(secrets.len(), 3);
    assert_eq!(secrets[0].kind, SecretKind::ApiCredential);
    assert_eq!(secrets[0].name, "api_key");
    assert_eq!(secrets[0].value, "sk");
    assert_eq!(secrets[1].name, "a");
    assert_eq!(secrets[2].kind, SecretKind::Configuration);
    assert_eq!(SecretStore::split_from_config(None, &NamedValues::new()).len(), 0);
}

#[test]
fn secret_files_are_hashed_per_kind() {
    let (dir, file) = secret_location(SecretKind::ApiCredential, "api_key");
    assert_eq!(dir, "api-credentials");
    assert_eq!(file.len(), 64 + ".secret".len());
    assert!(file.ends_with(".secret"));
    assert!(!file.contains("api_key"));
    let (dir2, file2) = secret_location(SecretKind::ProviderSession, "api_key");
    assert_ne!(dir, dir2);
    assert_eq!(file, file2);
    assert_eq!(kind_dir(SecretKind::RuntimeState), "runtime-state");
    let (_, abc) = secret_location(SecretKind::Configuration, "abc");
    assert_eq!(abc, "ba7816bf8f01cfea414140de5dae2223b00361a396177a9cb410ff61f20015ad.secret");
}
