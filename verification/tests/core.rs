use aisetu::config::{AppConfig, ConfigError, ConfigFile, EnvOverrides, ModelMapping, ProviderEntry};
use aisetu::error::{ErrorKind, SetuError};
use aisetu::id::RequestId;
use aisetu::limits::ResourceLimits;
use aisetu::redact::{is_sensitive_key, redact_text, redacted};
use aisetu::shutdown::Shutdown;

fn default_config() -> AppConfig {
    AppConfig::load(ConfigFile::NotConfigured, &EnvOverrides::default()).unwrap()
}

#[test]
fn default_config_validates() {
    let cfg = default_config();
    cfg.validate().unwrap();
    assert!(!cfg.providers.is_empty());
    assert!(!cfg.models.is_empty());
    assert!(cfg.model("aisetu-default").is_some());
}

#[test]
fn unknown_provider_rejected() {
    let mut cfg = AppConfig::default();
    let mut p = ProviderEntry::default();
    p.name = "mock".to_string();
    p.kind = "mock".to_string();
    p.enabled = true;
    cfg.providers.push(p);
    let mut m = ModelMapping::default();
    m.id = "x".to_string();
    m.provider = "missing".to_string();
    cfg.models.push(m);
    let r = AppConfig::load(ConfigFile::Parsed(cfg), &EnvOverrides::default());
    assert!(r.is_err());
}

#[test]
fn env_overrides_apply() {
    let env = EnvOverrides {
        bind: Some("0.0.0.0".to_string()),
        port: Some("9090".to_string()),
        api_key: Some("k".to_string()),
        log_level: Some("debug".to_string()),
        log_format: Some("JSON".to_string()),
    };
    let cfg = AppConfig::load(ConfigFile::NotConfigured, &env).unwrap();
    assert_eq!(cfg.server.port, 9090);
    assert_eq!(cfg.server.bind, "0.0.0.0");
    assert_eq!(cfg.server.api_key.as_deref(), Some("k"));
    assert_eq!(cfg.log.level, "debug");
}

#[test]
fn zero_port_from_env_is_invalid() {
    let env = EnvOverrides { port: Some("0".to_string()), ..EnvOverrides::default() };
    let r = AppConfig::load(ConfigFile::NotConfigured, &env);
    assert!(matches!(r, Err(ConfigError::Invalid(_))));
}

#[test]
fn missing_file_is_reported() {
    let r = AppConfig::load(ConfigFile::Missing("nowhere.toml".to_string()), &EnvOverrides::default());
    match r {
        Err(ConfigError::Invalid(m)) => assert_eq!(m, "config file not found: nowhere.toml"),
        _ => panic!("expected an invalid-config error"),
    }
}

#[test]
fn kind_display_and_status() {
    assert_eq!(ErrorKind::Timeout.to_string(), "timeout");
    assert_eq!(ErrorKind::Timeout.http_status(), 504);
    assert!(ErrorKind::Timeout.is_retryable());
    assert!(!ErrorKind::InvalidRequest.is_retryable());
    assert_eq!(ErrorKind::RateLimited.openai_type(), "rate_limit_error");
}

#[test]
fn error_builder() {
    let err = SetuError::timeout("upstream timed out")
        .with_provider("mock")
        .with_request_id("req-1")
        .with_retry_after_ms(250);
    assert_eq!(err.kind, ErrorKind::Timeout);
    assert_eq!(err.provider.as_deref(), Some("mock"));
    assert_eq!(err.request_id.as_deref(), Some("req-1"));
    assert_eq!(err.retry_after_ms, Some(250));
    assert_eq!(err.client_message(), "upstream timed out");
}

#[test]
fn error_display() {
    let err = SetuError::not_found("no such model");
    assert_eq!(err.to_string(), "not_found: no such model");
}

#[test]
fn invalid_raw_falls_back() {
    assert!(RequestId::from_raw("").as_str().starts_with("req_"));
    assert!(RequestId::from_raw("hello world").as_str().starts_with("req_"));
    assert!(RequestId::from_raw("x\nheader").as_str().starts_with("req_"));
    assert!(RequestId::from_raw(&"x".repeat(129)).as_str().starts_with("req_"));
}

#[test]
fn acceptable_raw_is_kept() {
    assert_eq!(RequestId::from_raw("abc-123_x.y").as_str(), "abc-123_x.y");
    assert_eq!(RequestId::from_raw(&"x".repeat(128)).as_str(), "x".repeat(128));
}

#[test]
fn generates_unique_ids() {
    let a = RequestId::new();
    let b = RequestId::new();
    assert_ne!(a, b);
    assert!(a.as_str().starts_with("req_"));
}

#[test]
fn empty_raw_falls_back() {
    let id = RequestId::from_raw("");
    assert!(id.as_str().starts_with("req_"));
}

#[test]
fn default_is_valid() {
    ResourceLimits::default().validate().unwrap();
}

#[test]
fn zero_rejected() {
    let l = ResourceLimits { max_concurrent_requests: 0, ..ResourceLimits::default() };
    assert!(l.validate().is_err());
}

#[test]
fn zero_grace_rejected() {
    let l = ResourceLimits { shutdown_grace_ms: 0, ..ResourceLimits::default() };
    assert_eq!(l.validate().unwrap_err(), "shutdown_grace_ms must be > 0");
}

#[test]
fn client_message_hides_credentials() {
    let err = SetuError::internal("upstream rejected Authorization: Bearer sk-live-123");
    assert!(!err.client_message().contains("sk-live-123"));
    assert_eq!(err.client_message(), "upstream rejected Authorization: Bearer [REDACTED]");
}

#[test]
fn detects_sensitive_keys() {
    assert!(is_sensitive_key("Authorization"));
    assert!(is_sensitive_key("Set-Cookie"));
    assert!(is_sensitive_key("x-api-key"));
    assert!(!is_sensitive_key("content-type"));
    assert!(!is_sensitive_key("user-agent"));
}

#[test]
fn redacts_bearer() {
    let s = redact_text("Authorization: Bearer super-secret-token rest");
    assert!(s.contains(redacted()));
    assert!(!s.contains("super-secret-token"));
}

#[test]
fn trigger_is_visible() {
    let s = Shutdown::new();
    assert!(!s.is_triggered());
    s.trigger();
    assert!(s.is_triggered());
    let clone = s.clone();
    assert!(clone.is_triggered());
}

#[test]
fn parse_toml() {
    let mut cfg = AppConfig::default();
    cfg.server.bind = "0.0.0.0".to_string();
    cfg.server.port = 9090;
    cfg.log.level = "debug".to_string();
    let mut p = ProviderEntry::default();
    p.name = "mock".to_string();
    p.kind = "mock".to_string();
    p.enabled = true;
    cfg.providers.push(p);
    let mut m = ModelMapping::default();
    m.id = "gpt-aisetu".to_string();
    m.provider = "mock".to_string();
    cfg.models.push(m);
    let cfg = AppConfig::load(ConfigFile::Parsed(cfg), &EnvOverrides::default()).unwrap();
    assert_eq!(cfg.server.port, 9090);
    assert_eq!(cfg.server.bind, "0.0.0.0");
    assert_eq!(cfg.log.level, "debug");
    assert_eq!(cfg.models[0].id, "gpt-aisetu");
}

#[test]
fn provider_rules_are_name_and_kind() {
    let mut cfg = AppConfig::default();
    for _ in 0..2 {
        let mut p = ProviderEntry::default();
        p.name = "custom".to_string();
        p.kind = "custom".to_string();
        p.enabled = false;
        cfg.providers.push(p);
    }
    let mut m = ModelMapping::default();
    m.id = "m".to_string();
    m.provider = "custom".to_string();
    cfg.models.push(m);
    assert!(cfg.validate().is_ok());
    cfg.transport.tls_verify = false;
    assert!(cfg.validate().is_err());
    cfg.transport.allow_insecure_tls = true;
    assert!(cfg.validate().is_ok());
    cfg.models[0].provider = "missing".to_string();
    match cfg.validate() {
        Err(ConfigError::Invalid(msg)) => assert_eq!(msg, "model 'm' references unknown provider 'missing'"),
        _ => panic!("expected an invalid-config error"),
    }
}
