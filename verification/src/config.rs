//! Configuration model, defaults, environment overrides and validation rules.
//!
//! Reading files, parsing TOML and reading the environment happen at the edge
//! of the program; this module receives their results as plain values.

use std::path::PathBuf;

use vstd::prelude::*;

use crate::error::SetuError;
use crate::limits::{limits_valid, ResourceLimits};
use crate::text::{is_blank, is_blank_str, lower, parse_u16_spec};

verus! {

#[verifier::external_type_specification]
#[verifier::external_body]
pub struct ExPathBuf(PathBuf);

/// What `url::Url::parse` makes of `raw`: `None` when the text is rejected,
/// otherwise the (lower-case) scheme of the URL and whether it has a host.
pub uninterp spec fn url_scheme_and_host(raw: Seq<char>) -> Option<(Seq<char>, bool)>;

/// Parses `raw` with `url::Url::parse` and reports the scheme and whether a
/// host is present. The claim: the result is the named function of the text,
/// and `None` exactly when the crate rejects it.
#[verifier::external_body]
pub(crate) fn parse_url(raw: &str) -> (r: Option<(String, bool)>)
    ensures
        match r {
            Some((scheme, host)) => url_scheme_and_host(raw@) == Some((scheme@, host)),
            None => url_scheme_and_host(raw@) is None,
        },
{
    match url::Url::parse(raw) {
        Ok(u) => Some((u.scheme().to_string(), u.host().is_some())),
        Err(_) => None,
    }
}

/// Where configuration was loaded from.
#[derive(Debug, PartialEq, Eq)]
pub enum ConfigSource {
    File(PathBuf),
    Defaults,
}

/// Configuration failures. Reading and parsing failures carry the path and
/// the underlying error's text.
#[derive(Debug)]
pub enum ConfigError {
    Io { path: String, detail: String },
    Parse { path: String, detail: String },
    Invalid(String),
}

impl ConfigError {
    /// The display form of the error.
    pub fn to_string(&self) -> (r: String)
        ensures
            match self {
                ConfigError::Io { path, detail } => r@ == "failed to read config file "@ + path@
                    + ": "@ + detail@,
                ConfigError::Parse { path, detail } => r@ == "failed to parse config file "@
                    + path@ + ": "@ + detail@,
                ConfigError::Invalid(m) => r@ == "invalid configuration: "@ + m@,
            },
    {
        match self {
            ConfigError::Io { path, detail } => {
                let mut s = String::from_str("failed to read config file ");
                s.append(path.as_str());
                s.append(": ");
                s.append(detail.as_str());
                s
            },
            ConfigError::Parse { path, detail } => {
                let mut s = String::from_str("failed to parse config file ");
                s.append(path.as_str());
                s.append(": ");
                s.append(detail.as_str());
                s
            },
            ConfigError::Invalid(m) => {
                let mut s = String::from_str("invalid configuration: ");
                s.append(m.as_str());
                s
            },
        }
    }

    /// The canonical error: a configuration error carrying the display text.
    pub fn into_setu(self) -> (e: SetuError)
        ensures
            e.kind == crate::error::ErrorKind::Configuration,
            e.provider is None,
    {
        let m = self.to_string();
        SetuError::with_message(crate::error::ErrorKind::Configuration, m)
    }
}

#[derive(Debug, Clone, Copy, PartialEq, Eq, Structural)]
pub enum LogFormat {
    Pretty,
    Json,
}

impl Default for LogFormat {
    fn default() -> (r: Self)
        ensures
            r == LogFormat::Pretty,
    {
        LogFormat::Pretty
    }
}

#[derive(Debug)]
pub struct LogConfig {
    pub level: String,
    pub format: LogFormat,
}

impl Default for LogConfig {
    fn default() -> (r: Self)
        ensures
            r.level@ == "info"@,
            r.format == LogFormat::Pretty,
    {
        LogConfig { level: String::from_str("info"), format: LogFormat::Pretty }
    }
}

#[derive(Debug)]
pub struct ServerConfig {
    pub bind: String,
    pub port: u16,
    /// Optional API key required in `Authorization: Bearer`. Empty disables auth.
    pub api_key: Option<String>,
}

impl Default for ServerConfig {
    fn default() -> (r: Self)
        ensures
            r.bind@ == "127.0.0.1"@,
            r.port == 8080,
            r.api_key is None,
    {
        ServerConfig { bind: String::from_str("127.0.0.1"), port: 8080, api_key: None }
    }
}

impl ServerConfig {
    /// `"{bind}:{port}"`.
    pub fn listen_addr(&self) -> (r: String)
        ensures
            r@ == self.bind@ + ":"@ + crate::text::decimal(self.port as nat),
    {
        let mut s = self.bind.clone();
        s.append(":");
        let p = crate::text::decimal_string(self.port as u64);
        s.append(p.as_str());
        s
    }
}

/// Product name.
pub const PRODUCT: &'static str = "AISetu";

/// Library version.
pub const VERSION: &'static str = "0.1.0";

#[derive(Debug)]
pub struct TransportConfig {
    pub timeout_ms: u64,
    pub connect_timeout_ms: u64,
    pub tls_verify: bool,
    pub user_agent: String,
    pub max_redirects: usize,
    /// Permit disabling TLS certificate verification. This must be explicitly enabled.
    pub allow_insecure_tls: bool,
}

impl Default for TransportConfig {
    fn default() -> (r: Self)
        ensures
            r.timeout_ms == 60_000,
            r.connect_timeout_ms == 10_000,
            r.tls_verify,
            r.user_agent@ == "AISetu/"@ + VERSION@,
            r.max_redirects == 5,
            !r.allow_insecure_tls,
    {
        let mut ua = String::from_str("AISetu/");
        ua.append(VERSION);
        TransportConfig {
            timeout_ms: 60_000,
            connect_timeout_ms: 10_000,
            tls_verify: true,
            user_agent: ua,
            max_redirects: 5,
            allow_insecure_tls: false,
        }
    }
}

#[derive(Debug)]
pub struct ProviderEntry {
    pub name: String,
    pub kind: String,
    pub base_url: Option<String>,
    pub model: Option<String>,
    pub enabled: bool,
}

impl Default for ProviderEntry {
    fn default() -> (r: Self)
        ensures
            r.name@.len() == 0,
            r.kind@.len() == 0,
            r.base_url is None,
            r.model is None,
            !r.enabled,
    {
        ProviderEntry {
            name: String::new(),
            kind: String::new(),
            base_url: None,
            model: None,
            enabled: false,
        }
    }
}

#[derive(Debug)]
pub struct ModelMapping {
    /// Name exposed on `/v1/models` and accepted in chat completions.
    pub id: String,
    /// Provider name from `providers`.
    pub provider: String,
    /// Optional provider-native model identifier.
    pub upstream_model: Option<String>,
}

impl Default for ModelMapping {
    fn default() -> (r: Self)
        ensures
            r.id@ == "aisetu-default"@,
            r.provider@ == "mock"@,
            r.upstream_model is None,
    {
        ModelMapping {
            id: String::from_str("aisetu-default"),
            provider: String::from_str("mock"),
            upstream_model: None,
        }
    }
}

#[derive(Debug)]
pub struct StorageConfig {
    /// Directory for non-secret runtime state.
    pub data_dir: Option<PathBuf>,
    /// Directory for permission-protected secret files; contents are not encrypted by this store.
    pub secrets_dir: Option<PathBuf>,
}

impl Default for StorageConfig {
    fn default() -> (r: Self)
        ensures
            r.data_dir is None,
            r.secrets_dir is None,
    {
        StorageConfig { data_dir: None, secrets_dir: None }
    }
}

/// Root application configuration.
#[derive(Debug)]
pub struct AppConfig {
    pub server: ServerConfig,
    pub log: LogConfig,
    pub transport: TransportConfig,
    pub limits: ResourceLimits,
    pub providers: Vec<ProviderEntry>,
    pub models: Vec<ModelMapping>,
    pub storage: StorageConfig,
    pub source: Option<String>,
}

/// The default configuration: every section at its default, no providers,
/// no models, no source.
pub open spec fn is_default_config(c: AppConfig) -> bool {
    &&& c.server.bind@ == "127.0.0.1"@
    &&& c.server.port == 8080
    &&& c.server.api_key is None
    &&& c.log.level@ == "info"@
    &&& c.log.format == LogFormat::Pretty
    &&& c.transport.timeout_ms == 60_000
    &&& c.transport.connect_timeout_ms == 10_000
    &&& c.transport.tls_verify
    &&& c.transport.user_agent@ == "AISetu/"@ + VERSION@
    &&& c.transport.max_redirects == 5
    &&& !c.transport.allow_insecure_tls
    &&& c.limits == crate::limits::default_limits()
    &&& c.providers@.len() == 0
    &&& c.models@.len() == 0
    &&& c.storage.data_dir is None
    &&& c.storage.secrets_dir is None
    &&& c.source is None
}

impl Default for AppConfig {
    fn default() -> (r: Self)
        ensures
            is_default_config(r),
    {
        AppConfig {
            server: ServerConfig::default(),
            log: LogConfig::default(),
            transport: TransportConfig::default(),
            limits: ResourceLimits::default(),
            providers: Vec::new(),
            models: Vec::new(),
            storage: StorageConfig::default(),
            source: None,
        }
    }
}

/// Environment overrides, as read by the caller (`AISETU_BIND`, `AISETU_PORT`,
/// `AISETU_API_KEY`, `AISETU_LOG_LEVEL`, `AISETU_LOG_FORMAT`).
#[derive(Debug, Default)]
pub struct EnvOverrides {
    pub bind: Option<String>,
    pub port: Option<String>,
    pub api_key: Option<String>,
    pub log_level: Option<String>,
    pub log_format: Option<String>,
}

/// `e` sets no variable.
pub open spec fn no_overrides(e: EnvOverrides) -> bool {
    &&& e.bind is None
    &&& e.port is None
    &&& e.api_key is None
    &&& e.log_level is None
    &&& e.log_format is None
}

/// The rules each provider entry must meet on its own: a name and a kind.
pub open spec fn provider_entry_ok(p: ProviderEntry) -> bool {
    &&& !is_blank(p.name@)
    &&& !is_blank(p.kind@)
}

/// Some provider is named `name`.
pub open spec fn names_provider(ps: Seq<ProviderEntry>, name: Seq<char>) -> bool {
    exists|i: int| 0 <= i < ps.len() && #[trigger] ps[i].name@ == name
}

/// The rules each model mapping must meet against the providers: an id,
/// and a provider that exists.
pub open spec fn model_mapping_ok(m: ModelMapping, ps: Seq<ProviderEntry>) -> bool {
    &&& !is_blank(m.id@)
    &&& names_provider(ps, m.provider@)
}

/// The validation rules of a configuration: valid limits, a port, a bind
/// address and a timeout; TLS verification off only where insecure TLS is
/// explicitly allowed; providers with names and kinds; models with ids that
/// name existing providers.
pub open spec fn config_valid(c: AppConfig) -> bool {
    &&& limits_valid(c.limits)
    &&& c.server.port != 0
    &&& !is_blank(c.server.bind@)
    &&& c.transport.timeout_ms != 0
    &&& (c.transport.tls_verify || c.transport.allow_insecure_tls)
    &&& forall|i: int| 0 <= i < c.providers@.len() ==> provider_entry_ok(#[trigger] c.providers@[i])
    &&& forall|i: int|
        0 <= i < c.models@.len() ==> model_mapping_ok(#[trigger] c.models@[i], c.providers@)
}

/// `p` is an enabled provider entry with the given name, kind and model and
/// no base URL.
pub open spec fn builtin_entry(p: ProviderEntry, name: Seq<char>, model: Seq<char>) -> bool {
    &&& p.name@ == name
    &&& p.kind@ == name
    &&& p.base_url is None
    &&& p.model matches Some(m) && m@ == model
    &&& p.enabled
}

/// `m` maps `id` to `provider` with the given upstream model.
pub open spec fn mapping_is(
    m: ModelMapping,
    id: Seq<char>,
    provider: Seq<char>,
    upstream: Seq<char>,
) -> bool {
    &&& m.id@ == id
    &&& m.provider@ == provider
    &&& m.upstream_model matches Some(u) && u@ == upstream
}

/// The providers after defaults are ensured: unchanged when some were
/// configured, otherwise the built-in `mock` and `echo` providers.
pub open spec fn providers_defaulted(before: Seq<ProviderEntry>, after: Seq<ProviderEntry>) -> bool {
    if before.len() == 0 {
        &&& after.len() == 2
        &&& builtin_entry(after[0], "mock"@, "mock-text"@)
        &&& builtin_entry(after[1], "echo"@, "echo-text"@)
    } else {
        after == before
    }
}

/// The models after defaults are ensured: unchanged when some were
/// configured, otherwise `aisetu-default` on `mock` and `aisetu-echo` on `echo`.
pub open spec fn models_defaulted(before: Seq<ModelMapping>, after: Seq<ModelMapping>) -> bool {
    if before.len() == 0 {
        &&& after.len() == 2
        &&& mapping_is(after[0], "aisetu-default"@, "mock"@, "mock-text"@)
        &&& mapping_is(after[1], "aisetu-echo"@, "echo"@, "echo-text"@)
    } else {
        after == before
    }
}

/// The log format an `AISETU_LOG_FORMAT` value selects.
pub open spec fn log_format_named(v: Seq<char>) -> LogFormat {
    if lower(v) == lower("json"@) {
        LogFormat::Json
    } else {
        LogFormat::Pretty
    }
}

/// `after` is `before` with the environment overrides applied; all other
/// fields are unchanged.
pub open spec fn overrides_applied(before: AppConfig, env: EnvOverrides, after: AppConfig) -> bool {
    &&& after.server.bind == (match env.bind {
        Some(v) => v,
        None => before.server.bind,
    })
    &&& after.server.port == (match env.port {
        Some(v) => match parse_u16_spec(v@) {
            Some(p) => p,
            None => before.server.port,
        },
        None => before.server.port,
    })
    &&& after.server.api_key == (match env.api_key {
        Some(v) => if v@.len() > 0 {
            Some(v)
        } else {
            before.server.api_key
        },
        None => before.server.api_key,
    })
    &&& after.log.level == (match env.log_level {
        Some(v) => v,
        None => before.log.level,
    })
    &&& after.log.format == (match env.log_format {
        Some(v) => log_format_named(v@),
        None => before.log.format,
    })
    &&& after.transport == before.transport
    &&& after.limits == before.limits
    &&& after.providers@ == before.providers@
    &&& after.models@ == before.models@
    &&& after.storage == before.storage
    &&& after.source == before.source
}

/// `after` is `before` with defaults ensured; all other fields are unchanged.
pub open spec fn defaults_ensured(before: AppConfig, after: AppConfig) -> bool {
    &&& after.server == before.server
    &&& after.log == before.log
    &&& after.transport == before.transport
    &&& after.limits == before.limits
    &&& providers_defaulted(before.providers@, after.providers@)
    &&& models_defaulted(before.models@, after.models@)
    &&& after.storage == before.storage
    &&& after.source == before.source
}

/// `out` is `base` with the environment applied and defaults ensured.
pub open spec fn prepared(base: AppConfig, env: EnvOverrides, out: AppConfig) -> bool {
    exists|mid: AppConfig| overrides_applied(base, env, mid) && defaults_ensured(mid, out)
}

/// What was found when looking for a configuration file.
#[derive(Debug)]
pub enum ConfigFile {
    /// A file was found and parsed.
    Parsed(AppConfig),
    /// A file was named explicitly but does not exist; carries its path.
    Missing(String),
    /// A file was found but could not be read or parsed.
    Failed(ConfigError),
    /// No file was named and none was discovered.
    NotConfigured,
}

fn builtin_provider(name: &str, model: &str) -> (p: ProviderEntry)
    ensures
        builtin_entry(p, name@, model@),
{
    ProviderEntry {
        name: String::from_str(name),
        kind: String::from_str(name),
        base_url: None,
        model: Some(String::from_str(model)),
        enabled: true,
    }
}

fn mapping(id: &str, provider: &str, upstream: &str) -> (m: ModelMapping)
    ensures
        mapping_is(m, id@, provider@, upstream@),
{
    ModelMapping {
        id: String::from_str(id),
        provider: String::from_str(provider),
        upstream_model: Some(String::from_str(upstream)),
    }
}

fn invalid(message: String) -> (r: Result<(), ConfigError>)
    ensures
        r matches Err(ConfigError::Invalid(m)) && m@ == message@,
{
    Err(ConfigError::Invalid(message))
}

fn msg2(a: &str, b: &str) -> (r: String)
    ensures
        r@ == a@ + b@,
{
    let mut s = String::from_str(a);
    s.append(b);
    s
}

fn msg4(a: &str, b: &str, c: &str, d: &str) -> (r: String)
    ensures
        r@ == a@ + b@ + c@ + d@,
{
    let mut s = String::from_str(a);
    s.append(b);
    s.append(c);
    s.append(d);
    s
}

impl AppConfig {
    /// Apply the environment overrides.
    pub fn apply_env_overrides(&mut self, env: &EnvOverrides)
        ensures
            overrides_applied(*old(self), *env, *final(self)),
    {
        if let Some(v) = &env.bind {
            self.server.bind = v.clone();
        }
        if let Some(v) = &env.port {
            if let Some(p) = crate::text::parse_u16(v.as_str()) {
                self.server.port = p;
            }
        }
        if let Some(v) = &env.api_key {
            if v.unicode_len() > 0 {
                self.server.api_key = Some(v.clone());
            }
        }
        if let Some(v) = &env.log_level {
            self.log.level = v.clone();
        }
        if let Some(v) = &env.log_format {
            if crate::text::eq_ignore_ascii_case(v.as_str(), "json") {
                self.log.format = LogFormat::Json;
            } else {
                self.log.format = LogFormat::Pretty;
            }
        }
    }

    /// Add the built-in providers and models when none are configured.
    pub fn ensure_defaults(&mut self)
        ensures
            defaults_ensured(*old(self), *final(self)),
    {
        if self.providers.len() == 0 {
            self.providers.push(builtin_provider("mock", "mock-text"));
            self.providers.push(builtin_provider("echo", "echo-text"));
        }
        if self.models.len() == 0 {
            self.models.push(mapping("aisetu-default", "mock", "mock-text"));
            self.models.push(mapping("aisetu-echo", "echo", "echo-text"));
        }
    }

    /// Finish loading: choose the parsed file or the defaults, apply the
    /// environment, ensure defaults and validate.
    pub fn load(file: ConfigFile, env: &EnvOverrides) -> (r: Result<AppConfig, ConfigError>)
        ensures
            file matches ConfigFile::Missing(p) ==> r matches Err(ConfigError::Invalid(m)) && m@
                == "config file not found: "@ + p@,
            file matches ConfigFile::Failed(e) ==> r == Err::<AppConfig, ConfigError>(e),
            file matches ConfigFile::Parsed(base) ==> {
                &&& r matches Ok(c) ==> prepared(base, *env, c) && config_valid(c)
                &&& r matches Err(e) ==> e is Invalid && exists|out: AppConfig|
                    prepared(base, *env, out) && !config_valid(out)
            },
            file is NotConfigured ==> {
                &&& r matches Ok(c) ==> exists|base: AppConfig|
                    is_default_config(base) && prepared(base, *env, c) && config_valid(c)
                &&& r matches Err(e) ==> e is Invalid && exists|base: AppConfig, out: AppConfig|
                    is_default_config(base) && prepared(base, *env, out) && !config_valid(out)
            },
    {
        let ghost f = file;
        let mut cfg = match file {
            ConfigFile::Parsed(c) => c,
            ConfigFile::Missing(p) => {
                let mut m = String::from_str("config file not found: ");
                m.append(p.as_str());
                return Err(ConfigError::Invalid(m));
            },
            ConfigFile::Failed(e) => {
                return Err(e);
            },
            ConfigFile::NotConfigured => AppConfig::default(),
        };
        let ghost base = cfg;
        cfg.apply_env_overrides(env);
        let ghost mid = cfg;
        cfg.ensure_defaults();
        proof {
            assert(overrides_applied(base, *env, mid) && defaults_ensured(mid, cfg));
            assert(prepared(base, *env, cfg));
            if f is NotConfigured {
                assert(is_default_config(base));
            }
        }
        match cfg.validate() {
            Ok(()) => Ok(cfg),
            Err(e) => {
                proof {
                    if f is NotConfigured {
                        assert(is_default_config(base) && prepared(base, *env, cfg) && !config_valid(cfg));
                    }
                }
                Err(e)
            },
        }
    }

    /// Check every configuration rule (see `config_valid`).
    pub fn validate(&self) -> (r: Result<(), ConfigError>)
        ensures
            r is Ok <==> config_valid(*self),
            r matches Err(e) ==> e is Invalid,
    {
        if let Err(m) = self.limits.validate() {
            return Err(ConfigError::Invalid(m));
        }
        if self.server.port == 0 {
            return invalid(String::from_str("server.port must be > 0"));
        }
        if is_blank_str(self.server.bind.as_str()) {
            return invalid(String::from_str("server.bind must not be empty"));
        }
        if self.transport.timeout_ms == 0 {
            return invalid(String::from_str("transport.timeout_ms must be > 0"));
        }
        if !self.transport.tls_verify && !self.transport.allow_insecure_tls {
            return invalid(String::from_str("tls_verify=false requires allow_insecure_tls=true"));
        }
        let ps = &self.providers;
        let mut i: usize = 0;
        while i < ps.len()
            invariant
                ps@ == self.providers@,
                i <= ps@.len(),
                forall|k: int| 0 <= k < i ==> provider_entry_ok(#[trigger] ps@[k]),
            decreases ps.len() - i,
        {
            let p = &ps[i];
            if is_blank_str(p.name.as_str()) {
                return invalid(String::from_str("provider name must not be empty"));
            }
            if is_blank_str(p.kind.as_str()) {
                return invalid(msg4("provider '", p.name.as_str(), "'", " kind must not be empty"));
            }
            i = i + 1;
        }
        let ms = &self.models;
        let mut i: usize = 0;
        while i < ms.len()
            invariant
                ps@ == self.providers@,
                ms@ == self.models@,
                i <= ms@.len(),
                forall|k: int| 0 <= k < i ==> model_mapping_ok(#[trigger] ms@[k], ps@),
            decreases ms.len() - i,
        {
            let m = &ms[i];
            if is_blank_str(m.id.as_str()) {
                return invalid(String::from_str("model id must not be empty"));
            }
            if !has_provider(m, ps) {
                let mut t = msg4("model '", m.id.as_str(), "' references unknown provider '", m.provider.as_str());
                t.append("'");
                return invalid(t);
            }
            i = i + 1;
        }
        Ok(())
    }

    /// The first provider entry named `name`.
    pub fn provider(&self, name: &str) -> (r: Option<&ProviderEntry>)
        ensures
            match r {
                Some(p) => exists|i: int|
                    0 <= i < self.providers@.len() && self.providers@[i] == *p && p.name@ == name@
                        && forall|j: int|
                        0 <= j < i ==> #[trigger] self.providers@[j].name@ != name@,
                None => !names_provider(self.providers@, name@),
            },
    {
        let mut i: usize = 0;
        while i < self.providers.len()
            invariant
                i <= self.providers@.len(),
                forall|j: int| 0 <= j < i ==> #[trigger] self.providers@[j].name@ != name@,
            decreases self.providers.len() - i,
        {
            if crate::text::str_eq(self.providers[i].name.as_str(), name) {
                return Some(&self.providers[i]);
            }
            i = i + 1;
        }
        None
    }

    /// The first model mapping with id `id`.
    pub fn model(&self, id: &str) -> (r: Option<&ModelMapping>)
        ensures
            match r {
                Some(m) => exists|i: int|
                    0 <= i < self.models@.len() && self.models@[i] == *m && m.id@ == id@
                        && forall|j: int| 0 <= j < i ==> #[trigger] self.models@[j].id@ != id@,
                None => forall|i: int| 0 <= i < self.models@.len() ==> #[trigger] self.models@[i].id@ != id@,
            },
    {
        let mut i: usize = 0;
        while i < self.models.len()
            invariant
                i <= self.models@.len(),
                forall|j: int| 0 <= j < i ==> #[trigger] self.models@[j].id@ != id@,
            decreases self.models.len() - i,
        {
            if crate::text::str_eq(self.models[i].id.as_str(), id) {
                return Some(&self.models[i]);
            }
            i = i + 1;
        }
        None
    }
}

fn has_provider(m: &ModelMapping, ps: &Vec<ProviderEntry>) -> (r: bool)
    ensures
        r == names_provider(ps@, m.provider@),
{
    let mut i: usize = 0;
    while i < ps.len()
        invariant
            i <= ps@.len(),
            forall|k: int| 0 <= k < i ==> #[trigger] ps@[k].name@ != m.provider@,
        decreases ps.len() - i,
    {
        if ps[i].name == m.provider {
            return true;
        }
        i = i + 1;
    }
    false
}

} // verus!
