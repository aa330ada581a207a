//! Canonical error types used across every layer.

use vstd::prelude::*;

verus! {

/// High-level classification of a failure, independent of any provider.
#[derive(Debug, Clone, Copy, PartialEq, Eq, Hash, Structural)]
pub enum ErrorKind {
    Authentication,
    Authorization,
    RateLimited,
    Timeout,
    Network,
    InvalidRequest,
    ProviderFailure,
    SessionExpired,
    ParseFailure,
    NotFound,
    Conflict,
    Internal,
    Unavailable,
    Cancelled,
    ResourceExhausted,
    Configuration,
    Validation,
}

/// The three OpenAI error families a kind maps onto.
pub enum OpenAiFamily {
    InvalidRequestError,
    RateLimitError,
    ApiError,
}

/// Which OpenAI error family a kind belongs to.
pub open spec fn openai_family(k: ErrorKind) -> OpenAiFamily {
    match k {
        ErrorKind::Authentication | ErrorKind::Authorization | ErrorKind::SessionExpired
        | ErrorKind::InvalidRequest | ErrorKind::Validation | ErrorKind::NotFound
        | ErrorKind::Conflict => OpenAiFamily::InvalidRequestError,
        ErrorKind::RateLimited | ErrorKind::ResourceExhausted => OpenAiFamily::RateLimitError,
        _ => OpenAiFamily::ApiError,
    }
}

/// The OpenAI `type` string of a family.
pub open spec fn family_name(f: OpenAiFamily) -> Seq<char> {
    match f {
        OpenAiFamily::InvalidRequestError => "invalid_request_error"@,
        OpenAiFamily::RateLimitError => "rate_limit_error"@,
        OpenAiFamily::ApiError => "api_error"@,
    }
}

/// HTTP status returned to API clients for a kind.
pub open spec fn status_of(k: ErrorKind) -> u16 {
    match k {
        ErrorKind::Authentication | ErrorKind::Authorization | ErrorKind::SessionExpired => 401,
        ErrorKind::RateLimited | ErrorKind::ResourceExhausted => 429,
        ErrorKind::Timeout => 504,
        ErrorKind::Network | ErrorKind::Unavailable | ErrorKind::Cancelled => 503,
        ErrorKind::InvalidRequest | ErrorKind::Validation => 400,
        ErrorKind::NotFound => 404,
        ErrorKind::Conflict => 409,
        ErrorKind::ProviderFailure | ErrorKind::ParseFailure | ErrorKind::Internal
        | ErrorKind::Configuration => 500,
    }
}

/// Kinds a caller may reasonably retry.
pub open spec fn retryable(k: ErrorKind) -> bool {
    k == ErrorKind::Timeout || k == ErrorKind::Network || k == ErrorKind::RateLimited || k
        == ErrorKind::Unavailable || k == ErrorKind::ResourceExhausted
}

/// The snake_case name of a kind.
pub open spec fn kind_name(k: ErrorKind) -> Seq<char> {
    match k {
        ErrorKind::Authentication => "authentication"@,
        ErrorKind::Authorization => "authorization"@,
        ErrorKind::RateLimited => "rate_limited"@,
        ErrorKind::Timeout => "timeout"@,
        ErrorKind::Network => "network"@,
        ErrorKind::InvalidRequest => "invalid_request"@,
        ErrorKind::ProviderFailure => "provider_failure"@,
        ErrorKind::SessionExpired => "session_expired"@,
        ErrorKind::ParseFailure => "parse_failure"@,
        ErrorKind::NotFound => "not_found"@,
        ErrorKind::Conflict => "conflict"@,
        ErrorKind::Internal => "internal"@,
        ErrorKind::Unavailable => "unavailable"@,
        ErrorKind::Cancelled => "cancelled"@,
        ErrorKind::ResourceExhausted => "resource_exhausted"@,
        ErrorKind::Configuration => "configuration"@,
        ErrorKind::Validation => "validation"@,
    }
}

impl ErrorKind {
    /// OpenAI-compatible error `type` string.
    pub fn openai_type(self) -> (r: &'static str)
        ensures
            r@ == family_name(openai_family(self)),
    {
        match self {
            ErrorKind::Authentication | ErrorKind::Authorization | ErrorKind::SessionExpired => {
                "invalid_request_error"
            },
            ErrorKind::RateLimited | ErrorKind::ResourceExhausted => "rate_limit_error",
            ErrorKind::Timeout | ErrorKind::Network | ErrorKind::Unavailable
            | ErrorKind::Cancelled => "api_error",
            ErrorKind::InvalidRequest | ErrorKind::Validation | ErrorKind::NotFound
            | ErrorKind::Conflict => "invalid_request_error",
            ErrorKind::ProviderFailure | ErrorKind::ParseFailure | ErrorKind::Internal
            | ErrorKind::Configuration => "api_error",
        }
    }

    /// HTTP status code that should be returned to API clients.
    pub fn http_status(self) -> (r: u16)
        ensures
            r == status_of(self),
    {
        match self {
            ErrorKind::Authentication | ErrorKind::Authorization | ErrorKind::SessionExpired => 401,
            ErrorKind::RateLimited => 429,
            ErrorKind::Timeout => 504,
            ErrorKind::Network | ErrorKind::Unavailable | ErrorKind::Cancelled => 503,
            ErrorKind::InvalidRequest | ErrorKind::Validation => 400,
            ErrorKind::NotFound => 404,
            ErrorKind::Conflict => 409,
            ErrorKind::ResourceExhausted => 429,
            ErrorKind::ProviderFailure | ErrorKind::ParseFailure | ErrorKind::Internal
            | ErrorKind::Configuration => 500,
        }
    }

    /// Whether the caller may reasonably retry the operation.
    pub fn is_retryable(self) -> (r: bool)
        ensures
            r == retryable(self),
    {
        match self {
            ErrorKind::Timeout | ErrorKind::Network | ErrorKind::RateLimited
            | ErrorKind::Unavailable | ErrorKind::ResourceExhausted => true,
            _ => false,
        }
    }

    /// The snake_case name of the kind (its display form).
    pub fn as_str(self) -> (r: &'static str)
        ensures
            r@ == kind_name(self),
    {
        match self {
            ErrorKind::Authentication => "authentication",
            ErrorKind::Authorization => "authorization",
            ErrorKind::RateLimited => "rate_limited",
            ErrorKind::Timeout => "timeout",
            ErrorKind::Network => "network",
            ErrorKind::InvalidRequest => "invalid_request",
            ErrorKind::ProviderFailure => "provider_failure",
            ErrorKind::SessionExpired => "session_expired",
            ErrorKind::ParseFailure => "parse_failure",
            ErrorKind::NotFound => "not_found",
            ErrorKind::Conflict => "conflict",
            ErrorKind::Internal => "internal",
            ErrorKind::Unavailable => "unavailable",
            ErrorKind::Cancelled => "cancelled",
            ErrorKind::ResourceExhausted => "resource_exhausted",
            ErrorKind::Configuration => "configuration",
            ErrorKind::Validation => "validation",
        }
    }

    /// The display form of the kind as an owned string.
    pub fn to_string(self) -> (r: String)
        ensures
            r@ == kind_name(self),
    {
        String::from_str(self.as_str())
    }
}

/// Primary error type.
#[derive(Debug)]
pub struct SetuError {
    pub kind: ErrorKind,
    pub message: String,
    pub source_detail: Option<String>,
    pub request_id: Option<String>,
    pub retry_after_ms: Option<u64>,
    pub provider: Option<String>,
}

/// A copy of an optional string.
pub fn clone_opt_string(s: &Option<String>) -> (r: Option<String>)
    ensures
        r == *s,
{
    match s {
        Some(v) => Some(v.clone()),
        None => None,
    }
}

impl Clone for SetuError {
    fn clone(&self) -> (r: Self)
        ensures
            r == *self,
    {
        SetuError {
            kind: self.kind,
            message: self.message.clone(),
            source_detail: clone_opt_string(&self.source_detail),
            request_id: clone_opt_string(&self.request_id),
            retry_after_ms: self.retry_after_ms,
            provider: clone_opt_string(&self.provider),
        }
    }
}

/// Common `Result` type.
pub type Result<T> = std::result::Result<T, SetuError>;

/// An error of `kind` with `message` and no further detail.
pub open spec fn plain_error(e: SetuError, kind: ErrorKind, message: Seq<char>) -> bool {
    &&& e.kind == kind
    &&& e.message@ == message
    &&& e.source_detail is None
    &&& e.request_id is None
    &&& e.retry_after_ms is None
    &&& e.provider is None
}

/// `r` is `r0` with only `provider` replaced.
pub open spec fn same_but_provider(r: SetuError, r0: SetuError) -> bool {
    &&& r.kind == r0.kind
    &&& r.message == r0.message
    &&& r.source_detail == r0.source_detail
    &&& r.request_id == r0.request_id
    &&& r.retry_after_ms == r0.retry_after_ms
}

impl SetuError {
    pub fn new(kind: ErrorKind, message: &str) -> (e: Self)
        ensures
            plain_error(e, kind, message@),
    {
        SetuError {
            kind,
            message: String::from_str(message),
            source_detail: None,
            request_id: None,
            retry_after_ms: None,
            provider: None,
        }
    }

    /// An error of `kind` that takes ownership of an already built message.
    pub fn with_message(kind: ErrorKind, message: String) -> (e: Self)
        ensures
            plain_error(e, kind, message@),
    {
        SetuError {
            kind,
            message,
            source_detail: None,
            request_id: None,
            retry_after_ms: None,
            provider: None,
        }
    }

    pub fn with_source(self, detail: &str) -> (e: Self)
        ensures
            e == (SetuError { source_detail: e.source_detail, ..self }),
            e.source_detail matches Some(d) && d@ == detail@,
    {
        SetuError { source_detail: Some(String::from_str(detail)), ..self }
    }

    pub fn with_request_id(self, id: &str) -> (e: Self)
        ensures
            e == (SetuError { request_id: e.request_id, ..self }),
            e.request_id matches Some(d) && d@ == id@,
    {
        SetuError { request_id: Some(String::from_str(id)), ..self }
    }

    pub fn with_retry_after_ms(self, ms: u64) -> (e: Self)
        ensures
            e == (SetuError { retry_after_ms: Some(ms), ..self }),
    {
        SetuError { retry_after_ms: Some(ms), ..self }
    }

    pub fn with_provider(self, provider: &str) -> (e: Self)
        ensures
            e == (SetuError { provider: e.provider, ..self }),
            e.provider matches Some(d) && d@ == provider@,
    {
        SetuError { provider: Some(String::from_str(provider)), ..self }
    }

    pub fn authentication(message: &str) -> (e: Self)
        ensures
            plain_error(e, ErrorKind::Authentication, message@),
    {
        Self::new(ErrorKind::Authentication, message)
    }

    pub fn authorization(message: &str) -> (e: Self)
        ensures
            plain_error(e, ErrorKind::Authorization, message@),
    {
        Self::new(ErrorKind::Authorization, message)
    }

    pub fn rate_limited(message: &str) -> (e: Self)
        ensures
            plain_error(e, ErrorKind::RateLimited, message@),
    {
        Self::new(ErrorKind::RateLimited, message)
    }

    pub fn timeout(message: &str) -> (e: Self)
        ensures
            plain_error(e, ErrorKind::Timeout, message@),
    {
        Self::new(ErrorKind::Timeout, message)
    }

    pub fn network(message: &str) -> (e: Self)
        ensures
            plain_error(e, ErrorKind::Network, message@),
    {
        Self::new(ErrorKind::Network, message)
    }

    pub fn invalid_request(message: &str) -> (e: Self)
        ensures
            plain_error(e, ErrorKind::InvalidRequest, message@),
    {
        Self::new(ErrorKind::InvalidRequest, message)
    }

    pub fn provider_failure(message: &str) -> (e: Self)
        ensures
            plain_error(e, ErrorKind::ProviderFailure, message@),
    {
        Self::new(ErrorKind::ProviderFailure, message)
    }

    pub fn session_expired(message: &str) -> (e: Self)
        ensures
            plain_error(e, ErrorKind::SessionExpired, message@),
    {
        Self::new(ErrorKind::SessionExpired, message)
    }

    pub fn parse_failure(message: &str) -> (e: Self)
        ensures
            plain_error(e, ErrorKind::ParseFailure, message@),
    {
        Self::new(ErrorKind::ParseFailure, message)
    }

    pub fn not_found(message: &str) -> (e: Self)
        ensures
            plain_error(e, ErrorKind::NotFound, message@),
    {
        Self::new(ErrorKind::NotFound, message)
    }

    pub fn internal(message: &str) -> (e: Self)
        ensures
            plain_error(e, ErrorKind::Internal, message@),
    {
        Self::new(ErrorKind::Internal, message)
    }

    pub fn unavailable(message: &str) -> (e: Self)
        ensures
            plain_error(e, ErrorKind::Unavailable, message@),
    {
        Self::new(ErrorKind::Unavailable, message)
    }

    pub fn cancelled(message: &str) -> (e: Self)
        ensures
            plain_error(e, ErrorKind::Cancelled, message@),
    {
        Self::new(ErrorKind::Cancelled, message)
    }

    pub fn resource_exhausted(message: &str) -> (e: Self)
        ensures
            plain_error(e, ErrorKind::ResourceExhausted, message@),
    {
        Self::new(ErrorKind::ResourceExhausted, message)
    }

    pub fn configuration(message: &str) -> (e: Self)
        ensures
            plain_error(e, ErrorKind::Configuration, message@),
    {
        Self::new(ErrorKind::Configuration, message)
    }

    pub fn validation(message: &str) -> (e: Self)
        ensures
            plain_error(e, ErrorKind::Validation, message@),
    {
        Self::new(ErrorKind::Validation, message)
    }

    /// Safe message for API clients; never includes session/credential text:
    /// the message with likely secrets replaced (see `redact_text_spec`).
    pub fn client_message(&self) -> (r: String)
        ensures
            r@ == crate::redact::redact_text_spec(self.message@),
    {
        crate::redact::redact_text(self.message.as_str())
    }

    /// The display form `"{kind}: {message}"`.
    pub fn to_string(&self) -> (r: String)
        ensures
            r@ == kind_name(self.kind) + ": "@ + self.message@,
    {
        let mut s = self.kind.to_string();
        s.append(": ");
        s.append(self.message.as_str());
        s
    }
}

} // verus!
