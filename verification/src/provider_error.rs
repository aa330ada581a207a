//! Normalization of provider failures into canonical errors.

use vstd::prelude::*;

use crate::error::{ErrorKind, SetuError};
use crate::json::{json_get, json_parse, Json, JsonValue};
use crate::text::{all_digits, contains_seq, decimal, digits_value, lower, trim};

verus! {

/// Intermediate provider error before API mapping.
#[derive(Debug)]
pub struct CanonicalProviderError {
    pub kind: ErrorKind,
    pub message: String,
    pub provider: String,
    pub status: Option<u16>,
}

impl CanonicalProviderError {
    /// The canonical error: kind, message and provider, with the HTTP status
    /// as its source when there is one.
    pub fn into_setu(self) -> (e: SetuError)
        ensures
            e.kind == self.kind,
            e.message@ == self.message@,
            e.provider matches Some(p) && p@ == self.provider@,
            e.request_id is None,
            e.retry_after_ms is None,
            match self.status {
                Some(s) => e.source_detail matches Some(d) && d@ == "http status "@ + decimal(s as nat),
                None => e.source_detail is None,
            },
    {
        let mut err = SetuError::with_message(self.kind, self.message).with_provider(
            self.provider.as_str(),
        );
        if let Some(status) = self.status {
            let mut src = String::from_str("http status ");
            src.append(crate::text::decimal_string(status as u64).as_str());
            err = err.with_source(src.as_str());
        }
        err
    }
}

/// What the normalization reads of an HTTP reply that is not a successful
/// conversation payload.
#[derive(Debug)]
pub struct HttpReply {
    pub status: u16,
    /// The body as text; empty when it is not valid UTF-8.
    pub body: String,
    /// The value of the `retry-after` header, if present.
    pub retry_after: Option<String>,
}

/// A 4xx status.
pub open spec fn client_error(status: u16) -> bool {
    400 <= status <= 499
}

/// The body mentions a session, an expiry or a login (ASCII case ignored).
pub open spec fn session_hint(body: Seq<char>) -> bool {
    let l = lower(body);
    contains_seq(l, "session"@) || contains_seq(l, "expired"@) || contains_seq(l, "login"@)
}

/// The kind of failure an HTTP status (and, for 401/403, the body) denotes.
pub open spec fn http_error_kind(status: u16, body: Seq<char>) -> ErrorKind {
    if status == 401 || status == 403 {
        if session_hint(body) {
            ErrorKind::SessionExpired
        } else {
            ErrorKind::Authentication
        }
    } else if status == 408 || status == 504 {
        ErrorKind::Timeout
    } else if status == 409 {
        ErrorKind::Conflict
    } else if status == 413 {
        ErrorKind::ResourceExhausted
    } else if status == 422 || status == 400 {
        ErrorKind::InvalidRequest
    } else if status == 429 {
        ErrorKind::RateLimited
    } else if status == 404 {
        ErrorKind::NotFound
    } else if 500 <= status <= 599 {
        ErrorKind::ProviderFailure
    } else if client_error(status) {
        ErrorKind::InvalidRequest
    } else {
        ErrorKind::ProviderFailure
    }
}

/// The non-empty string at `a`, or at `a.b` when `b` is given.
pub open spec fn message_at(v: Json, a: Seq<char>, b: Option<Seq<char>>) -> Option<Seq<char>> {
    let found = match json_get(v, a) {
        Some(x) => match b {
            Some(k) => json_get(x, k),
            None => Some(x),
        },
        None => None,
    };
    match found {
        Some(Json::Str(s)) => if s.len() > 0 {
            Some(s)
        } else {
            None
        },
        _ => None,
    }
}

/// The message a JSON error body carries, looked for at `error.message`,
/// `error.msg`, `message`, `detail` and `error`, in that order.
pub open spec fn json_error_message(v: Json) -> Option<Seq<char>> {
    if message_at(v, "error"@, Some("message"@)) is Some {
        message_at(v, "error"@, Some("message"@))
    } else if message_at(v, "error"@, Some("msg"@)) is Some {
        message_at(v, "error"@, Some("msg"@))
    } else if message_at(v, "message"@, None) is Some {
        message_at(v, "message"@, None)
    } else if message_at(v, "detail"@, None) is Some {
        message_at(v, "detail"@, None)
    } else {
        message_at(v, "error"@, None)
    }
}

/// The message of an HTTP error: from the JSON body when it has one; else
/// the trimmed body when it is non-empty and shorter than 300 bytes; else
/// `provider returned HTTP <status>`.
pub open spec fn http_error_message(status: u16, body: Seq<char>) -> Seq<char> {
    let from_json = match json_parse(body) {
        Some(v) => json_error_message(v),
        None => None,
    };
    match from_json {
        Some(m) => m,
        None => {
            let t = trim(body);
            if t.len() > 0 && vstd::utf8::encode_utf8(t).len() < 300 {
                t
            } else {
                "provider returned HTTP "@ + decimal(status as nat)
            }
        },
    }
}

/// The value of an unsigned decimal integer text as `u64::from_str` reads
/// it: an optional `+`, then one or more digits, within 64 bits.
pub open spec fn parse_u64_spec(s: Seq<char>) -> Option<u64> {
    let d = if s.len() > 0 && s[0] == '+' {
        s.drop_first()
    } else {
        s
    };
    if d.len() > 0 && all_digits(d) && digits_value(d) <= u64::MAX {
        Some(digits_value(d) as u64)
    } else {
        None
    }
}

/// Whole seconds as milliseconds, saturating at `u64::MAX`.
pub open spec fn seconds_to_ms(secs: u64) -> u64 {
    if secs * 1000 > u64::MAX {
        u64::MAX
    } else {
        (secs * 1000) as u64
    }
}

/// The retry delay a rate-limited reply asks for, in milliseconds.
pub open spec fn retry_after_spec(raw: Option<String>) -> Option<u64> {
    match raw {
        Some(r) => match parse_u64_spec(r@) {
            Some(secs) => Some(seconds_to_ms(secs)),
            None => None,
        },
        None => None,
    }
}

/// Read an unsigned integer the way `u64::from_str` does.
pub fn parse_u64(s: &str) -> (r: Option<u64>)
    ensures
        r == parse_u64_spec(s@),
{
    let v = crate::text::chars_of(s);
    if v.len() > 0 && v[0] == '+' {
        let rest = crate::text::string_of_range(&v, 1, v.len());
        assert(rest@ =~= s@.drop_first());
        crate::json::parse_digits_u64(rest.as_str())
    } else {
        crate::json::parse_digits_u64(s)
    }
}

/// The delay from a `retry-after` value given in whole seconds.
pub fn parse_retry_after(raw: &Option<String>) -> (r: Option<u64>)
    ensures
        r == retry_after_spec(*raw),
{
    match raw {
        Some(text) => match parse_u64(text.as_str()) {
            Some(secs) => Some(
                match secs.checked_mul(1000) {
                    Some(ms) => ms,
                    None => u64::MAX,
                },
            ),
            None => None,
        },
        None => None,
    }
}

/// Whether the body hints at an expired session.
pub fn looks_like_session(body: &str) -> (r: bool)
    ensures
        r == session_hint(body@),
{
    let l = crate::text::to_lower(body);
    crate::text::contains_str(l.as_str(), "session") || crate::text::contains_str(l.as_str(), "expired")
        || crate::text::contains_str(l.as_str(), "login")
}

/// The kind of failure for `status` (see `http_error_kind`).
pub fn error_kind_for(status: u16, body: &str) -> (k: ErrorKind)
    ensures
        k == http_error_kind(status, body@),
{
    if status == 401 || status == 403 {
        if looks_like_session(body) {
            ErrorKind::SessionExpired
        } else {
            ErrorKind::Authentication
        }
    } else if status == 408 || status == 504 {
        ErrorKind::Timeout
    } else if status == 409 {
        ErrorKind::Conflict
    } else if status == 413 {
        ErrorKind::ResourceExhausted
    } else if status == 422 || status == 400 {
        ErrorKind::InvalidRequest
    } else if status == 429 {
        ErrorKind::RateLimited
    } else if status == 404 {
        ErrorKind::NotFound
    } else if 500 <= status && status <= 599 {
        ErrorKind::ProviderFailure
    } else if 400 <= status && status <= 499 {
        ErrorKind::InvalidRequest
    } else {
        ErrorKind::ProviderFailure
    }
}

fn message_at_exec(v: &JsonValue, a: &str, b: Option<&str>) -> (r: Option<String>)
    ensures
        match message_at(v@, a@, match b {
            Some(k) => Some(k@),
            None => None,
        }) {
            Some(m) => r matches Some(s) && s@ == m,
            None => r is None,
        },
{
    let found = match v.get(a) {
        Some(x) => match b {
            Some(k) => x.get(k),
            None => Some(x),
        },
        None => None,
    };
    match found {
        Some(x) => match x.as_str() {
            Some(s) => if s.unicode_len() > 0 {
                Some(String::from_str(s))
            } else {
                None
            },
            None => None,
        },
        None => None,
    }
}

/// The message a JSON error body carries (see `json_error_message`).
pub fn json_error_message_of(v: &JsonValue) -> (r: Option<String>)
    ensures
        match json_error_message(v@) {
            Some(m) => r matches Some(s) && s@ == m,
            None => r is None,
        },
{
    if let Some(m) = message_at_exec(v, "error", Some("message")) {
        return Some(m);
    }
    if let Some(m) = message_at_exec(v, "error", Some("msg")) {
        return Some(m);
    }
    if let Some(m) = message_at_exec(v, "message", None) {
        return Some(m);
    }
    if let Some(m) = message_at_exec(v, "detail", None) {
        return Some(m);
    }
    message_at_exec(v, "error", None)
}

/// The message of an HTTP error (see `http_error_message`).
pub fn extract_message(status: u16, body: &str) -> (r: String)
    ensures
        r@ == http_error_message(status, body@),
{
    if let Some(v) = crate::json::parse_json(body) {
        if let Some(m) = json_error_message_of(&v) {
            return m;
        }
    }
    let trimmed = crate::text::trim_str(body);
    if trimmed.unicode_len() > 0 && trimmed.as_str().as_bytes().len() < 300 {
        trimmed
    } else {
        let mut m = String::from_str("provider returned HTTP ");
        m.append(crate::text::decimal_string(status as u64).as_str());
        m
    }
}

/// The canonical error for a failed HTTP reply: the kind of its status, its
/// message, the provider, `http <status>` as source, and for a rate limit
/// the delay the reply asks for.
pub fn normalize_http_error(provider: &str, reply: &HttpReply) -> (e: SetuError)
    ensures
        e.kind == http_error_kind(reply.status, reply.body@),
        e.message@ == http_error_message(reply.status, reply.body@),
        e.provider matches Some(p) && p@ == provider@,
        e.source_detail matches Some(d) && d@ == "http "@ + decimal(reply.status as nat),
        e.request_id is None,
        e.retry_after_ms == (if e.kind == ErrorKind::RateLimited {
            retry_after_spec(reply.retry_after)
        } else {
            None
        }),
{
    let status = reply.status;
    let body = reply.body.as_str();
    let message = extract_message(status, body);
    let kind = error_kind_for(status, body);
    let mut src = String::from_str("http ");
    src.append(crate::text::decimal_string(status as u64).as_str());
    let mut err = SetuError::with_message(kind, message).with_provider(provider).with_source(
        src.as_str(),
    );
    if kind == ErrorKind::RateLimited {
        if let Some(retry) = parse_retry_after(&reply.retry_after) {
            err = err.with_retry_after_ms(retry);
        }
    }
    err
}

/// A transport or parse failure around a provider call, attributed to the
/// provider.
pub fn normalize_transport_error(provider: &str, err: SetuError) -> (e: SetuError)
    ensures
        e == (SetuError { provider: e.provider, ..err }),
        e.provider matches Some(p) && p@ == provider@,
{
    err.with_provider(provider)
}

} // verus!
