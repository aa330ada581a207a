//! Capture of permitted session state after a browser login.

use vstd::prelude::*;

use crate::config::url_scheme_and_host;
use crate::error::{ErrorKind, SetuError};
use crate::named::{kept_pairs, NamedValues};
use crate::session::{add_ms, Session, SessionSnapshot, DAY_MS};

verus! {

/// Permitted cookies and headers captured after login.
#[derive(Debug)]
pub struct CapturedSession {
    pub provider: String,
    pub cookies: NamedValues,
    pub headers: NamedValues,
}

impl Default for CapturedSession {
    fn default() -> (r: Self)
        ensures
            r.provider@.len() == 0,
            r.cookies.pairs().len() == 0,
            r.headers.pairs().len() == 0,
    {
        CapturedSession { provider: String::new(), cookies: NamedValues::new(), headers: NamedValues::new() }
    }
}

impl CapturedSession {
    pub fn new(provider: &str) -> (r: Self)
        ensures
            r.provider@ == provider@,
            r.cookies.pairs().len() == 0,
            r.headers.pairs().len() == 0,
    {
        CapturedSession {
            provider: String::from_str(provider),
            cookies: NamedValues::new(),
            headers: NamedValues::new(),
        }
    }

    /// A new session created at `now` that carries the captured provider,
    /// cookies and headers.
    pub fn into_session_at(self, now: i64) -> (s: Session)
        ensures
            crate::id::is_generated_id(s.id.0@, "sess_"@),
            s@ == (SessionSnapshot {
                id: s.id.0@,
                provider: self.provider@,
                cookies: self.cookies.pairs(),
                headers: self.headers.pairs(),
                state: crate::session::SessionState::Active,
                created_at: now,
                updated_at: now,
                expires_at: Some(add_ms(now, DAY_MS)),
            }),
    {
        let mut session = Session::new_at(self.provider.as_str(), now);
        session.cookies = self.cookies;
        session.headers = self.headers;
        session
    }

    /// A new session, created now, that carries the captured state.
    pub fn into_session(self) -> (s: Session)
        ensures
            crate::id::is_generated_id(s.id.0@, "sess_"@),
            s@ == (SessionSnapshot {
                id: s.id.0@,
                provider: self.provider@,
                cookies: self.cookies.pairs(),
                headers: self.headers.pairs(),
                state: crate::session::SessionState::Active,
                created_at: s.created_at,
                updated_at: s.created_at,
                expires_at: Some(add_ms(s.created_at, DAY_MS)),
            }),
    {
        self.into_session_at(crate::session::now_millis())
    }
}

/// Which cookie and header names may be transferred; an empty list allows
/// every name.
#[derive(Debug)]
pub struct SessionCapture {
    pub allowed_cookie_names: Vec<String>,
    pub allowed_header_names: Vec<String>,
}

/// What filtering keeps of `p` for the names `allowed`.
pub open spec fn filtered(p: Seq<(Seq<char>, Seq<char>)>, allowed: Seq<String>) -> Seq<(Seq<char>, Seq<char>)> {
    if allowed.len() == 0 {
        p
    } else {
        kept_pairs(p, allowed, p.len() as int)
    }
}

impl SessionCapture {
    /// A policy that transfers everything.
    pub fn permissive() -> (r: Self)
        ensures
            r.allowed_cookie_names@.len() == 0,
            r.allowed_header_names@.len() == 0,
    {
        SessionCapture { allowed_cookie_names: Vec::new(), allowed_header_names: Vec::new() }
    }

    /// A policy that transfers the named cookies and the `authorization`
    /// header.
    pub fn allow_cookies(names: &[&str]) -> (r: Self)
        ensures
            r.allowed_cookie_names@.len() == names@.len(),
            forall|i: int| 0 <= i < names@.len() ==> #[trigger] r.allowed_cookie_names@[i]@ == names@[i]@,
            r.allowed_header_names@.len() == 1,
            r.allowed_header_names@[0]@ == "authorization"@,
    {
        let mut cookies: Vec<String> = Vec::new();
        let mut i: usize = 0;
        while i < names.len()
            invariant
                i <= names@.len(),
                cookies@.len() == i,
                forall|k: int| 0 <= k < i ==> #[trigger] cookies@[k]@ == names@[k]@,
            decreases names.len() - i,
        {
            cookies.push(String::from_str(names[i]));
            i = i + 1;
        }
        SessionCapture {
            allowed_cookie_names: cookies,
            allowed_header_names: vec![String::from_str("authorization")],
        }
    }

    /// Keep the cookies and headers whose names the policy allows (ASCII
    /// case ignored).
    pub fn filter(&self, captured: CapturedSession) -> (r: CapturedSession)
        ensures
            r.provider == captured.provider,
            r.cookies.pairs() == filtered(captured.cookies.pairs(), self.allowed_cookie_names@),
            r.headers.pairs() == filtered(captured.headers.pairs(), self.allowed_header_names@),
    {
        let mut captured = captured;
        if self.allowed_cookie_names.len() > 0 {
            captured.cookies.retain_allowed(&self.allowed_cookie_names);
        }
        if self.allowed_header_names.len() > 0 {
            captured.headers.retain_allowed(&self.allowed_header_names);
        }
        captured
    }
}

/// A login URL must be one `url::Url::parse` accepts.
pub fn check_login_url(login_url: &str) -> (r: crate::error::Result<()>)
    ensures
        r is Ok <==> url_scheme_and_host(login_url@) is Some,
        r matches Err(e) ==> e.kind == ErrorKind::InvalidRequest,
{
    match crate::config::parse_url(login_url) {
        Some(_) => Ok(()),
        None => Err(SetuError::invalid_request("invalid login url")),
    }
}

} // verus!
