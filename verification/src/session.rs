//! Provider sessions: the cookies and headers the transport needs, their
//! lifecycle, an in-memory store and the session manager.
//!
//! Times are milliseconds since the Unix epoch (UTC).

use vstd::prelude::*;

use crate::error::{ErrorKind, SetuError};
use crate::id::is_generated_id;
use crate::named::NamedValues;
use crate::text::is_blank;

verus! {

/// The current time in milliseconds since the Unix epoch
/// (`chrono::Utc::now().timestamp_millis()`). It is the clock's reading, so
/// nothing is stated of the value.
#[verifier::external_body]
pub(crate) fn now_millis() -> i64 {
    chrono::Utc::now().timestamp_millis()
}

/// One day in milliseconds: the default lifetime of a session.
pub const DAY_MS: i64 = 86_400_000;

/// `t + d`, saturating at the bounds of `i64`.
pub open spec fn add_ms(t: i64, d: i64) -> i64 {
    if t + d > i64::MAX {
        i64::MAX
    } else if t + d < i64::MIN {
        i64::MIN
    } else {
        (t + d) as i64
    }
}

fn add_ms_exec(t: i64, d: i64) -> (r: i64)
    ensures
        r == add_ms(t, d),
{
    match t.checked_add(d) {
        Some(v) => v,
        None => if d > 0 {
            i64::MAX
        } else {
            i64::MIN
        },
    }
}

#[derive(Debug, PartialEq, Eq, Hash)]
pub struct SessionId(pub String);

impl Clone for SessionId {
    fn clone(&self) -> (r: Self)
        ensures
            r == *self,
    {
        SessionId(self.0.clone())
    }
}

impl SessionId {
    /// A fresh id: `sess_` followed by a random simple UUID.
    pub fn new() -> (r: Self)
        ensures
            is_generated_id(r.0@, "sess_"@),
    {
        SessionId(crate::id::generated_id("sess_"))
    }

    pub fn from_raw(raw: &str) -> (r: Self)
        ensures
            r.0@ == raw@,
    {
        SessionId(String::from_str(raw))
    }

    pub fn as_str(&self) -> (r: &str)
        ensures
            r@ == self.0@,
    {
        self.0.as_str()
    }

    /// The display form of the id.
    pub fn to_string(&self) -> (r: String)
        ensures
            r@ == self.0@,
    {
        self.0.clone()
    }
}

impl Default for SessionId {
    fn default() -> (r: Self)
        ensures
            is_generated_id(r.0@, "sess_"@),
    {
        Self::new()
    }
}

#[derive(Debug, Clone, Copy, PartialEq, Eq, Structural)]
pub enum SessionState {
    Active,
    Invalid,
    Expired,
}

/// Provider session: cookies and headers required by the transport layer.
#[derive(Debug)]
pub struct Session {
    pub id: SessionId,
    pub provider: String,
    pub cookies: NamedValues,
    pub headers: NamedValues,
    pub state: SessionState,
    pub created_at: i64,
    pub updated_at: i64,
    pub expires_at: Option<i64>,
}

/// The mathematical content of a session.
pub struct SessionSnapshot {
    pub id: Seq<char>,
    pub provider: Seq<char>,
    pub cookies: Seq<(Seq<char>, Seq<char>)>,
    pub headers: Seq<(Seq<char>, Seq<char>)>,
    pub state: SessionState,
    pub created_at: i64,
    pub updated_at: i64,
    pub expires_at: Option<i64>,
}

impl View for Session {
    type V = SessionSnapshot;

    open spec fn view(&self) -> SessionSnapshot {
        SessionSnapshot {
            id: self.id.0@,
            provider: self.provider@,
            cookies: self.cookies.pairs(),
            headers: self.headers.pairs(),
            state: self.state,
            created_at: self.created_at,
            updated_at: self.updated_at,
            expires_at: self.expires_at,
        }
    }
}

impl Clone for Session {
    fn clone(&self) -> (r: Self)
        ensures
            r@ == self@,
    {
        Session {
            id: self.id.clone(),
            provider: self.provider.clone(),
            cookies: self.cookies.clone(),
            headers: self.headers.clone(),
            state: self.state,
            created_at: self.created_at,
            updated_at: self.updated_at,
            expires_at: self.expires_at,
        }
    }
}

/// A session just created at `now` for `provider`: no cookies or headers,
/// active, and expiring a day later.
pub open spec fn fresh_session(s: SessionSnapshot, provider: Seq<char>, now: i64) -> bool {
    &&& is_generated_id(s.id, "sess_"@)
    &&& s.provider == provider
    &&& s.cookies.len() == 0
    &&& s.headers.len() == 0
    &&& s.state == SessionState::Active
    &&& s.created_at == now
    &&& s.updated_at == now
    &&& s.expires_at == Some(add_ms(now, DAY_MS))
}

/// The session is not active, or its expiry time has come.
pub open spec fn expired_at(s: SessionSnapshot, now: i64) -> bool {
    s.state != SessionState::Active || (s.expires_at matches Some(e) && now >= e)
}

/// How validation at `now` ends: `Ok` for a usable session, otherwise the
/// kind of the failure (a blank provider first, then an invalidated session,
/// then an expired one).
pub open spec fn validation_at(s: SessionSnapshot, now: i64) -> Result<(), ErrorKind> {
    if is_blank(s.provider) {
        Err(ErrorKind::Validation)
    } else if s.state == SessionState::Invalid {
        Err(ErrorKind::SessionExpired)
    } else if expired_at(s, now) {
        Err(ErrorKind::SessionExpired)
    } else {
        Ok(())
    }
}

/// `s` expiring `ttl_ms` after `now`.
pub open spec fn with_expiry(s: SessionSnapshot, ttl_ms: i64, now: i64) -> SessionSnapshot {
    SessionSnapshot { expires_at: Some(add_ms(now, ttl_ms)), ..s }
}

/// `s` invalidated at `now`: no cookies or headers, state invalid.
pub open spec fn invalidated(s: SessionSnapshot, now: i64) -> SessionSnapshot {
    SessionSnapshot {
        cookies: Seq::empty(),
        headers: Seq::empty(),
        state: SessionState::Invalid,
        updated_at: now,
        ..s
    }
}

/// `s` updated at `now`.
pub open spec fn touched(s: SessionSnapshot, now: i64) -> SessionSnapshot {
    SessionSnapshot { updated_at: now, ..s }
}

impl Session {
    /// A new session for `provider` created at `now`.
    pub fn new_at(provider: &str, now: i64) -> (s: Self)
        ensures
            fresh_session(s@, provider@, now),
    {
        Session {
            id: SessionId::new(),
            provider: String::from_str(provider),
            cookies: NamedValues::new(),
            headers: NamedValues::new(),
            state: SessionState::Active,
            created_at: now,
            updated_at: now,
            expires_at: Some(add_ms_exec(now, DAY_MS)),
        }
    }

    /// A new session for `provider`, created now.
    pub fn new(provider: &str) -> (s: Self)
        ensures
            fresh_session(s@, provider@, s.created_at),
    {
        Self::new_at(provider, now_millis())
    }

    /// The session with cookie `name` set to `value`.
    pub fn cookie(self, name: &str, value: &str) -> (s: Self)
        ensures
            s.cookies@ == self.cookies@.insert(name@, value@),
            s@ == (SessionSnapshot { cookies: s.cookies.pairs(), ..self@ }),
    {
        let mut s = self;
        s.cookies.insert(name, value);
        s
    }

    /// The session with header `name` set to `value`.
    pub fn header(self, name: &str, value: &str) -> (s: Self)
        ensures
            s.headers@ == self.headers@.insert(name@, value@),
            s@ == (SessionSnapshot { headers: s.headers.pairs(), ..self@ }),
    {
        let mut s = self;
        s.headers.insert(name, value);
        s
    }

    /// The session expiring `ttl_ms` after `now`.
    pub fn with_ttl_at(self, ttl_ms: i64, now: i64) -> (s: Self)
        ensures
            s@ == with_expiry(self@, ttl_ms, now),
    {
        let mut s = self;
        s.expires_at = Some(add_ms_exec(now, ttl_ms));
        s
    }

    /// The session expiring `ttl_ms` from now.
    pub fn with_ttl(self, ttl_ms: i64) -> (s: Self)
        ensures
            exists|now: i64| s@ == #[trigger] with_expiry(self@, ttl_ms, now),
    {
        let now = now_millis();
        let ghost before = self@;
        let s = self.with_ttl_at(ttl_ms, now);
        assert(s@ == with_expiry(before, ttl_ms, now));
        s
    }

    pub fn is_expired_at(&self, now: i64) -> (r: bool)
        ensures
            r == expired_at(self@, now),
    {
        if self.state != SessionState::Active {
            return true;
        }
        match self.expires_at {
            Some(exp) => now >= exp,
            None => false,
        }
    }

    /// Whether the session has expired by the clock.
    pub fn is_expired(&self) -> (r: bool)
        ensures
            exists|now: i64| r == #[trigger] expired_at(self@, now),
            self.state != SessionState::Active ==> r,
            self.state == SessionState::Active && self.expires_at is None ==> !r,
    {
        let now = now_millis();
        let r = self.is_expired_at(now);
        assert(r == expired_at(self@, now));
        r
    }

    pub fn validate_at(&self, now: i64) -> (r: crate::error::Result<()>)
        ensures
            match validation_at(self@, now) {
                Ok(()) => r is Ok,
                Err(k) => r matches Err(e) && e.kind == k,
            },
    {
        if crate::text::is_blank_str(self.provider.as_str()) {
            return Err(SetuError::validation("session provider is empty"));
        }
        if self.state == SessionState::Invalid {
            return Err(SetuError::session_expired("session has been invalidated"));
        }
        if self.is_expired_at(now) {
            let mut m = String::from_str("session for provider '");
            m.append(self.provider.as_str());
            m.append("' has expired");
            return Err(SetuError::with_message(ErrorKind::SessionExpired, m));
        }
        Ok(())
    }

    /// Validate against the clock.
    pub fn validate(&self) -> (r: crate::error::Result<()>)
        ensures
            exists|now: i64|
                match #[trigger] validation_at(self@, now) {
                    Ok(()) => r is Ok,
                    Err(k) => r matches Err(e) && e.kind == k,
                },
    {
        let now = now_millis();
        let r = self.validate_at(now);
        assert(match validation_at(self@, now) {
            Ok(()) => r is Ok,
            Err(k) => r matches Err(e) && e.kind == k,
        });
        r
    }

    /// Mark the session invalid and drop its cookies and headers.
    pub fn invalidate_at(&mut self, now: i64)
        ensures
            final(self)@ == invalidated(old(self)@, now),
    {
        self.state = SessionState::Invalid;
        self.cookies.clear();
        self.headers.clear();
        self.updated_at = now;
        assert(self.cookies.pairs() =~= Seq::empty());
        assert(self.headers.pairs() =~= Seq::empty());
    }

    pub fn invalidate(&mut self)
        ensures
            exists|now: i64| final(self)@ == #[trigger] invalidated(old(self)@, now),
    {
        let now = now_millis();
        self.invalidate_at(now);
        assert(self@ == invalidated(old(self)@, now));
    }

    pub fn touch_at(&mut self, now: i64)
        ensures
            final(self)@ == touched(old(self)@, now),
    {
        self.updated_at = now;
    }

    pub fn touch(&mut self)
        ensures
            exists|now: i64| final(self)@ == #[trigger] touched(old(self)@, now),
    {
        let now = now_millis();
        self.touch_at(now);
        assert(self@ == touched(old(self)@, now));
    }
}

} // verus!
