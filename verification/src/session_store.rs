//! In-memory session persistence and the session manager.

use vstd::prelude::*;

use crate::error::{ErrorKind, SetuError};
use crate::session::{
    invalidated, now_millis, touched, validation_at, Session, SessionId, SessionSnapshot,
};

verus! {

/// Snapshots of stored sessions.
pub open spec fn snapshots(v: Seq<Session>) -> Seq<SessionSnapshot> {
    v.map_values(|s: Session| s@)
}

/// `i` is the first position holding id `id`.
pub open spec fn first_id_at(ss: Seq<SessionSnapshot>, id: Seq<char>, i: int) -> bool {
    0 <= i < ss.len() && ss[i].id == id && forall|j: int| 0 <= j < i ==> #[trigger] ss[j].id != id
}

/// The first position holding id `id`.
pub open spec fn find_id(ss: Seq<SessionSnapshot>, id: Seq<char>) -> Option<int> {
    if exists|i: int| 0 <= i < ss.len() && #[trigger] ss[i].id == id {
        Some(choose|i: int| first_id_at(ss, id, i))
    } else {
        None
    }
}

/// The store after saving `s`: it replaces the first session with its id,
/// or is appended.
pub open spec fn saved(ss: Seq<SessionSnapshot>, s: SessionSnapshot) -> Seq<SessionSnapshot> {
    match find_id(ss, s.id) {
        Some(i) => ss.update(i, s),
        None => ss.push(s),
    }
}

/// The first `k` sessions without those of id `id`.
pub open spec fn without_id(ss: Seq<SessionSnapshot>, id: Seq<char>, k: int) -> Seq<SessionSnapshot>
    decreases k,
{
    if k <= 0 || k > ss.len() {
        Seq::empty()
    } else {
        let prev = without_id(ss, id, k - 1);
        if ss[k - 1].id == id {
            prev
        } else {
            prev.push(ss[k - 1])
        }
    }
}

/// Among the first `k` sessions, the position of the most recently updated
/// one for `provider`; of equally recent ones, the last.
pub open spec fn latest_for(ss: Seq<SessionSnapshot>, provider: Seq<char>, k: int) -> Option<int>
    decreases k,
{
    if k <= 0 || k > ss.len() {
        None
    } else {
        let prev = latest_for(ss, provider, k - 1);
        if ss[k - 1].provider == provider && (match prev {
            Some(p) => ss[p].updated_at <= ss[k - 1].updated_at,
            None => true,
        }) {
            Some(k - 1)
        } else {
            prev
        }
    }
}

proof fn lemma_latest_in_range(ss: Seq<SessionSnapshot>, provider: Seq<char>, k: int)
    requires
        0 <= k <= ss.len(),
    ensures
        latest_for(ss, provider, k) matches Some(p) ==> 0 <= p < k && ss[p].provider == provider,
    decreases k,
{
    if k > 0 {
        lemma_latest_in_range(ss, provider, k - 1);
    }
}

/// Sessions held in memory, in the order they were first saved.
#[derive(Debug)]
pub struct MemorySessionStore {
    sessions: Vec<Session>,
}

impl View for MemorySessionStore {
    type V = Seq<SessionSnapshot>;

    closed spec fn view(&self) -> Seq<SessionSnapshot> {
        snapshots(self.sessions@)
    }
}

impl Default for MemorySessionStore {
    fn default() -> (r: Self)
        ensures
            r@ == Seq::<SessionSnapshot>::empty(),
    {
        MemorySessionStore::new()
    }
}

impl MemorySessionStore {
    pub fn new() -> (r: Self)
        ensures
            r@ == Seq::<SessionSnapshot>::empty(),
    {
        let r = MemorySessionStore { sessions: Vec::new() };
        assert(r@ =~= Seq::<SessionSnapshot>::empty());
        r
    }

    fn position(&self, id: &str) -> (r: Option<usize>)
        ensures
            match find_id(self@, id@) {
                Some(i) => r == Some(i as usize),
                None => r is None,
            },
            r matches Some(i) ==> (i < self.sessions@.len() && first_id_at(self@, id@, i as int)),
    {
        let ghost ss = self@;
        let mut i: usize = 0;
        while i < self.sessions.len()
            invariant
                ss == snapshots(self.sessions@),
                i <= ss.len(),
                forall|j: int| 0 <= j < i ==> #[trigger] ss[j].id != id@,
            decreases self.sessions.len() - i,
        {
            if crate::text::str_eq(self.sessions[i].id.as_str(), id) {
                proof {
                    assert(ss[i as int].id == id@);
                    assert(first_id_at(ss, id@, i as int));
                    let c = choose|c: int| first_id_at(ss, id@, c);
                    if c < i {
                        assert(ss[c].id != id@);
                    } else if c > i {
                        assert(ss[i as int].id != id@);
                    }
                }
                return Some(i);
            }
            i = i + 1;
        }
        None
    }

    /// Save a copy of `session` (see `saved`).
    pub fn save(&mut self, session: &Session)
        ensures
            final(self)@ == saved(old(self)@, session@),
    {
        match self.position(session.id.as_str()) {
            Some(i) => {
                self.sessions.set(i, session.clone());
                assert(self@ =~= old(self)@.update(i as int, session@));
            },
            None => {
                self.sessions.push(session.clone());
                assert(self@ =~= old(self)@.push(session@));
            },
        }
    }

    /// A copy of the first session with id `id`.
    pub fn load(&self, id: &SessionId) -> (r: Option<Session>)
        ensures
            match find_id(self@, id.0@) {
                Some(i) => r matches Some(s) && s@ == self@[i],
                None => r is None,
            },
    {
        match self.position(id.as_str()) {
            Some(i) => Some(self.sessions[i].clone()),
            None => None,
        }
    }

    /// A copy of the most recently updated session for `provider`.
    pub fn load_for_provider(&self, provider: &str) -> (r: Option<Session>)
        ensures
            match latest_for(self@, provider@, self@.len() as int) {
                Some(i) => r matches Some(s) && s@ == self@[i],
                None => r is None,
            },
    {
        let ghost ss = self@;
        let mut best: Option<usize> = None;
        let mut i: usize = 0;
        while i < self.sessions.len()
            invariant
                ss == snapshots(self.sessions@),
                i <= ss.len(),
                match latest_for(ss, provider@, i as int) {
                    Some(p) => best == Some(p as usize),
                    None => best is None,
                },
            decreases self.sessions.len() - i,
        {
            proof {
                lemma_latest_in_range(ss, provider@, i as int);
            }
            if crate::text::str_eq(self.sessions[i].provider.as_str(), provider) {
                let take = match best {
                    Some(b) => self.sessions[b].updated_at <= self.sessions[i].updated_at,
                    None => true,
                };
                if take {
                    best = Some(i);
                }
            }
            i = i + 1;
        }
        match best {
            Some(b) => {
                proof {
                    lemma_latest_in_range(ss, provider@, ss.len() as int);
                }
                Some(self.sessions[b].clone())
            },
            None => None,
        }
    }

    /// Remove every session with id `id`.
    pub fn delete(&mut self, id: &SessionId)
        ensures
            final(self)@ == without_id(old(self)@, id.0@, old(self)@.len() as int),
    {
        let ghost ss = self@;
        let mut kept: Vec<Session> = Vec::new();
        let mut old_sessions: Vec<Session> = Vec::new();
        std::mem::swap(&mut old_sessions, &mut self.sessions);
        let mut i: usize = 0;
        while i < old_sessions.len()
            invariant
                ss == snapshots(old_sessions@),
                i <= ss.len(),
                snapshots(kept@) == without_id(ss, id.0@, i as int),
            decreases old_sessions.len() - i,
        {
            if !crate::text::str_eq(old_sessions[i].id.as_str(), id.as_str()) {
                let ghost before = kept@;
                kept.push(old_sessions[i].clone());
                assert(snapshots(kept@) =~= snapshots(before).push(ss[i as int]));
            }
            i = i + 1;
        }
        self.sessions = kept;
    }

    /// The ids of the stored sessions, in order.
    pub fn list(&self) -> (r: Vec<SessionId>)
        ensures
            r@.len() == self@.len(),
            forall|i: int| 0 <= i < r@.len() ==> (#[trigger] r@[i]).0@ == self@[i].id,
    {
        let ghost ss = self@;
        let mut out: Vec<SessionId> = Vec::new();
        let mut i: usize = 0;
        while i < self.sessions.len()
            invariant
                ss == snapshots(self.sessions@),
                i <= ss.len(),
                out@.len() == i,
                forall|k: int| 0 <= k < i ==> (#[trigger] out@[k]).0@ == ss[k].id,
            decreases self.sessions.len() - i,
        {
            out.push(self.sessions[i].id.clone());
            i = i + 1;
        }
        out
    }
}

/// Session lifecycle over a store: create, load, update, validate,
/// invalidate, delete.
#[derive(Debug)]
pub struct SessionManager {
    pub store: MemorySessionStore,
}

impl SessionManager {
    pub fn new(store: MemorySessionStore) -> (r: Self)
        ensures
            r.store@ == store@,
    {
        SessionManager { store }
    }

    /// Validate `session` at `now` and save it.
    pub fn create_at(&mut self, session: Session, now: i64) -> (r: crate::error::Result<Session>)
        ensures
            match validation_at(session@, now) {
                Ok(()) => r matches Ok(s) && s@ == session@ && final(self).store@ == saved(
                    old(self).store@,
                    session@,
                ),
                Err(k) => r matches Err(e) && e.kind == k && final(self).store@ == old(self).store@,
            },
    {
        session.validate_at(now)?;
        self.store.save(&session);
        Ok(session)
    }

    /// Validate `session` by the clock and save it.
    pub fn create(&mut self, session: Session) -> (r: crate::error::Result<Session>)
        ensures
            exists|now: i64|
                match #[trigger] validation_at(session@, now) {
                    Ok(()) => r matches Ok(s) && s@ == session@ && final(self).store@ == saved(
                        old(self).store@,
                        session@,
                    ),
                    Err(k) => r matches Err(e) && e.kind == k && final(self).store@ == old(self).store@,
                },
    {
        let ghost sv = session@;
        let now = now_millis();
        let r = self.create_at(session, now);
        assert(match validation_at(sv, now) {
            Ok(()) => r matches Ok(s) && s@ == sv && self.store@ == saved(old(self).store@, sv),
            Err(k) => r matches Err(e) && e.kind == k && self.store@ == old(self).store@,
        });
        r
    }

    /// The session with id `id`, when it is stored and valid at `now`.
    pub fn load_at(&self, id: &SessionId, now: i64) -> (r: crate::error::Result<Session>)
        ensures
            match find_id(self.store@, id.0@) {
                None => r matches Err(e) && e.kind == ErrorKind::NotFound,
                Some(i) => match validation_at(self.store@[i], now) {
                    Ok(()) => r matches Ok(s) && s@ == self.store@[i],
                    Err(k) => r matches Err(e) && e.kind == k,
                },
            },
    {
        let session = match self.store.load(id) {
            Some(s) => s,
            None => {
                return Err(SetuError::not_found("session not found"));
            },
        };
        session.validate_at(now)?;
        Ok(session)
    }

    /// The session with id `id`, when it is stored and valid by the clock.
    pub fn load(&self, id: &SessionId) -> (r: crate::error::Result<Session>)
        ensures
            find_id(self.store@, id.0@) is None ==> (r matches Err(e) && e.kind == ErrorKind::NotFound),
            r matches Ok(s) ==> (find_id(self.store@, id.0@) matches Some(i) && s@ == self.store@[i]),
    {
        self.load_at(id, now_millis())
    }

    /// The most recent session for `provider`, when it is valid at `now`.
    pub fn load_for_provider_at(&self, provider: &str, now: i64) -> (r: crate::error::Result<Option<Session>>)
        ensures
            match latest_for(self.store@, provider@, self.store@.len() as int) {
                Some(i) => if validation_at(self.store@[i], now) is Ok {
                    r matches Ok(Some(s)) && s@ == self.store@[i]
                } else {
                    r matches Ok(None)
                },
                None => r matches Ok(None),
            },
    {
        match self.store.load_for_provider(provider) {
            Some(session) => {
                if session.validate_at(now).is_ok() {
                    Ok(Some(session))
                } else {
                    Ok(None)
                }
            },
            None => Ok(None),
        }
    }

    /// The most recent session for `provider`, when it is valid by the clock.
    pub fn load_for_provider(&self, provider: &str) -> (r: crate::error::Result<Option<Session>>)
        ensures
            r is Ok,
            r matches Ok(Some(s)) ==> (latest_for(self.store@, provider@, self.store@.len() as int) matches Some(i)
                && s@ == self.store@[i]),
            latest_for(self.store@, provider@, self.store@.len() as int) is None ==> r matches Ok(None),
    {
        self.load_for_provider_at(provider, now_millis())
    }

    /// Touch `session` at `now`, validate it and save it.
    pub fn update_at(&mut self, session: Session, now: i64) -> (r: crate::error::Result<Session>)
        ensures
            match validation_at(touched(session@, now), now) {
                Ok(()) => r matches Ok(s) && s@ == touched(session@, now) && final(self).store@ == saved(
                    old(self).store@,
                    touched(session@, now),
                ),
                Err(k) => r matches Err(e) && e.kind == k && final(self).store@ == old(self).store@,
            },
    {
        let mut session = session;
        session.touch_at(now);
        session.validate_at(now)?;
        self.store.save(&session);
        Ok(session)
    }

    /// Touch `session` by the clock, validate it and save it.
    pub fn update(&mut self, session: Session) -> (r: crate::error::Result<Session>)
        ensures
            exists|now: i64|
                match #[trigger] validation_at(touched(session@, now), now) {
                    Ok(()) => r matches Ok(s) && s@ == touched(session@, now) && final(self).store@ == saved(
                        old(self).store@,
                        touched(session@, now),
                    ),
                    Err(k) => r matches Err(e) && e.kind == k && final(self).store@ == old(self).store@,
                },
    {
        let ghost sv = session@;
        let now = now_millis();
        let r = self.update_at(session, now);
        assert(match validation_at(touched(sv, now), now) {
            Ok(()) => r matches Ok(s) && s@ == touched(sv, now) && self.store@ == saved(
                old(self).store@,
                touched(sv, now),
            ),
            Err(k) => r matches Err(e) && e.kind == k && self.store@ == old(self).store@,
        });
        r
    }

    /// Same as `load_at`.
    pub fn validate_at(&self, id: &SessionId, now: i64) -> (r: crate::error::Result<Session>)
        ensures
            match find_id(self.store@, id.0@) {
                None => r matches Err(e) && e.kind == ErrorKind::NotFound,
                Some(i) => match validation_at(self.store@[i], now) {
                    Ok(()) => r matches Ok(s) && s@ == self.store@[i],
                    Err(k) => r matches Err(e) && e.kind == k,
                },
            },
    {
        self.load_at(id, now)
    }

    /// Same as `load`.
    pub fn validate(&self, id: &SessionId) -> (r: crate::error::Result<Session>)
        ensures
            find_id(self.store@, id.0@) is None ==> (r matches Err(e) && e.kind == ErrorKind::NotFound),
            r matches Ok(s) ==> (find_id(self.store@, id.0@) matches Some(i) && s@ == self.store@[i]),
    {
        self.load(id)
    }

    /// Invalidate the stored session with id `id` at `now`, if there is one.
    pub fn invalidate_at(&mut self, id: &SessionId, now: i64) -> (r: crate::error::Result<()>)
        ensures
            r is Ok,
            match find_id(old(self).store@, id.0@) {
                Some(i) => final(self).store@ == saved(
                    old(self).store@,
                    invalidated(old(self).store@[i], now),
                ),
                None => final(self).store@ == old(self).store@,
            },
    {
        if let Some(mut session) = self.store.load(id) {
            session.invalidate_at(now);
            self.store.save(&session);
        }
        Ok(())
    }

    /// Invalidate the stored session with id `id` by the clock.
    pub fn invalidate(&mut self, id: &SessionId) -> (r: crate::error::Result<()>)
        ensures
            r is Ok,
            find_id(old(self).store@, id.0@) is None ==> final(self).store@ == old(self).store@,
            find_id(old(self).store@, id.0@) matches Some(i) ==> exists|now: i64|
                final(self).store@ == saved(old(self).store@, #[trigger] invalidated(old(self).store@[i], now)),
    {
        let now = now_millis();
        let r = self.invalidate_at(id, now);
        proof {
            if let Some(i) = find_id(old(self).store@, id.0@) {
                assert(self.store@ == saved(old(self).store@, invalidated(old(self).store@[i], now)));
            }
        }
        r
    }

    pub fn delete(&mut self, id: &SessionId) -> (r: crate::error::Result<()>)
        ensures
            r is Ok,
            final(self).store@ == without_id(old(self).store@, id.0@, old(self).store@.len() as int),
    {
        self.store.delete(id);
        Ok(())
    }

    /// A validated session for the transport layer, if one exists.
    pub fn for_transport_at(&self, provider: &str, now: i64) -> (r: crate::error::Result<Option<Session>>)
        ensures
            match latest_for(self.store@, provider@, self.store@.len() as int) {
                Some(i) => if validation_at(self.store@[i], now) is Ok {
                    r matches Ok(Some(s)) && s@ == self.store@[i]
                } else {
                    r matches Ok(None)
                },
                None => r matches Ok(None),
            },
    {
        self.load_for_provider_at(provider, now)
    }

    /// A session valid by the clock for the transport layer, if one exists.
    pub fn for_transport(&self, provider: &str) -> (r: crate::error::Result<Option<Session>>)
        ensures
            r is Ok,
            r matches Ok(Some(s)) ==> (latest_for(self.store@, provider@, self.store@.len() as int) matches Some(i)
                && s@ == self.store@[i]),
            latest_for(self.store@, provider@, self.store@.len() as int) is None ==> r matches Ok(None),
    {
        self.load_for_provider(provider)
    }
}

} // verus!
