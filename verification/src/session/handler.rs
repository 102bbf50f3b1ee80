//! The session registry: a counter that assigns session numbers and a table
//! of live sessions keyed by them.

use vstd::prelude::*;

use std::collections::HashMap;

use crate::session::{ClientId, Session, SessionId, SessionState};

verus! {

broadcast use vstd::std_specs::hash::group_hash_axioms;

/// The registry of sessions, keyed by their session numbers.
pub struct Handler {
    session_id_counter: u32,
    sessions: HashMap<u32, Session>,
}

impl Handler {
    /// The last session number handed out.
    pub closed spec fn counter(self) -> u32 {
        self.session_id_counter
    }

    /// The stored sessions, by session number.
    pub closed spec fn sessions_map(self) -> Map<u32, Session> {
        self.sessions@
    }

    /// An empty registry.
    pub fn new() -> (h: Handler)
        ensures
            h.counter() == 0,
            h.sessions_map() == Map::<u32, Session>::empty(),
    {
        Handler { session_id_counter: 0, sessions: HashMap::new() }
    }

    /// True when every session number has been handed out, so no further
    /// session can be created.
    pub fn counter_is_exhausted(&self) -> (r: bool)
        ensures
            r == (self.counter() == u32::MAX),
    {
        self.session_id_counter == u32::MAX
    }

    /// Steps the session counter.
    fn increment_session_id_counter(&mut self)
        requires
            old(self).counter() < u32::MAX,
        ensures
            final(self).counter() == old(self).counter() + 1,
            final(self).sessions_map() == old(self).sessions_map(),
    {
        self.session_id_counter = self.session_id_counter + 1;
    }

    /// Creates a fresh session for the client under the next session
    /// number, stores it, and returns it.
    pub fn create_session(&mut self, client_id: &ClientId, keep_alive: i64) -> (s: Session)
        requires
            old(self).counter() < u32::MAX,
        ensures
            final(self).counter() == old(self).counter() + 1,
            s.session_id.spec_value() == old(self).counter() + 1,
            s.client_id == *client_id,
            s.keep_alive == keep_alive,
            s.tcp_connection_established_at is None,
            s.state == SessionState::BeforeTcpConnectionEstablished,
            final(self).sessions_map() == old(self).sessions_map().insert(
                s.session_id.spec_value(),
                s,
            ),
    {
        self.increment_session_id_counter();

        let session_id = SessionId::new(self.session_id_counter);
        let session = Session::new(session_id, client_id.clone(), keep_alive);
        self.sessions.insert(self.session_id_counter, session.clone());
        session
    }

    /// The session stored under the given number, when one is.
    pub fn get_session(&self, session_id: &SessionId) -> (r: Option<&Session>)
        ensures
            self.sessions_map().contains_key(session_id.spec_value()) ==> (r matches Some(s) && *s
                == self.sessions_map()[session_id.spec_value()]),
            !self.sessions_map().contains_key(session_id.spec_value()) ==> r is None,
    {
        self.sessions.get(&session_id.value())
    }

    /// Stores the session under its own session number, replacing a
    /// previous state of the same session.  A session value is never
    /// mutated in place, so reading and updating a session belong in one
    /// thread of work.
    pub fn update_session(&mut self, session: Session)
        ensures
            final(self).counter() == old(self).counter(),
            final(self).sessions_map() == old(self).sessions_map().insert(
                session.session_id.spec_value(),
                session,
            ),
    {
        let key = session.session_id.value();
        self.sessions.insert(key, session);
    }

    /// Removes and returns the session stored under the given number.
    pub fn remove_session(&mut self, session_id: SessionId) -> (r: Option<Session>)
        ensures
            final(self).counter() == old(self).counter(),
            final(self).sessions_map() == old(self).sessions_map().remove(
                session_id.spec_value(),
            ),
            old(self).sessions_map().contains_key(session_id.spec_value()) ==> (r matches Some(s)
                && s == old(self).sessions_map()[session_id.spec_value()]),
            !old(self).sessions_map().contains_key(session_id.spec_value()) ==> r is None,
    {
        self.sessions.remove(&session_id.value())
    }
}

} // verus!
