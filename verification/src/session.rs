//! The session model: a client identifier built through the CONNECT
//! validation rule, and the connection state a server keeps per client.
//! Time is carried as plain milliseconds since the Unix epoch, read from
//! the system clock at the one place a state change records it.

use vstd::prelude::*;

use crate::errors::Error;
use crate::packets::connect;

pub mod handler;

verus! {

/// A validated client identifier (3.1.3.1 of the MQTT 5.0 specification).
/// It is built through the same rule the CONNECT validator applies, so the
/// two components can never disagree on what a valid identifier is.
#[derive(Debug, Eq, PartialEq)]
pub struct ClientId(String);

impl Clone for ClientId {
    fn clone(&self) -> (r: ClientId)
        ensures
            r == *self,
    {
        ClientId(self.0.clone())
    }
}

impl View for ClientId {
    type V = Seq<char>;

    closed spec fn view(&self) -> Seq<char> {
        self.0@
    }
}

impl ClientId {
    /// Wraps an identifier after validating it: one to twenty-three ASCII
    /// alphanumeric characters.
    pub fn new(id: &str) -> (r: Result<ClientId, Error>)
        ensures
            connect::client_id_ok(id@) ==> (r matches Ok(c) && c@ == id@),
            !connect::client_id_ok(id@) ==> (r matches Err(e) && e is MalformedPacket),
    {
        match connect::validate_client_id(id) {
            Ok(()) => Ok(ClientId(id.to_owned())),
            Err(e) => Err(e),
        }
    }

    /// The identifier's characters.
    pub fn as_str(&self) -> (r: &str)
        ensures
            r@ == self@,
    {
        self.0.as_str()
    }
}

/// The identifier of a session.  The client identifier alone is not enough
/// to manage sessions, so each session carries a counter-assigned number of
/// its own.
#[derive(Debug, Eq, PartialEq, Clone, Copy, Hash, Structural)]
pub struct SessionId(u32);

impl SessionId {
    /// The number carried by the identifier.
    pub closed spec fn spec_value(self) -> u32 {
        self.0
    }

    /// Wraps a session number.
    pub fn new(id: u32) -> (r: SessionId)
        ensures
            r.spec_value() == id,
    {
        SessionId(id)
    }

    /// The number carried by the identifier.
    pub fn value(&self) -> (v: u32)
        ensures
            v == self.spec_value(),
    {
        self.0
    }
}

/// The connection state of a session, from before the TCP connection up to
/// disconnection.  It does not track publish or subscribe state.
#[derive(Debug, Eq, PartialEq, Clone, Copy, Structural)]
pub enum SessionState {
    BeforeTcpConnectionEstablished,
    BeforeConnect,
    ReceivedConnect,
    Connected,
    Disconnected,
}

/// Relies on `chrono::Utc::now`: the current time, in milliseconds since
/// the Unix epoch.  Nothing is promised of the value, since it depends on
/// the clock.
#[verifier::external_body]
fn utc_now_millis() -> i64 {
    chrono::Utc::now().timestamp_millis()
}

/// One client's session: its identifiers, when its TCP connection was
/// established, its keep-alive interval in seconds, and its state.  A state
/// change yields a new session value; nothing is mutated in place.
#[derive(Debug, Eq, PartialEq)]
pub struct Session {
    pub session_id: SessionId,
    pub client_id: ClientId,
    pub tcp_connection_established_at: Option<i64>,
    pub keep_alive: i64,
    pub state: SessionState,
}

impl Clone for Session {
    fn clone(&self) -> (r: Session)
        ensures
            r == *self,
    {
        Session {
            session_id: self.session_id,
            client_id: self.client_id.clone(),
            tcp_connection_established_at: self.tcp_connection_established_at,
            keep_alive: self.keep_alive,
            state: self.state,
        }
    }
}

impl Session {
    /// A fresh session: no TCP connection yet.
    pub fn new(session_id: SessionId, client_id: ClientId, keep_alive: i64) -> (s: Session)
        ensures
            s.session_id == session_id,
            s.client_id == client_id,
            s.tcp_connection_established_at is None,
            s.keep_alive == keep_alive,
            s.state == SessionState::BeforeTcpConnectionEstablished,
    {
        Session {
            session_id,
            client_id,
            tcp_connection_established_at: None,
            keep_alive,
            state: SessionState::BeforeTcpConnectionEstablished,
        }
    }

    /// Records that the TCP connection is established, stamping the current
    /// time.  A session whose connection is already established is refused.
    pub fn tcp_connection_established(&self) -> (r: Result<Session, Error>)
        ensures
            self.tcp_connection_established_at is Some ==> (r matches Err(e) && e is Common),
            self.tcp_connection_established_at is None ==> (r matches Ok(s)
                && s.tcp_connection_established_at is Some && s.session_id == self.session_id
                && s.client_id == self.client_id && s.keep_alive == self.keep_alive && s.state
                == self.state),
    {
        if self.tcp_connection_established_at.is_some() {
            return Err(Error::Common("the TCP connection is already established".to_owned()));
        }
        let at = utc_now_millis();
        Ok(
            Session {
                session_id: self.session_id,
                client_id: ClientId(self.client_id.0.clone()),
                tcp_connection_established_at: Some(at),
                keep_alive: self.keep_alive,
                state: self.state,
            },
        )
    }

    /// Moves the session to `ReceivedConnect`.  A session without an
    /// established TCP connection is refused.
    pub fn received_connect(&self) -> (r: Result<Session, Error>)
        ensures
            self.tcp_connection_established_at is None ==> (r matches Err(e) && e is Common),
            self.tcp_connection_established_at is Some ==> (r matches Ok(s) && s == (Session {
                state: SessionState::ReceivedConnect,
                ..*self
            })),
    {
        if self.tcp_connection_established_at.is_none() {
            return Err(
                Error::Common(
                    "the TCP connection has not been established, so the session cannot move to the received-connect state".to_owned(),
                ),
            );
        }
        Ok(
            Session {
                session_id: self.session_id,
                client_id: ClientId(self.client_id.0.clone()),
                tcp_connection_established_at: self.tcp_connection_established_at,
                keep_alive: self.keep_alive,
                state: SessionState::ReceivedConnect,
            },
        )
    }

    /// Moves the session to `Connected`.  A session without an established
    /// TCP connection is refused.
    pub fn connected(&self) -> (r: Result<Session, Error>)
        ensures
            self.tcp_connection_established_at is None ==> (r matches Err(e) && e is Common),
            self.tcp_connection_established_at is Some ==> (r matches Ok(s) && s == (Session {
                state: SessionState::Connected,
                ..*self
            })),
    {
        if self.tcp_connection_established_at.is_none() {
            return Err(
                Error::Common(
                    "the TCP connection has not been established, so the session cannot move to the connected state".to_owned(),
                ),
            );
        }
        Ok(
            Session {
                session_id: self.session_id,
                client_id: ClientId(self.client_id.0.clone()),
                tcp_connection_established_at: self.tcp_connection_established_at,
                keep_alive: self.keep_alive,
                state: SessionState::Connected,
            },
        )
    }

    /// Moves the session to `Disconnected`, from any state.
    pub fn disconnected(&self) -> (s: Session)
        ensures
            s == (Session { state: SessionState::Disconnected, ..*self }),
    {
        Session {
            session_id: self.session_id,
            client_id: ClientId(self.client_id.0.clone()),
            tcp_connection_established_at: self.tcp_connection_established_at,
            keep_alive: self.keep_alive,
            state: SessionState::Disconnected,
        }
    }
}

} // verus!
