use vstd::prelude::*;
use vstd::string::StringExecFns;

use crate::types::ResponseError;

verus! {

/// Where a connection stands in its life.
#[derive(Clone, Copy, Debug, PartialEq, Eq, Structural)]
pub enum SessionState {
    Connecting,
    Handshaking,
    Authenticating,
    Active,
    Closing,
    Closed,
}

/// What happened to a connection, as its handler reports it.
#[derive(Debug, Clone, PartialEq, Eq)]
pub enum SessionEvent {
    /// The transport was accepted.
    Accepted,
    /// The upgrade handshake succeeded.
    Upgraded,
    /// The upgrade handshake failed.
    UpgradeFailed,
    /// The client's identity message: its token and the last message it saw.
    Identified { auth_token: String, last_message: Option<usize> },
    /// Something other than an identity message came first; `description`
    /// says what.
    Unidentified { description: String },
    /// The authentication service accepted the token.
    Authenticated { user_id: String },
    /// The authentication service refused the token, or could not be asked.
    AuthFailed { message: String },
    /// A handler failed while the connection was active.
    Failed { message: String },
    /// Reading or writing the transport failed.
    TransportFailed,
    /// The peer closed the connection.
    PeerGone,
    /// The transport has been shut down.
    ShutDown,
}

/// What the handler must do next.
#[derive(Debug, Clone, PartialEq, Eq)]
pub enum SessionAction {
    /// Nothing.
    Nothing,
    /// Run the upgrade handshake.
    Negotiate,
    /// Send the server's details, then read the client's identity message.
    Introduce,
    /// Ask the authentication service about this token.
    Authenticate { auth_token: String },
    /// Insert the client in the registry, then send it the messages stored
    /// after the id `after`.
    Admit { after: usize },
    /// Send this error and shut the transport down.
    Refuse(ResponseError),
    /// Shut the transport down without a word.
    Drop,
    /// Remove the client from the registry and shut the transport down.
    Evict,
    /// Remove the client from the registry, then try to send this error
    /// (a failure is ignored), and shut the transport down.
    EvictAndReport(ResponseError),
}

/// Why the identity of a client cannot be given.
#[derive(Debug, Clone, Copy, PartialEq, Eq, Structural)]
pub enum SessionError {
    UuidNotSet { token: u64 },
}

/// The state of one connection: its random identity token, the user id
/// that authentication gave it, and where it stands in its life.
#[derive(Debug, Clone)]
pub struct Client {
    pub uuid: Option<String>,
    pub token: u64,
    pub state: SessionState,
    pub last_message: Option<usize>,
}

impl PartialEq for Client {
    fn eq(&self, other: &Client) -> (r: bool) {
        self.token == other.token
    }
}

impl Eq for Client {

}

impl vstd::std_specs::cmp::PartialEqSpecImpl for Client {
    open spec fn obeys_eq_spec() -> bool {
        true
    }

    open spec fn eq_spec(&self, other: &Client) -> bool {
        self.token == other.token
    }
}

/// Relies on `rand::random` (rand 0.8): a value drawn from the thread-local
/// generator; nothing is known of it.
pub assume_specification<T>[ rand::random::<T> ]() -> (r: T)
    where
        rand::distributions::Standard: rand::distributions::Distribution<T>,
;

pub const INVALID_HANDSHAKE_PREFIX: &'static str = "Invalid handshake: ";

/// The state that `ev` leads to from `st`.
pub open spec fn next_state(st: SessionState, ev: SessionEvent) -> SessionState {
    match (st, ev) {
        (SessionState::Connecting, SessionEvent::Accepted) => SessionState::Handshaking,
        (SessionState::Handshaking, SessionEvent::Upgraded) => SessionState::Authenticating,
        (SessionState::Authenticating, SessionEvent::Identified { .. }) => SessionState::Authenticating,
        (SessionState::Authenticating, SessionEvent::Authenticated { .. }) => SessionState::Active,
        (SessionState::Closing, SessionEvent::ShutDown) => SessionState::Closed,
        (SessionState::Closing, _) => SessionState::Closing,
        (SessionState::Closed, _) => SessionState::Closed,
        (SessionState::Active, SessionEvent::Failed { .. }) => SessionState::Closing,
        (SessionState::Active, SessionEvent::TransportFailed) => SessionState::Closing,
        (SessionState::Active, SessionEvent::PeerGone) => SessionState::Closing,
        (SessionState::Active, _) => SessionState::Active,
        (_, SessionEvent::ShutDown) => SessionState::Closed,
        _ => SessionState::Closing,
    }
}

impl Client {
    /// A fresh connection with identity `token`.
    pub fn new(token: u64) -> (r: Client)
        ensures
            r.token == token,
            r.uuid is None,
            r.state == SessionState::Connecting,
            r.last_message is None,
    {
        Client { uuid: None, token, state: SessionState::Connecting, last_message: None }
    }

    /// A fresh connection with a random identity token.
    pub fn connect() -> (r: Client)
        ensures
            r.uuid is None,
            r.state == SessionState::Connecting,
            r.last_message is None,
    {
        let token: u64 = rand::random();
        Client::new(token)
    }

    /// The user id that authentication gave this client.
    pub fn get_uuid(&self) -> (r: Result<String, SessionError>)
        ensures
            match self.uuid {
                Some(u) => r matches Ok(s) && s@ == u@,
                None => r == Err::<String, SessionError>(SessionError::UuidNotSet { token: self.token }),
            },
    {
        match &self.uuid {
            Some(v) => Ok(v.clone()),
            None => Err(SessionError::UuidNotSet { token: self.token }),
        }
    }

    pub fn set_uuid(&mut self, uuid: &str)
        ensures
            final(self).uuid matches Some(u) && u@ == uuid@,
            final(self).token == old(self).token,
            final(self).state == old(self).state,
            final(self).last_message == old(self).last_message,
    {
        self.uuid = Some(uuid.to_string());
    }

    /// Whether this connection is eligible for broadcasts.
    pub fn is_active(&self) -> (r: bool)
        ensures
            r == (self.state == SessionState::Active),
    {
        self.state == SessionState::Active
    }

    /// Moves the connection along after `ev` and says what to do.
    pub fn handle(&mut self, ev: SessionEvent) -> (r: SessionAction)
        ensures
            final(self).state == next_state(old(self).state, ev),
            final(self).token == old(self).token,
            match (old(self).state, ev) {
                (SessionState::Connecting, SessionEvent::Accepted) => r == SessionAction::Negotiate,
                (SessionState::Handshaking, SessionEvent::Upgraded) => r == SessionAction::Introduce,
                (SessionState::Handshaking, SessionEvent::UpgradeFailed) => r == SessionAction::Drop,
                (
                    SessionState::Authenticating,
                    SessionEvent::Identified { auth_token, last_message },
                ) => r == (SessionAction::Authenticate { auth_token })
                    && final(self).last_message == last_message,
                (SessionState::Authenticating, SessionEvent::Unidentified { description }) => r
                    matches SessionAction::Refuse(ResponseError::InvalidHandshake(m)) && m@
                    == INVALID_HANDSHAKE_PREFIX@ + description@,
                (SessionState::Authenticating, SessionEvent::Authenticated { user_id }) => r == (
                SessionAction::Admit {
                    after: match old(self).last_message {
                        Some(i) => i,
                        None => 0,
                    },
                }) && final(self).uuid == Some(user_id),
                (SessionState::Authenticating, SessionEvent::AuthFailed { message }) => r
                    == SessionAction::Refuse(ResponseError::InternalError(message)),
                (SessionState::Active, SessionEvent::Failed { message }) => r
                    == SessionAction::EvictAndReport(ResponseError::InternalError(message)),
                (SessionState::Active, SessionEvent::TransportFailed) => r == SessionAction::Evict,
                (SessionState::Active, SessionEvent::PeerGone) => r == SessionAction::Evict,
                (SessionState::Closing, _) => r == SessionAction::Nothing,
                (SessionState::Closed, _) => r == SessionAction::Nothing,
                (SessionState::Active, _) => r == SessionAction::Nothing,
                (_, SessionEvent::ShutDown) => r == SessionAction::Nothing,
                _ => r == SessionAction::Drop,
            },
            old(self).state != SessionState::Authenticating ==> final(self).uuid == old(self).uuid,
    {
        let st = self.state;
        match st {
            SessionState::Closing => {
                if let SessionEvent::ShutDown = ev {
                    self.state = SessionState::Closed;
                }
                return SessionAction::Nothing;
            },
            SessionState::Closed => {
                return SessionAction::Nothing;
            },
            SessionState::Active => {
                return match ev {
                    SessionEvent::Failed { message } => {
                        self.state = SessionState::Closing;
                        SessionAction::EvictAndReport(ResponseError::InternalError(message))
                    },
                    SessionEvent::TransportFailed => {
                        self.state = SessionState::Closing;
                        SessionAction::Evict
                    },
                    SessionEvent::PeerGone => {
                        self.state = SessionState::Closing;
                        SessionAction::Evict
                    },
                    _ => SessionAction::Nothing,
                };
            },
            _ => {},
        }
        if let SessionEvent::ShutDown = ev {
            self.state = SessionState::Closed;
            return SessionAction::Nothing;
        }
        match (st, ev) {
            (SessionState::Connecting, SessionEvent::Accepted) => {
                self.state = SessionState::Handshaking;
                SessionAction::Negotiate
            },
            (SessionState::Handshaking, SessionEvent::Upgraded) => {
                self.state = SessionState::Authenticating;
                SessionAction::Introduce
            },
            (SessionState::Authenticating, SessionEvent::Identified { auth_token, last_message }) => {
                self.last_message = last_message;
                SessionAction::Authenticate { auth_token }
            },
            (SessionState::Authenticating, SessionEvent::Unidentified { description }) => {
                self.state = SessionState::Closing;
                let m = INVALID_HANDSHAKE_PREFIX.to_string().concat(description.as_str());
                SessionAction::Refuse(ResponseError::InvalidHandshake(m))
            },
            (SessionState::Authenticating, SessionEvent::Authenticated { user_id }) => {
                self.state = SessionState::Active;
                self.uuid = Some(user_id);
                let after: usize = match self.last_message {
                    Some(i) => i,
                    None => 0,
                };
                SessionAction::Admit { after }
            },
            (SessionState::Authenticating, SessionEvent::AuthFailed { message }) => {
                self.state = SessionState::Closing;
                SessionAction::Refuse(ResponseError::InternalError(message))
            },
            _ => {
                self.state = SessionState::Closing;
                SessionAction::Drop
            },
        }
    }
}

} // verus!
