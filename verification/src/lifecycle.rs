//! The life cycle of a session: its states and the events that move it.

use vstd::prelude::*;

verus! {

/// The state of a session.
#[derive(Debug, Clone, Copy, PartialEq, Eq, Structural)]
pub enum SessionState {
    /// Created, no handshake yet.
    Idle,
    /// Running the handshake as client.
    Connecting,
    /// Running the handshake as server.
    Accepting,
    /// Handshake done: audio flows.
    Active,
    /// Audio paused by the peer.
    Paused,
    /// Close sent, waiting to finish.
    Closing,
    /// Finished; no event moves it again.
    Closed,
}

/// What happens to a session.
#[derive(Debug, Clone, Copy, PartialEq, Eq, Structural)]
pub enum SessionEvent {
    StartConnect,
    StartAccept,
    HandshakeOk,
    HandshakeTimeout,
    Pause,
    Resume,
    PeerClosed,
    PeerTimeout,
    Close,
}

/// The state after an event, or `None` when the event is not allowed in
/// that state.
pub open spec fn session_step(s: SessionState, e: SessionEvent) -> Option<SessionState> {
    match (s, e) {
        (SessionState::Idle, SessionEvent::StartConnect) => Some(SessionState::Connecting),
        (SessionState::Idle, SessionEvent::StartAccept) => Some(SessionState::Accepting),
        (SessionState::Connecting, SessionEvent::HandshakeOk) => Some(SessionState::Active),
        (SessionState::Accepting, SessionEvent::HandshakeOk) => Some(SessionState::Active),
        (SessionState::Connecting, SessionEvent::HandshakeTimeout) => Some(SessionState::Closed),
        (SessionState::Accepting, SessionEvent::HandshakeTimeout) => Some(SessionState::Closed),
        (SessionState::Active, SessionEvent::Pause) => Some(SessionState::Paused),
        (SessionState::Paused, SessionEvent::Resume) => Some(SessionState::Active),
        (SessionState::Active, SessionEvent::PeerClosed) => Some(SessionState::Closed),
        (SessionState::Paused, SessionEvent::PeerClosed) => Some(SessionState::Closed),
        (SessionState::Active, SessionEvent::PeerTimeout) => Some(SessionState::Closed),
        (SessionState::Paused, SessionEvent::PeerTimeout) => Some(SessionState::Closed),
        (SessionState::Active, SessionEvent::Close) => Some(SessionState::Closing),
        (SessionState::Paused, SessionEvent::Close) => Some(SessionState::Closing),
        (SessionState::Idle, SessionEvent::Close) => Some(SessionState::Closed),
        (SessionState::Connecting, SessionEvent::Close) => Some(SessionState::Closed),
        (SessionState::Accepting, SessionEvent::Close) => Some(SessionState::Closed),
        (SessionState::Closing, SessionEvent::Close) => Some(SessionState::Closed),
        _ => None,
    }
}

/// A closed session stays closed, and audio flows only after a completed
/// handshake: `Active` is entered from a handshake state or from `Paused`.
pub proof fn lemma_session_closed_is_final(e: SessionEvent, s: SessionState)
    ensures
        session_step(SessionState::Closed, e) is None,
        session_step(s, e) == Some(SessionState::Active) ==> (s == SessionState::Connecting || s
            == SessionState::Accepting || s == SessionState::Paused),
{
}

/// Closing always ends: from every state but Closed, a Close event is
/// allowed, and either closes the session at once or leads to a state from
/// which a second Close closes it. Active and Paused go through Closing.
pub proof fn lemma_close_reaches_closed(s: SessionState)
    ensures
        s != SessionState::Closed ==> (session_step(s, SessionEvent::Close) matches Some(t) && (t
            == SessionState::Closed || session_step(t, SessionEvent::Close) == Some(SessionState::Closed))),
        (s == SessionState::Active || s == SessionState::Paused) ==> session_step(s, SessionEvent::Close) == Some(
            SessionState::Closing,
        ),
        session_step(SessionState::Closing, SessionEvent::Close) == Some(SessionState::Closed),
{
}

/// A refused event.
#[derive(Debug, Clone, Copy, PartialEq, Eq, Structural)]
pub struct InvalidTransition {
    pub from: SessionState,
    pub event: SessionEvent,
}

/// The state machine of a session.
#[derive(Debug, Clone, Copy)]
pub struct SessionStateMachine {
    state: SessionState,
}

impl View for SessionStateMachine {
    type V = SessionState;

    closed spec fn view(&self) -> SessionState {
        self.state
    }
}

impl SessionStateMachine {
    /// A session in `Idle`.
    pub fn new() -> (m: SessionStateMachine)
        ensures
            m@ == SessionState::Idle,
    {
        SessionStateMachine { state: SessionState::Idle }
    }

    /// The current state.
    pub fn state(&self) -> (s: SessionState)
        ensures
            s == self@,
    {
        self.state
    }

    /// Applies an event: an allowed one moves the machine and returns the
    /// new state; a refused one leaves it as it was.
    pub fn transition(&mut self, event: SessionEvent) -> (r: Result<SessionState, InvalidTransition>)
        ensures
            match session_step(old(self)@, event) {
                Some(next) => r == Ok::<SessionState, InvalidTransition>(next) && final(self)@ == next,
                None => r == Err::<SessionState, InvalidTransition>(
                    InvalidTransition { from: old(self)@, event },
                ) && final(self)@ == old(self)@,
            },
    {
        let next = match (self.state, event) {
            (SessionState::Idle, SessionEvent::StartConnect) => SessionState::Connecting,
            (SessionState::Idle, SessionEvent::StartAccept) => SessionState::Accepting,
            (SessionState::Connecting, SessionEvent::HandshakeOk) => SessionState::Active,
            (SessionState::Accepting, SessionEvent::HandshakeOk) => SessionState::Active,
            (SessionState::Connecting, SessionEvent::HandshakeTimeout) => SessionState::Closed,
            (SessionState::Accepting, SessionEvent::HandshakeTimeout) => SessionState::Closed,
            (SessionState::Active, SessionEvent::Pause) => SessionState::Paused,
            (SessionState::Paused, SessionEvent::Resume) => SessionState::Active,
            (SessionState::Active, SessionEvent::PeerClosed) => SessionState::Closed,
            (SessionState::Paused, SessionEvent::PeerClosed) => SessionState::Closed,
            (SessionState::Active, SessionEvent::PeerTimeout) => SessionState::Closed,
            (SessionState::Paused, SessionEvent::PeerTimeout) => SessionState::Closed,
            (SessionState::Active, SessionEvent::Close) => SessionState::Closing,
            (SessionState::Paused, SessionEvent::Close) => SessionState::Closing,
            (SessionState::Idle, SessionEvent::Close) => SessionState::Closed,
            (SessionState::Connecting, SessionEvent::Close) => SessionState::Closed,
            (SessionState::Accepting, SessionEvent::Close) => SessionState::Closed,
            (SessionState::Closing, SessionEvent::Close) => SessionState::Closed,
            (from, event) => {
                return Err(InvalidTransition { from, event });
            },
        };
        self.state = next;
        Ok(next)
    }
}

} // verus!
