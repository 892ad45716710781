//! Push-to-talk floor control: the state machine of the permission to
//! transmit, and the binary payload of floor-control messages.
//!
//! Only one participant holds the floor at a time. The controller moves
//! IDLE → REQUESTED → GRANTED → RELEASED, with a maximum transmission time
//! (30 s by default, as in 3GPP MCX).

use vstd::prelude::*;

use crate::error::Error;
use crate::wire::{be_u32, get_u32, get_u32_at, lemma_u32_roundtrip, put_u32, splice};

verus! {

/// Longest transmission without an explicit release, in milliseconds.
pub const FLOOR_TIMEOUT_MS: u64 = 30_000;

/// State of the floor.
#[derive(Debug, Clone, Copy, PartialEq, Eq, Structural)]
pub enum FloorState {
    /// Nobody holds the floor.
    Idle,
    /// A request was sent or received; the arbiter has not answered yet.
    Requested,
    /// The floor was granted to a participant.
    Granted,
    /// The floor was released; passing state before Idle.
    Released,
}

impl FloorState {
    /// The lower-case name of the state.
    pub fn to_string(&self) -> (s: String)
        ensures
            s@ == floor_state_name(*self),
    {
        match self {
            FloorState::Idle => "idle".to_owned(),
            FloorState::Requested => "requested".to_owned(),
            FloorState::Granted => "granted".to_owned(),
            FloorState::Released => "released".to_owned(),
        }
    }
}

/// The lower-case name of a state.
pub open spec fn floor_state_name(s: FloorState) -> Seq<char> {
    match s {
        FloorState::Idle => "idle"@,
        FloorState::Requested => "requested"@,
        FloorState::Granted => "granted"@,
        FloorState::Released => "released"@,
    }
}

/// Events that drive the state machine.
#[derive(Debug, Clone, Copy, PartialEq, Eq, Structural)]
pub enum FloorEvent {
    /// The local user asks for the floor.
    Request,
    /// The arbiter grants the floor (to the local user or another one).
    Grant,
    /// The arbiter denies the request.
    Deny,
    /// The holder gives the floor back.
    Release,
    /// Another participant took the floor.
    Taken,
    /// The maximum transmission time ran out.
    Timeout,
    /// Forced reset (reconnection, signal loss).
    Reset,
}

/// The floor-control messages exchanged with the arbiter. They travel as
/// application-extension message types.
#[derive(Debug, Clone, Copy, PartialEq, Eq, Structural)]
pub enum FloorMessage {
    /// A participant asks for the floor.
    Request,
    /// The arbiter grants the floor to the one that asked.
    Grant,
    /// The arbiter refuses: someone else holds the floor.
    Deny,
    /// The holder gives the floor back (and the arbiter tells the others).
    Release,
    /// The arbiter tells the others that someone took the floor.
    Taken,
}

/// The `msg_type` byte of each floor-control message.
pub open spec fn floor_message_code(m: FloorMessage) -> u8 {
    match m {
        FloorMessage::Request => 0x40,
        FloorMessage::Grant => 0x41,
        FloorMessage::Deny => 0x42,
        FloorMessage::Release => 0x43,
        FloorMessage::Taken => 0x44,
    }
}

/// The floor-control message a `msg_type` byte stands for, if any.
pub open spec fn floor_message_of(code: u8) -> Option<FloorMessage> {
    if code == 0x40 {
        Some(FloorMessage::Request)
    } else if code == 0x41 {
        Some(FloorMessage::Grant)
    } else if code == 0x42 {
        Some(FloorMessage::Deny)
    } else if code == 0x43 {
        Some(FloorMessage::Release)
    } else if code == 0x44 {
        Some(FloorMessage::Taken)
    } else {
        None
    }
}

/// Each floor-control message is read back from its code.
pub proof fn lemma_floor_message_code_roundtrip(m: FloorMessage)
    ensures
        floor_message_of(floor_message_code(m)) == Some(m),
        0x40 <= floor_message_code(m) <= 0x7F,
{
}

impl FloorMessage {
    /// The `msg_type` byte of this message.
    pub fn code(self) -> (c: u8)
        ensures
            c == floor_message_code(self),
    {
        match self {
            FloorMessage::Request => 0x40,
            FloorMessage::Grant => 0x41,
            FloorMessage::Deny => 0x42,
            FloorMessage::Release => 0x43,
            FloorMessage::Taken => 0x44,
        }
    }

    /// The floor-control message of a `msg_type` byte, if it is one.
    pub fn from_code(code: u8) -> (m: Option<FloorMessage>)
        ensures
            m == floor_message_of(code),
    {
        if code == 0x40 {
            Some(FloorMessage::Request)
        } else if code == 0x41 {
            Some(FloorMessage::Grant)
        } else if code == 0x42 {
            Some(FloorMessage::Deny)
        } else if code == 0x43 {
            Some(FloorMessage::Release)
        } else if code == 0x44 {
            Some(FloorMessage::Taken)
        } else {
            None
        }
    }
}

/// A transition the state machine does not allow.
#[derive(Debug, Clone, Copy, PartialEq, Eq, Structural)]
pub struct FloorTransitionError {
    pub from: FloorState,
    pub event: FloorEvent,
}

/// The transition table: from a state and the current holder, an event for
/// participant `ssrc` leads to a new state and holder, or is not allowed.
pub open spec fn floor_step(state: FloorState, holder: u32, event: FloorEvent, ssrc: u32) -> Option<
    (FloorState, u32),
> {
    match (state, event) {
        (FloorState::Idle, FloorEvent::Request) => Some((FloorState::Requested, ssrc)),
        (FloorState::Idle, FloorEvent::Reset) => Some((FloorState::Idle, holder)),
        (FloorState::Idle, FloorEvent::Grant) => Some((FloorState::Granted, ssrc)),
        (FloorState::Requested, FloorEvent::Grant) => Some((FloorState::Granted, ssrc)),
        (FloorState::Requested, FloorEvent::Deny) => Some((FloorState::Idle, 0)),
        (FloorState::Requested, FloorEvent::Taken) => Some((FloorState::Granted, ssrc)),
        (FloorState::Requested, FloorEvent::Reset) => Some((FloorState::Idle, 0)),
        (FloorState::Requested, FloorEvent::Timeout) => Some((FloorState::Idle, 0)),
        (FloorState::Granted, FloorEvent::Release) => Some((FloorState::Released, 0)),
        (FloorState::Granted, FloorEvent::Timeout) => Some((FloorState::Released, 0)),
        (FloorState::Granted, FloorEvent::Taken) => Some((FloorState::Granted, ssrc)),
        (FloorState::Granted, FloorEvent::Reset) => Some((FloorState::Idle, 0)),
        (FloorState::Released, FloorEvent::Reset) => Some((FloorState::Idle, 0)),
        (FloorState::Released, FloorEvent::Release) => Some((FloorState::Idle, 0)),
        (FloorState::Released, FloorEvent::Request) => Some((FloorState::Requested, ssrc)),
        (FloorState::Released, FloorEvent::Grant) => Some((FloorState::Granted, ssrc)),
        _ => None,
    }
}

/// The invariant of every controller: while the floor is free nobody is
/// recorded as holding it.
pub open spec fn floor_consistent(state: FloorState, holder: u32) -> bool {
    (state == FloorState::Idle || state == FloorState::Released) ==> holder == 0
}

/// Every allowed transition keeps the controller consistent.
pub proof fn lemma_floor_step_consistent(state: FloorState, holder: u32, event: FloorEvent, ssrc: u32)
    requires
        floor_consistent(state, holder),
    ensures
        floor_step(state, holder, event, ssrc) matches Some((s, h)) ==> floor_consistent(s, h),
{
}

/// The floor can be requested whenever it is free: from Idle or from
/// Released, a request of `ssrc` is allowed and leads to Requested with
/// `ssrc` recorded as the one asking. From the other states a request is
/// refused.
pub proof fn lemma_floor_request_when_available(state: FloorState, holder: u32, ssrc: u32)
    ensures
        (state == FloorState::Idle || state == FloorState::Released) ==> floor_step(
            state,
            holder,
            FloorEvent::Request,
            ssrc,
        ) == Some((FloorState::Requested, ssrc)),
        (state == FloorState::Requested || state == FloorState::Granted) ==> floor_step(
            state,
            holder,
            FloorEvent::Request,
            ssrc,
        ) is None,
{
}

/// A full push-to-talk turn leaves the floor requestable again: request,
/// grant and release lead to Released, from which the next request is
/// allowed.
pub proof fn lemma_floor_turn_repeats(holder: u32, ssrc: u32)
    requires
        floor_consistent(FloorState::Idle, holder),
    ensures
        floor_step(FloorState::Idle, holder, FloorEvent::Request, ssrc) == Some((FloorState::Requested, ssrc)),
        floor_step(FloorState::Requested, ssrc, FloorEvent::Grant, ssrc) == Some((FloorState::Granted, ssrc)),
        floor_step(FloorState::Granted, ssrc, FloorEvent::Release, ssrc) == Some((FloorState::Released, 0u32)),
        floor_step(FloorState::Released, 0u32, FloorEvent::Request, ssrc) == Some((FloorState::Requested, ssrc)),
{
}

/// A reset from any consistent state is allowed and leads to Idle with no holder.
pub proof fn lemma_floor_reset(state: FloorState, holder: u32, ssrc: u32)
    requires
        floor_consistent(state, holder),
    ensures
        floor_step(state, holder, FloorEvent::Reset, ssrc) == Some((FloorState::Idle, 0u32)),
{
}

/// Whoever holds a granted floor is the participant named by the event that
/// led to it (a grant or a take-over).
pub proof fn lemma_floor_granted_holder(state: FloorState, holder: u32, event: FloorEvent, ssrc: u32)
    ensures
        floor_step(state, holder, event, ssrc) matches Some((FloorState::Granted, h)) ==> (h == ssrc
            && (event == FloorEvent::Grant || event == FloorEvent::Taken)),
{
}

/// The floor state machine.
///
/// Works on the client (optimistic: counts on the grant to come) and on the
/// arbiter (authoritative: decides who gets the floor).
#[derive(Debug, Clone, Copy)]
pub struct FloorController {
    state: FloorState,
    /// Participant holding the floor (0 = nobody).
    holder_ssrc: u32,
    /// Maximum transmission time in milliseconds.
    max_transmit_ms: u64,
}

impl View for FloorController {
    type V = (FloorState, u32, u64);

    closed spec fn view(&self) -> (FloorState, u32, u64) {
        (self.state, self.holder_ssrc, self.max_transmit_ms)
    }
}

impl FloorController {
    #[verifier::type_invariant]
    spec fn consistent(self) -> bool {
        floor_consistent(self.state, self.holder_ssrc)
    }

    /// A controller in Idle, with the given maximum transmission time.
    pub fn new(max_transmit_ms: u64) -> (c: FloorController)
        ensures
            c@ == (FloorState::Idle, 0u32, max_transmit_ms),
    {
        FloorController { state: FloorState::Idle, holder_ssrc: 0, max_transmit_ms }
    }

    /// A controller in Idle with the standard 30 s maximum.
    pub fn default() -> (c: FloorController)
        ensures
            c@ == (FloorState::Idle, 0u32, FLOOR_TIMEOUT_MS),
    {
        FloorController::new(FLOOR_TIMEOUT_MS)
    }

    /// The current state.
    pub fn state(&self) -> (s: FloorState)
        ensures
            s == self@.0,
    {
        self.state
    }

    /// The participant holding the floor (0 if nobody); always 0 while the
    /// floor is free.
    pub fn holder(&self) -> (h: u32)
        ensures
            h == self@.1,
            floor_consistent(self@.0, h),
    {
        proof {
            use_type_invariant(self);
        }
        self.holder_ssrc
    }

    /// The maximum transmission time in milliseconds.
    pub fn max_transmit_ms(&self) -> (m: u64)
        ensures
            m == self@.2,
    {
        self.max_transmit_ms
    }

    /// Whether the floor can be requested.
    pub fn is_available(&self) -> (b: bool)
        ensures
            b <==> (self@.0 == FloorState::Idle || self@.0 == FloorState::Released),
    {
        matches!(self.state, FloorState::Idle | FloorState::Released)
    }

    /// Whether somebody holds the floor now.
    pub fn is_granted(&self) -> (b: bool)
        ensures
            b <==> self@.0 == FloorState::Granted,
    {
        matches!(self.state, FloorState::Granted)
    }

    /// Whether the participant `ssrc` holds the floor.
    pub fn is_holder(&self, ssrc: u32) -> (b: bool)
        ensures
            b <==> (self@.0 == FloorState::Granted && self@.1 == ssrc),
    {
        self.state == FloorState::Granted && self.holder_ssrc == ssrc
    }

    /// Applies an event about participant `ssrc` (0 for events without a
    /// subject, such as Timeout or Reset). An allowed transition moves the
    /// controller as the table says and returns the new state; a transition
    /// that is not allowed leaves the controller as it was and says so.
    pub fn transition(&mut self, event: FloorEvent, ssrc: u32) -> (r: Result<FloorState, FloorTransitionError>)
        ensures
            match floor_step(old(self)@.0, old(self)@.1, event, ssrc) {
                Some((s, h)) => r == Ok::<FloorState, FloorTransitionError>(s) && final(self)@ == (
                s,
                h,
                old(self)@.2,
            ),
                None => r == Err::<FloorState, FloorTransitionError>(
                    FloorTransitionError { from: old(self)@.0, event },
                ) && final(self)@ == old(self)@,
            },
    {
        proof {
            use_type_invariant(&*self);
        }
        let holder = self.holder_ssrc;
        let next: (FloorState, u32) = match (self.state, event) {
            (FloorState::Idle, FloorEvent::Request) => (FloorState::Requested, ssrc),
            (FloorState::Idle, FloorEvent::Reset) => (FloorState::Idle, holder),
            // Direct grant without a prior request (an authoritative arbiter may send one).
            (FloorState::Idle, FloorEvent::Grant) => (FloorState::Granted, ssrc),
            (FloorState::Requested, FloorEvent::Grant) => (FloorState::Granted, ssrc),
            (FloorState::Requested, FloorEvent::Deny) => (FloorState::Idle, 0),
            // Another peer was granted first.
            (FloorState::Requested, FloorEvent::Taken) => (FloorState::Granted, ssrc),
            (FloorState::Requested, FloorEvent::Reset) | (FloorState::Requested, FloorEvent::Timeout) => (
                FloorState::Idle,
                0,
            ),
            (FloorState::Granted, FloorEvent::Release) => (FloorState::Released, 0),
            (FloorState::Granted, FloorEvent::Timeout) => (FloorState::Released, 0),
            // The arbiter gave the floor to another participant.
            (FloorState::Granted, FloorEvent::Taken) => (FloorState::Granted, ssrc),
            (FloorState::Granted, FloorEvent::Reset) => (FloorState::Idle, 0),
            (FloorState::Released, FloorEvent::Reset) | (FloorState::Released, FloorEvent::Release) => (
                FloorState::Idle,
                0,
            ),
            (FloorState::Released, FloorEvent::Request) => (FloorState::Requested, ssrc),
            (FloorState::Released, FloorEvent::Grant) => (FloorState::Granted, ssrc),
            (from, event) => {
                return Err(FloorTransitionError { from, event });
            },
        };
        *self = FloorController { state: next.0, holder_ssrc: next.1, max_transmit_ms: self.max_transmit_ms };
        Ok(next.0)
    }
}

/// Payload shared by the floor-control messages (request, grant, deny,
/// release, taken): the participant the message is about.
///
/// ```text
/// ssrc [4 bytes, big-endian]
/// ```
#[derive(Debug, Clone, Copy, PartialEq, Eq, Structural)]
pub struct FloorPayload {
    pub ssrc: u32,
}

/// The floor payload read from the start of `s`.
pub open spec fn parse_floor_payload(s: Seq<u8>) -> Result<FloorPayload, Error> {
    if s.len() < 4 {
        Err(Error::MalformedPayload)
    } else {
        Ok(FloorPayload { ssrc: get_u32(s, 0) })
    }
}

/// Decoding the encoding of a floor payload, whatever follows it, gives it back.
pub proof fn lemma_floor_payload_roundtrip(p: FloorPayload, rest: Seq<u8>)
    ensures
        parse_floor_payload(be_u32(p.ssrc) + rest) == Ok::<FloorPayload, Error>(p),
{
    lemma_u32_roundtrip(p.ssrc);
}

impl FloorPayload {
    pub const SIZE: usize = 4;

    /// Writes the 4-byte payload at the start of `buf`.
    pub fn encode(&self, buf: &mut [u8]) -> (r: Result<(), Error>)
        ensures
            match r {
                Ok(()) => old(buf)@.len() >= 4 && final(buf)@ == splice(old(buf)@, 0, be_u32(self.ssrc)),
                Err(e) => old(buf)@.len() < 4 && e == Error::BufferTooSmall && final(buf)@ == old(buf)@,
            },
    {
        if buf.len() < Self::SIZE {
            return Err(Error::BufferTooSmall);
        }
        put_u32(buf, 0, self.ssrc);
        Ok(())
    }

    /// Reads the payload from the first 4 bytes of `buf`.
    pub fn decode(buf: &[u8]) -> (r: Result<FloorPayload, Error>)
        ensures
            r == parse_floor_payload(buf@),
    {
        if buf.len() < Self::SIZE {
            return Err(Error::MalformedPayload);
        }
        Ok(FloorPayload { ssrc: get_u32_at(buf, 0) })
    }
}

} // verus!
