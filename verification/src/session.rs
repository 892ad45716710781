//! The decisions of a session: its configuration, the three-way handshake
//! (what the client sends, what the server answers and what each side
//! accepts), the dispatch of inbound datagrams, liveness and jitter-buffer
//! sizing.
//!
//! Sockets, timers and tasks live with the caller, which performs the
//! actions these functions decide and feeds back what arrives.

use vstd::prelude::*;

use crate::constants::{
    DEFAULT_FRAME_DURATION_MS, DEFAULT_JITTER_BUFFER_MS, DEFAULT_MAX_BITRATE, DEFAULT_MTU,
    DEFAULT_SAMPLE_RATE, HANDSHAKE_RETRY_BASE_MS, HEARTBEAT_TIMEOUT_MS, PROTOCOL_VERSION,
};
use crate::error::Error;
use crate::floor::FloorMessage;
use crate::header::{Flags, PacketHeader};
use crate::message::{
    parse_accept, parse_confirm, parse_init, spec_message_code, spec_message_from_code, HandshakeAccept,
    HandshakeConfirm, HandshakeInit, MessageType,
};
use crate::packet::{parse_packet, PacketView};

verus! {

/// Role of the session in the handshake.
#[derive(Debug, Clone, Copy, PartialEq, Eq, Structural)]
pub enum SessionRole {
    /// Starts the handshake (sends `HANDSHAKE_INIT`).
    Client,
    /// Accepts the handshake (sends `HANDSHAKE_ACCEPT`).
    Server,
}

/// Latency class wanted from a transport; it tunes socket buffers, DSCP
/// marking and flushing.
#[derive(Debug, Clone, Copy, PartialEq, Eq, Structural)]
pub enum LatencyClass {
    /// Lowest latency, for real-time voice (≤ 20 ms end to end).
    RealTime,
    /// Streaming with minimal buffering.
    Interactive,
    /// Throughput over latency.
    Bulk,
}

impl Default for LatencyClass {
    fn default() -> (c: LatencyClass)
        ensures
            c == LatencyClass::RealTime,
    {
        LatencyClass::RealTime
    }
}

/// Errors of a session.
#[derive(Debug)]
pub enum TransportError {
    /// Error of the underlying socket.
    Io(String),
    /// The operation is not allowed in the current session state.
    InvalidState(&'static str),
    /// The peer did not answer in time.
    Timeout,
    /// The handshake was refused.
    Handshake(&'static str),
    /// A packet or payload was refused.
    Protocol(Error),
    /// The peer closed the session or went silent.
    PeerClosed(&'static str),
    /// The transport is closed.
    Closed,
}

/// Negotiable session parameters.
#[derive(Debug, Clone)]
pub struct Config {
    pub sample_rate: u32,
    pub channels: u8,
    pub frame_duration_ms: u8,
    pub max_bitrate: u32,
    /// Preferred codec (1 = PCM, 2 = Opus).
    pub codec_preferred: u8,
    /// Acceptable codecs, in local order of preference. The server takes the
    /// client's preferred codec when it is in this list, else the first
    /// entry; the client checks that the server's choice is in its own list.
    pub supported_codecs: Vec<u8>,
    /// Capability bits (defined by the application).
    pub capability_flags: u32,
    /// Jitter-buffer depth in milliseconds.
    pub jitter_buffer_ms: u16,
    /// Effective MTU in bytes.
    pub mtu: usize,
}

impl Default for Config {
    fn default() -> (c: Config)
        ensures
            c.sample_rate == DEFAULT_SAMPLE_RATE,
            c.channels == 1,
            c.frame_duration_ms == DEFAULT_FRAME_DURATION_MS,
            c.max_bitrate == DEFAULT_MAX_BITRATE,
            c.codec_preferred == 0x01,
            c.supported_codecs@ == seq![0x01u8, 0x02u8],
            c.capability_flags == 0,
            c.jitter_buffer_ms == DEFAULT_JITTER_BUFFER_MS,
            c.mtu == DEFAULT_MTU,
    {
        Config {
            sample_rate: DEFAULT_SAMPLE_RATE,
            channels: 1,
            frame_duration_ms: DEFAULT_FRAME_DURATION_MS,
            max_bitrate: DEFAULT_MAX_BITRATE,
            codec_preferred: 0x01,
            supported_codecs: vec![0x01, 0x02],
            capability_flags: 0,
            jitter_buffer_ms: DEFAULT_JITTER_BUFFER_MS,
            mtu: DEFAULT_MTU,
        }
    }
}

/// Whether `code` occurs in `list`.
fn contains_code(list: &Vec<u8>, code: u8) -> (b: bool)
    ensures
        b == list@.contains(code),
{
    let mut i: usize = 0;
    while i < list.len()
        invariant
            i <= list@.len(),
            forall|j: int| 0 <= j < i ==> list@[j] != code,
        decreases list@.len() - i,
    {
        if list[i] == code {
            assert(list@[i as int] == code);
            return true;
        }
        i += 1;
    }
    false
}

// ── Handshake ───────────────────────────────────────────────────────────────

/// The `HANDSHAKE_INIT` a client sends for `config` and its nonce.
pub open spec fn spec_client_init(config: Config, nonce: u32) -> HandshakeInit {
    HandshakeInit {
        protocol_version: PROTOCOL_VERSION,
        codec_preferred: config.codec_preferred,
        sample_rate: config.sample_rate,
        channels: config.channels,
        frame_duration_ms: config.frame_duration_ms,
        max_bitrate: config.max_bitrate,
        capability_flags: config.capability_flags,
        nonce,
    }
}

/// The init payload a client sends: its configuration and nonce.
pub fn client_init(config: &Config, nonce: u32) -> (init: HandshakeInit)
    ensures
        init == spec_client_init(*config, nonce),
{
    HandshakeInit {
        protocol_version: PROTOCOL_VERSION,
        codec_preferred: config.codec_preferred,
        sample_rate: config.sample_rate,
        channels: config.channels,
        frame_duration_ms: config.frame_duration_ms,
        max_bitrate: config.max_bitrate,
        capability_flags: config.capability_flags,
        nonce,
    }
}

/// The codec a server picks: the client's preference when supported
/// locally, else the first local codec, and none when the list is empty.
pub open spec fn spec_server_codec(supported: Seq<u8>, preferred: u8) -> Option<u8> {
    if supported.contains(preferred) {
        Some(preferred)
    } else if supported.len() > 0 {
        Some(supported[0])
    } else {
        None
    }
}

/// The server's answer to an init: refuse another protocol version, pick
/// the codec, echo the stream parameters and the nonce, cap the bitrate at
/// the local maximum and keep the capabilities both sides have.
pub open spec fn spec_server_accept(config: Config, init: HandshakeInit, session_id: u32) -> Result<
    HandshakeAccept,
    &'static str,
> {
    if init.protocol_version != 1 {
        Err("protocol version mismatch")
    } else {
        match spec_server_codec(config.supported_codecs@, init.codec_preferred) {
            None => Err("no supported codecs configured"),
            Some(codec) => Ok(
                HandshakeAccept {
                    protocol_version: 1,
                    codec_accepted: codec,
                    sample_rate: init.sample_rate,
                    channels: init.channels,
                    frame_duration_ms: init.frame_duration_ms,
                    max_bitrate: if init.max_bitrate <= config.max_bitrate {
                        init.max_bitrate
                    } else {
                        config.max_bitrate
                    },
                    capability_flags: init.capability_flags & config.capability_flags,
                    nonce: init.nonce,
                    session_id,
                },
            ),
        }
    }
}

/// The server side of the handshake: the accept payload for a received
/// init and a fresh session id, or why the handshake is refused.
pub fn server_accept(config: &Config, init: &HandshakeInit, session_id: u32) -> (r: Result<
    HandshakeAccept,
    TransportError,
>)
    ensures
        match spec_server_accept(*config, *init, session_id) {
            Ok(a) => r matches Ok(b) && b == a,
            Err(msg) => r matches Err(e) && e == TransportError::Handshake(msg),
        },
{
    if init.protocol_version != 1 {
        return Err(TransportError::Handshake("protocol version mismatch"));
    }
    let chosen_codec = if contains_code(&config.supported_codecs, init.codec_preferred) {
        init.codec_preferred
    } else if config.supported_codecs.len() > 0 {
        config.supported_codecs[0]
    } else {
        return Err(TransportError::Handshake("no supported codecs configured"));
    };
    let max_bitrate = if init.max_bitrate <= config.max_bitrate {
        init.max_bitrate
    } else {
        config.max_bitrate
    };
    Ok(
        HandshakeAccept {
            protocol_version: 1,
            codec_accepted: chosen_codec,
            sample_rate: init.sample_rate,
            channels: init.channels,
            frame_duration_ms: init.frame_duration_ms,
            max_bitrate,
            capability_flags: init.capability_flags & config.capability_flags,
            nonce: init.nonce,
            session_id,
        },
    )
}

/// What the client accepts: an answer to its own nonce that selects one of
/// its codecs; it then adopts that codec and the server's session id.
pub open spec fn spec_client_accepts(config: Config, nonce: u32, accept: HandshakeAccept) -> Result<
    (u8, u32),
    &'static str,
> {
    if accept.nonce != nonce {
        Err("nonce mismatch")
    } else if !config.supported_codecs@.contains(accept.codec_accepted) {
        Err("server selected unsupported codec")
    } else {
        Ok((accept.codec_accepted, accept.session_id))
    }
}

/// The client side: checks the server's accept against the nonce it sent
/// and its codec list; on success returns the negotiated codec and the
/// session id to confirm.
pub fn client_check_accept(config: &Config, nonce: u32, accept: &HandshakeAccept) -> (r: Result<
    (u8, u32),
    TransportError,
>)
    ensures
        match spec_client_accepts(*config, nonce, *accept) {
            Ok(v) => r matches Ok(w) && w == v,
            Err(msg) => r matches Err(e) && e == TransportError::Handshake(msg),
        },
{
    if accept.nonce != nonce {
        return Err(TransportError::Handshake("nonce mismatch"));
    }
    if !contains_code(&config.supported_codecs, accept.codec_accepted) {
        return Err(TransportError::Handshake("server selected unsupported codec"));
    }
    Ok((accept.codec_accepted, accept.session_id))
}

/// A client and a server that follow the handshake agree: a server with at
/// least one codec accepts the client's init, echoes its nonce and stream
/// parameters under the session id it issued, keeps the client's preferred
/// codec when it supports it, and the client, when it supports the codec
/// chosen, adopts that codec and that session id.
pub proof fn lemma_handshake_agreement(client: Config, server: Config, nonce: u32, session_id: u32)
    requires
        server.supported_codecs@.len() > 0,
    ensures
        spec_server_accept(server, spec_client_init(client, nonce), session_id) is Ok,
        spec_server_accept(server, spec_client_init(client, nonce), session_id) matches Ok(a) && a.session_id
            == session_id && a.nonce == nonce && a.sample_rate == client.sample_rate && a.channels
            == client.channels && a.frame_duration_ms == client.frame_duration_ms && (
        server.supported_codecs@.contains(client.codec_preferred) ==> a.codec_accepted
            == client.codec_preferred) && (client.supported_codecs@.contains(a.codec_accepted)
            ==> spec_client_accepts(client, nonce, a) == Ok::<(u8, u32), &'static str>(
            (a.codec_accepted, session_id),
        )),
{
}

/// The server's last check: the confirm carries the session id it issued.
pub fn server_check_confirm(confirm: &HandshakeConfirm, session_id: u32) -> (r: Result<(), TransportError>)
    ensures
        (r is Ok) <==> confirm.session_id == session_id,
        r matches Err(e) ==> e == TransportError::Handshake("session_id mismatch"),
{
    if confirm.session_id != session_id {
        return Err(TransportError::Handshake("session_id mismatch"));
    }
    Ok(())
}

/// The outcome of examining one datagram while waiting for a handshake message.
#[derive(Debug)]
pub enum HandshakeWait<T> {
    /// Not the awaited message (other sender, damaged packet or other type): keep waiting.
    Skip,
    /// The awaited message.
    Got(T),
    /// The awaited message type arrived but its payload is malformed: give up.
    Fail(Error),
}

/// Whether a datagram is a well-formed packet of message type `wanted`,
/// and its payload if so.
pub open spec fn awaited_payload(datagram: Seq<u8>, wanted: MessageType) -> Option<Seq<u8>> {
    match parse_packet(datagram) {
        Ok((h, p)) => if h.msg_type == spec_message_code(wanted) {
            Some(p)
        } else {
            None
        },
        Err(_) => None,
    }
}

/// Examines a datagram while the server waits for `HANDSHAKE_INIT` from
/// its expected peer: datagrams from other senders, damaged packets and
/// other message types are skipped, so a third host cannot disturb the
/// handshake.
pub fn server_await_init(datagram: &[u8], from_expected_peer: bool) -> (r: HandshakeWait<HandshakeInit>)
    ensures
        !from_expected_peer ==> r is Skip,
        from_expected_peer ==> match awaited_payload(datagram@, MessageType::HandshakeInit) {
            None => r is Skip,
            Some(p) => match parse_init(p) {
                Ok(i) => r matches HandshakeWait::Got(j) && j == i,
                Err(e) => r matches HandshakeWait::Fail(f) && f == e,
            },
        },
{
    if !from_expected_peer {
        return HandshakeWait::Skip;
    }
    let view = match PacketView::decode(datagram) {
        Ok(v) => v,
        Err(_) => return HandshakeWait::Skip,
    };
    if view.header().msg_type != MessageType::HandshakeInit.code() {
        return HandshakeWait::Skip;
    }
    match HandshakeInit::decode(view.payload()) {
        Ok(i) => HandshakeWait::Got(i),
        Err(e) => HandshakeWait::Fail(e),
    }
}

/// Examines a datagram while the server waits for `HANDSHAKE_CONFIRM` from
/// its expected peer; anything else is skipped.
pub fn server_await_confirm(datagram: &[u8], from_expected_peer: bool) -> (r: HandshakeWait<HandshakeConfirm>)
    ensures
        !from_expected_peer ==> r is Skip,
        from_expected_peer ==> match awaited_payload(datagram@, MessageType::HandshakeConfirm) {
            None => r is Skip,
            Some(p) => match parse_confirm(p) {
                Ok(c) => r matches HandshakeWait::Got(d) && d == c,
                Err(e) => r matches HandshakeWait::Fail(f) && f == e,
            },
        },
{
    if !from_expected_peer {
        return HandshakeWait::Skip;
    }
    let view = match PacketView::decode(datagram) {
        Ok(v) => v,
        Err(_) => return HandshakeWait::Skip,
    };
    if view.header().msg_type != MessageType::HandshakeConfirm.code() {
        return HandshakeWait::Skip;
    }
    match HandshakeConfirm::decode(view.payload()) {
        Ok(c) => HandshakeWait::Got(c),
        Err(e) => HandshakeWait::Fail(e),
    }
}

/// Examines the client's reply datagram: a damaged packet is an error, a
/// packet of another type is skipped (the client resends its init), and an
/// accept is decoded.
pub fn client_await_accept(datagram: &[u8]) -> (r: HandshakeWait<HandshakeAccept>)
    ensures
        match parse_packet(datagram@) {
            Err(e) => r matches HandshakeWait::Fail(f) && f == e,
            Ok((h, p)) => if h.msg_type == 0x02 {
                match parse_accept(p) {
                    Ok(a) => r matches HandshakeWait::Got(b) && b == a,
                    Err(e) => r matches HandshakeWait::Fail(f) && f == e,
                }
            } else {
                r is Skip
            },
        },
{
    let view = match PacketView::decode(datagram) {
        Ok(v) => v,
        Err(e) => return HandshakeWait::Fail(e),
    };
    if view.header().msg_type != MessageType::HandshakeAccept.code() {
        return HandshakeWait::Skip;
    }
    match HandshakeAccept::decode(view.payload()) {
        Ok(a) => HandshakeWait::Got(a),
        Err(e) => HandshakeWait::Fail(e),
    }
}

/// The number of init attempts after which the client gives up.
pub const CLIENT_HANDSHAKE_ATTEMPTS: u32 = 7;

/// How long the client waits for an answer after attempt `attempt` (from
/// zero): the base delay doubled per attempt, doubling at most four times.
pub fn handshake_retry_backoff_ms(attempt: u32) -> (ms: u64)
    ensures
        ms == HANDSHAKE_RETRY_BASE_MS * (if attempt < 4 {
            if attempt == 0 {
                1u64
            } else if attempt == 1 {
                2u64
            } else if attempt == 2 {
                4u64
            } else {
                8u64
            }
        } else {
            16u64
        }),
{
    let shift: u32 = if attempt < 4 {
        attempt
    } else {
        4
    };
    let ms = HANDSHAKE_RETRY_BASE_MS << (shift as u64);
    assert(ms == 100u64 * (if shift == 0 { 1u64 } else if shift == 1 { 2u64 } else if shift == 2 { 4u64 } else if shift == 3 { 8u64 } else { 16u64 })) by (bit_vector)
        requires
            ms == 100u64 << (shift as u64),
            shift <= 4,
    ;
    ms
}

// ── Steady state ────────────────────────────────────────────────────────────

/// What to do with an inbound packet of a given `msg_type`.
#[derive(Debug, Clone, Copy, PartialEq, Eq, Structural)]
pub enum InboundAction {
    /// An audio frame: record it in the metrics and the jitter buffer.
    DeliverAudio,
    /// A heartbeat: answer with a heartbeat acknowledgement.
    ReplyHeartbeatAck,
    /// The peer closed the session.
    PeerClosed,
    /// A known message with nothing to do here (acknowledgements, control).
    Ignore,
    /// An unknown message type: count an integrity error.
    IntegrityError,
}

/// The dispatch of inbound packets by message type.
pub open spec fn spec_inbound_action(msg_type: u8) -> InboundAction {
    match spec_message_from_code(msg_type) {
        Ok(MessageType::AudioFrame) => InboundAction::DeliverAudio,
        Ok(MessageType::Heartbeat) => InboundAction::ReplyHeartbeatAck,
        Ok(MessageType::Close) => InboundAction::PeerClosed,
        Ok(_) => InboundAction::Ignore,
        Err(_) => InboundAction::IntegrityError,
    }
}

/// Decides what a well-formed inbound packet calls for.
pub fn inbound_action(msg_type: u8) -> (a: InboundAction)
    ensures
        a == spec_inbound_action(msg_type),
{
    match MessageType::from_code(msg_type) {
        Ok(MessageType::AudioFrame) => InboundAction::DeliverAudio,
        Ok(MessageType::Heartbeat) => InboundAction::ReplyHeartbeatAck,
        Ok(MessageType::Close) => InboundAction::PeerClosed,
        Ok(_) => InboundAction::Ignore,
        Err(_) => InboundAction::IntegrityError,
    }
}

/// The push-to-talk signal a control message carries: `CONTROL_RESUME`
/// says the peer started talking, `CONTROL_PAUSE` that it stopped.
pub fn peer_ptt_signal(msg_type: u8) -> (s: Option<bool>)
    ensures
        s == (if msg_type == 0x31 {
            Some(true)
        } else if msg_type == 0x30 {
            Some(false)
        } else {
            None::<bool>
        }),
{
    if msg_type == MessageType::ControlResume.code() {
        Some(true)
    } else if msg_type == MessageType::ControlPause.code() {
        Some(false)
    } else {
        None
    }
}

/// The two messages that announce this side's push-to-talk state, in the
/// order they are sent: the floor-control message to the arbiter (a request
/// on press, a release on release), then the control message to the peer
/// (resume on press, pause on release).
pub fn ptt_messages(talking: bool) -> (m: (FloorMessage, MessageType))
    ensures
        m == (if talking {
            (FloorMessage::Request, MessageType::ControlResume)
        } else {
            (FloorMessage::Release, MessageType::ControlPause)
        }),
{
    if talking {
        (FloorMessage::Request, MessageType::ControlResume)
    } else {
        (FloorMessage::Release, MessageType::ControlPause)
    }
}

/// Whether the peer went silent: something was received once, and nothing
/// for longer than the heartbeat timeout since (times in microseconds).
pub fn peer_timed_out(now_us: u64, last_rx_us: u64) -> (b: bool)
    ensures
        b <==> (last_rx_us != 0 && now_us > last_rx_us && now_us - last_rx_us > HEARTBEAT_TIMEOUT_MS * 1000),
{
    let elapsed = if now_us > last_rx_us {
        now_us - last_rx_us
    } else {
        0
    };
    last_rx_us != 0 && elapsed > HEARTBEAT_TIMEOUT_MS * 1_000
}

/// The header of an outgoing audio frame.
pub fn audio_header(session_id: u32, sequence: u32, timestamp_us: u64) -> (h: PacketHeader)
    ensures
        h == (PacketHeader {
            version: 1,
            flags: Flags(0),
            msg_type: 0x10,
            session_id,
            sequence,
            timestamp: timestamp_us,
        }),
{
    PacketHeader {
        version: 1,
        flags: Flags::empty(),
        msg_type: MessageType::AudioFrame.code(),
        session_id,
        sequence,
        timestamp: timestamp_us,
    }
}

/// The smallest power of two at least `n` (for `1 <= n <= 2^31`).
pub open spec fn next_pow2(n: nat) -> nat
    decreases n,
{
    if n <= 1 {
        1
    } else {
        2 * next_pow2(((n + 1) / 2) as nat)
    }
}

proof fn lemma_next_pow2_bound(n: nat)
    ensures
        n <= next_pow2(n),
        next_pow2(n) >= 1,
        n >= 1 ==> next_pow2(n) < 2 * n,
    decreases n,
{
    if n > 1 {
        lemma_next_pow2_bound(((n + 1) / 2) as nat);
    }
}

/// Jitter-buffer slots for a depth and a frame duration: the frames the
/// depth covers (at least one; a zero duration counts as 1 ms), rounded up
/// to a power of two, and at least 16.
pub open spec fn spec_jitter_slots(buffer_ms: u16, frame_ms: u8) -> nat {
    let fm: nat = if frame_ms == 0 {
        1
    } else {
        frame_ms as nat
    };
    let frames: nat = if buffer_ms as nat / fm == 0 {
        1
    } else {
        buffer_ms as nat / fm
    };
    let p = next_pow2(frames);
    if p < 16 {
        16
    } else {
        p
    }
}

/// The number of jitter-buffer slots for a buffer depth and frame duration.
pub fn jitter_slots(buffer_ms: u16, frame_ms: u8) -> (slots: u32)
    ensures
        slots == spec_jitter_slots(buffer_ms, frame_ms),
{
    let fm: u16 = if frame_ms == 0 {
        1
    } else {
        frame_ms as u16
    };
    let q = buffer_ms / fm;
    let frames: u32 = if q == 0 {
        1
    } else {
        q as u32
    };
    proof {
        lemma_next_pow2_bound(frames as nat);
    }
    let mut p: u32 = 1;
    let mut rest: u32 = frames;
    let ghost mut k: nat = 0;
    while rest > 1
        invariant
            1 <= rest <= frames,
            frames <= 65535,
            p * next_pow2(rest as nat) == next_pow2(frames as nat),
            next_pow2(frames as nat) < 2 * frames,
            p >= 1,
            p * rest <= 2 * frames,
        decreases rest,
    {
        proof {
            lemma_next_pow2_bound(((rest + 1) / 2) as nat);
        }
        assert(p * next_pow2(rest as nat) == 2 * p * next_pow2(((rest as nat + 1) / 2) as nat)) by (nonlinear_arith)
            requires
                next_pow2(rest as nat) == 2 * next_pow2(((rest as nat + 1) / 2) as nat),
        ;
        assert(p * 2 * ((rest + 1) / 2) <= 2 * frames) by (nonlinear_arith)
            requires
                p * next_pow2(rest as nat) == 2 * p * next_pow2(((rest as nat + 1) / 2) as nat),
                ((rest + 1) / 2) as nat <= next_pow2(((rest as nat + 1) / 2) as nat),
                p * next_pow2(rest as nat) == next_pow2(frames as nat),
                next_pow2(frames as nat) < 2 * frames,
                p >= 1,
        ;
        assert(p <= frames) by (nonlinear_arith)
            requires
                p * rest <= 2 * frames,
                rest >= 2,
        ;
        p = p * 2;
        rest = (rest + 1) / 2;
    }
    if p < 16 {
        16
    } else {
        p
    }
}

} // verus!
