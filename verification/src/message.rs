//! Message types of the `msg_type` header byte, and the structured payloads
//! of the handshake.

use vstd::prelude::*;

use crate::error::Error;
use crate::wire::{
    be_u32, get_u32, get_u32_at, lemma_u32_roundtrip, put_u32, splice,
};

verus! {

/// Codes of the `msg_type` header byte.
#[derive(Debug, Clone, Copy, PartialEq, Eq, Structural)]
#[non_exhaustive]
pub enum MessageType {
    HandshakeInit,
    HandshakeAccept,
    HandshakeConfirm,
    AudioFrame,
    AudioFragment,
    Heartbeat,
    HeartbeatAck,
    ControlPause,
    ControlResume,
    ControlMetrics,
    /// The range `0x40..=0x7F` is reserved for application extensions.
    Extension(u8),
    Error,
    Close,
}

/// The wire code of a message type.
pub open spec fn spec_message_code(m: MessageType) -> u8 {
    match m {
        MessageType::HandshakeInit => 0x01,
        MessageType::HandshakeAccept => 0x02,
        MessageType::HandshakeConfirm => 0x03,
        MessageType::AudioFrame => 0x10,
        MessageType::AudioFragment => 0x11,
        MessageType::Heartbeat => 0x20,
        MessageType::HeartbeatAck => 0x21,
        MessageType::ControlPause => 0x30,
        MessageType::ControlResume => 0x31,
        MessageType::ControlMetrics => 0x32,
        MessageType::Extension(b) => b,
        MessageType::Error => 0xFE,
        MessageType::Close => 0xFF,
    }
}

/// The message type a wire code names, or the refusal of an unknown code.
pub open spec fn spec_message_from_code(code: u8) -> Result<MessageType, Error> {
    if code == 0x01 {
        Ok(MessageType::HandshakeInit)
    } else if code == 0x02 {
        Ok(MessageType::HandshakeAccept)
    } else if code == 0x03 {
        Ok(MessageType::HandshakeConfirm)
    } else if code == 0x10 {
        Ok(MessageType::AudioFrame)
    } else if code == 0x11 {
        Ok(MessageType::AudioFragment)
    } else if code == 0x20 {
        Ok(MessageType::Heartbeat)
    } else if code == 0x21 {
        Ok(MessageType::HeartbeatAck)
    } else if code == 0x30 {
        Ok(MessageType::ControlPause)
    } else if code == 0x31 {
        Ok(MessageType::ControlResume)
    } else if code == 0x32 {
        Ok(MessageType::ControlMetrics)
    } else if 0x40 <= code <= 0x7F {
        Ok(MessageType::Extension(code))
    } else if code == 0xFE {
        Ok(MessageType::Error)
    } else if code == 0xFF {
        Ok(MessageType::Close)
    } else {
        Err(Error::UnknownMessageType(code))
    }
}

/// A message type that the wire can carry: an extension must use a code of
/// the extension range.
pub open spec fn is_wire_message(m: MessageType) -> bool {
    m matches MessageType::Extension(b) ==> 0x40 <= b <= 0x7F
}

/// Every accepted code reads back as itself, and every message type the
/// wire can carry is recovered from its own code.
pub proof fn lemma_message_code_roundtrip(code: u8, m: MessageType)
    ensures
        spec_message_from_code(code) matches Ok(found) ==> spec_message_code(found) == code,
        is_wire_message(m) ==> spec_message_from_code(spec_message_code(m)) == Ok::<MessageType, Error>(m),
{
}

impl MessageType {
    /// The stable numeric code of the message (the `msg_type` byte).
    pub fn code(self) -> (c: u8)
        ensures
            c == spec_message_code(self),
    {
        match self {
            MessageType::HandshakeInit => 0x01,
            MessageType::HandshakeAccept => 0x02,
            MessageType::HandshakeConfirm => 0x03,
            MessageType::AudioFrame => 0x10,
            MessageType::AudioFragment => 0x11,
            MessageType::Heartbeat => 0x20,
            MessageType::HeartbeatAck => 0x21,
            MessageType::ControlPause => 0x30,
            MessageType::ControlResume => 0x31,
            MessageType::ControlMetrics => 0x32,
            MessageType::Extension(b) => b,
            MessageType::Error => 0xFE,
            MessageType::Close => 0xFF,
        }
    }

    /// The message type of a code; unknown codes are refused.
    pub fn from_code(code: u8) -> (r: Result<MessageType, Error>)
        ensures
            r == spec_message_from_code(code),
    {
        match code {
            0x01 => Ok(MessageType::HandshakeInit),
            0x02 => Ok(MessageType::HandshakeAccept),
            0x03 => Ok(MessageType::HandshakeConfirm),
            0x10 => Ok(MessageType::AudioFrame),
            0x11 => Ok(MessageType::AudioFragment),
            0x20 => Ok(MessageType::Heartbeat),
            0x21 => Ok(MessageType::HeartbeatAck),
            0x30 => Ok(MessageType::ControlPause),
            0x31 => Ok(MessageType::ControlResume),
            0x32 => Ok(MessageType::ControlMetrics),
            0x40..=0x7F => Ok(MessageType::Extension(code)),
            0xFE => Ok(MessageType::Error),
            0xFF => Ok(MessageType::Close),
            other => Err(Error::UnknownMessageType(other)),
        }
    }

    /// Whether the message belongs to the handshake.
    pub fn is_handshake(self) -> (b: bool)
        ensures
            b <==> (self == MessageType::HandshakeInit || self == MessageType::HandshakeAccept
                || self == MessageType::HandshakeConfirm),
    {
        matches!(self, MessageType::HandshakeInit | MessageType::HandshakeAccept | MessageType::HandshakeConfirm)
    }
}

/// Payload of `HANDSHAKE_INIT` (20 bytes).
#[derive(Debug, Clone, Copy, PartialEq, Eq, Structural)]
pub struct HandshakeInit {
    pub protocol_version: u8,
    pub codec_preferred: u8,
    pub sample_rate: u32,
    pub channels: u8,
    pub frame_duration_ms: u8,
    pub max_bitrate: u32,
    pub capability_flags: u32,
    pub nonce: u32,
}

/// The 20 bytes that encode `m`.
pub open spec fn init_bytes(m: HandshakeInit) -> Seq<u8> {
    seq![m.protocol_version, m.codec_preferred] + be_u32(m.sample_rate) + seq![
        m.channels,
        m.frame_duration_ms,
    ] + be_u32(m.max_bitrate) + be_u32(m.capability_flags) + be_u32(m.nonce)
}

/// The `HANDSHAKE_INIT` payload read from the start of `s`.
pub open spec fn parse_init(s: Seq<u8>) -> Result<HandshakeInit, Error> {
    if s.len() < 20 {
        Err(Error::MalformedPayload)
    } else {
        Ok(
            HandshakeInit {
                protocol_version: s[0],
                codec_preferred: s[1],
                sample_rate: get_u32(s, 2),
                channels: s[6],
                frame_duration_ms: s[7],
                max_bitrate: get_u32(s, 8),
                capability_flags: get_u32(s, 12),
                nonce: get_u32(s, 16),
            },
        )
    }
}

/// Decoding the encoding of an init payload, whatever follows it, gives it back.
pub proof fn lemma_init_roundtrip(m: HandshakeInit, rest: Seq<u8>)
    ensures
        parse_init(init_bytes(m) + rest) == Ok::<HandshakeInit, Error>(m),
{
    let s = init_bytes(m) + rest;
    lemma_u32_roundtrip(m.sample_rate);
    lemma_u32_roundtrip(m.max_bitrate);
    lemma_u32_roundtrip(m.capability_flags);
    lemma_u32_roundtrip(m.nonce);
    assert(s[2] == be_u32(m.sample_rate)[0] && s[3] == be_u32(m.sample_rate)[1] && s[4] == be_u32(
        m.sample_rate,
    )[2] && s[5] == be_u32(m.sample_rate)[3]);
    assert(s[8] == be_u32(m.max_bitrate)[0] && s[9] == be_u32(m.max_bitrate)[1] && s[10] == be_u32(
        m.max_bitrate,
    )[2] && s[11] == be_u32(m.max_bitrate)[3]);
    assert(s[12] == be_u32(m.capability_flags)[0] && s[13] == be_u32(m.capability_flags)[1] && s[14]
        == be_u32(m.capability_flags)[2] && s[15] == be_u32(m.capability_flags)[3]);
    assert(s[16] == be_u32(m.nonce)[0] && s[17] == be_u32(m.nonce)[1] && s[18] == be_u32(m.nonce)[2]
        && s[19] == be_u32(m.nonce)[3]);
}

impl HandshakeInit {
    pub const SIZE: usize = 20;

    /// Writes the 20-byte payload at the start of `buf` (at least 20 bytes).
    pub fn encode(&self, buf: &mut [u8]) -> (r: Result<(), Error>)
        ensures
            match r {
                Ok(()) => old(buf)@.len() >= 20 && final(buf)@ == splice(old(buf)@, 0, init_bytes(*self)),
                Err(e) => old(buf)@.len() < 20 && e == Error::BufferTooSmall && final(buf)@ == old(buf)@,
            },
    {
        if buf.len() < Self::SIZE {
            return Err(Error::BufferTooSmall);
        }
        let ghost b0 = buf@;
        buf[0] = self.protocol_version;
        buf[1] = self.codec_preferred;
        put_u32(buf, 2, self.sample_rate);
        buf[6] = self.channels;
        buf[7] = self.frame_duration_ms;
        put_u32(buf, 8, self.max_bitrate);
        put_u32(buf, 12, self.capability_flags);
        put_u32(buf, 16, self.nonce);
        assert(buf@ =~= splice(b0, 0, init_bytes(*self)));
        Ok(())
    }

    /// Reads a payload from the first 20 bytes of `buf`.
    pub fn decode(buf: &[u8]) -> (r: Result<HandshakeInit, Error>)
        ensures
            r == parse_init(buf@),
    {
        if buf.len() < Self::SIZE {
            return Err(Error::MalformedPayload);
        }
        Ok(
            HandshakeInit {
                protocol_version: buf[0],
                codec_preferred: buf[1],
                sample_rate: get_u32_at(buf, 2),
                channels: buf[6],
                frame_duration_ms: buf[7],
                max_bitrate: get_u32_at(buf, 8),
                capability_flags: get_u32_at(buf, 12),
                nonce: get_u32_at(buf, 16),
            },
        )
    }
}

/// Payload of `HANDSHAKE_ACCEPT` (24 bytes).
#[derive(Debug, Clone, Copy, PartialEq, Eq, Structural)]
pub struct HandshakeAccept {
    pub protocol_version: u8,
    pub codec_accepted: u8,
    pub sample_rate: u32,
    pub channels: u8,
    pub frame_duration_ms: u8,
    pub max_bitrate: u32,
    pub capability_flags: u32,
    pub nonce: u32,
    pub session_id: u32,
}

/// The 24 bytes that encode `m`.
pub open spec fn accept_bytes(m: HandshakeAccept) -> Seq<u8> {
    seq![m.protocol_version, m.codec_accepted] + be_u32(m.sample_rate) + seq![
        m.channels,
        m.frame_duration_ms,
    ] + be_u32(m.max_bitrate) + be_u32(m.capability_flags) + be_u32(m.nonce) + be_u32(m.session_id)
}

/// The `HANDSHAKE_ACCEPT` payload read from the start of `s`.
pub open spec fn parse_accept(s: Seq<u8>) -> Result<HandshakeAccept, Error> {
    if s.len() < 24 {
        Err(Error::MalformedPayload)
    } else {
        Ok(
            HandshakeAccept {
                protocol_version: s[0],
                codec_accepted: s[1],
                sample_rate: get_u32(s, 2),
                channels: s[6],
                frame_duration_ms: s[7],
                max_bitrate: get_u32(s, 8),
                capability_flags: get_u32(s, 12),
                nonce: get_u32(s, 16),
                session_id: get_u32(s, 20),
            },
        )
    }
}

/// Decoding the encoding of an accept payload, whatever follows it, gives it back.
pub proof fn lemma_accept_roundtrip(m: HandshakeAccept, rest: Seq<u8>)
    ensures
        parse_accept(accept_bytes(m) + rest) == Ok::<HandshakeAccept, Error>(m),
{
    let s = accept_bytes(m) + rest;
    lemma_u32_roundtrip(m.sample_rate);
    lemma_u32_roundtrip(m.max_bitrate);
    lemma_u32_roundtrip(m.capability_flags);
    lemma_u32_roundtrip(m.nonce);
    lemma_u32_roundtrip(m.session_id);
    assert(s[2] == be_u32(m.sample_rate)[0] && s[3] == be_u32(m.sample_rate)[1] && s[4] == be_u32(
        m.sample_rate,
    )[2] && s[5] == be_u32(m.sample_rate)[3]);
    assert(s[8] == be_u32(m.max_bitrate)[0] && s[9] == be_u32(m.max_bitrate)[1] && s[10] == be_u32(
        m.max_bitrate,
    )[2] && s[11] == be_u32(m.max_bitrate)[3]);
    assert(s[12] == be_u32(m.capability_flags)[0] && s[13] == be_u32(m.capability_flags)[1] && s[14]
        == be_u32(m.capability_flags)[2] && s[15] == be_u32(m.capability_flags)[3]);
    assert(s[16] == be_u32(m.nonce)[0] && s[17] == be_u32(m.nonce)[1] && s[18] == be_u32(m.nonce)[2]
        && s[19] == be_u32(m.nonce)[3]);
    assert(s[20] == be_u32(m.session_id)[0] && s[21] == be_u32(m.session_id)[1] && s[22] == be_u32(
        m.session_id,
    )[2] && s[23] == be_u32(m.session_id)[3]);
}

impl HandshakeAccept {
    pub const SIZE: usize = 24;

    /// Writes the 24-byte payload at the start of `buf` (at least 24 bytes).
    pub fn encode(&self, buf: &mut [u8]) -> (r: Result<(), Error>)
        ensures
            match r {
                Ok(()) => old(buf)@.len() >= 24 && final(buf)@ == splice(old(buf)@, 0, accept_bytes(*self)),
                Err(e) => old(buf)@.len() < 24 && e == Error::BufferTooSmall && final(buf)@ == old(buf)@,
            },
    {
        if buf.len() < Self::SIZE {
            return Err(Error::BufferTooSmall);
        }
        let ghost b0 = buf@;
        buf[0] = self.protocol_version;
        buf[1] = self.codec_accepted;
        put_u32(buf, 2, self.sample_rate);
        buf[6] = self.channels;
        buf[7] = self.frame_duration_ms;
        put_u32(buf, 8, self.max_bitrate);
        put_u32(buf, 12, self.capability_flags);
        put_u32(buf, 16, self.nonce);
        put_u32(buf, 20, self.session_id);
        assert(buf@ =~= splice(b0, 0, accept_bytes(*self)));
        Ok(())
    }

    /// Reads a payload from the first 24 bytes of `buf`.
    pub fn decode(buf: &[u8]) -> (r: Result<HandshakeAccept, Error>)
        ensures
            r == parse_accept(buf@),
    {
        if buf.len() < Self::SIZE {
            return Err(Error::MalformedPayload);
        }
        Ok(
            HandshakeAccept {
                protocol_version: buf[0],
                codec_accepted: buf[1],
                sample_rate: get_u32_at(buf, 2),
                channels: buf[6],
                frame_duration_ms: buf[7],
                max_bitrate: get_u32_at(buf, 8),
                capability_flags: get_u32_at(buf, 12),
                nonce: get_u32_at(buf, 16),
                session_id: get_u32_at(buf, 20),
            },
        )
    }
}

/// Payload of `HANDSHAKE_CONFIRM` (4 bytes).
#[derive(Debug, Clone, Copy, PartialEq, Eq, Structural)]
pub struct HandshakeConfirm {
    pub session_id: u32,
}

/// The `HANDSHAKE_CONFIRM` payload read from the start of `s`.
pub open spec fn parse_confirm(s: Seq<u8>) -> Result<HandshakeConfirm, Error> {
    if s.len() < 4 {
        Err(Error::MalformedPayload)
    } else {
        Ok(HandshakeConfirm { session_id: get_u32(s, 0) })
    }
}

/// Decoding the encoding of a confirm payload, whatever follows it, gives it back.
pub proof fn lemma_confirm_roundtrip(m: HandshakeConfirm, rest: Seq<u8>)
    ensures
        parse_confirm(be_u32(m.session_id) + rest) == Ok::<HandshakeConfirm, Error>(m),
{
    lemma_u32_roundtrip(m.session_id);
}

impl HandshakeConfirm {
    pub const SIZE: usize = 4;

    /// Writes the 4-byte payload at the start of `buf` (at least 4 bytes).
    pub fn encode(&self, buf: &mut [u8]) -> (r: Result<(), Error>)
        ensures
            match r {
                Ok(()) => old(buf)@.len() >= 4 && final(buf)@ == splice(old(buf)@, 0, be_u32(self.session_id)),
                Err(e) => old(buf)@.len() < 4 && e == Error::BufferTooSmall && final(buf)@ == old(buf)@,
            },
    {
        if buf.len() < Self::SIZE {
            return Err(Error::BufferTooSmall);
        }
        put_u32(buf, 0, self.session_id);
        Ok(())
    }

    /// Reads a payload from the first 4 bytes of `buf`.
    pub fn decode(buf: &[u8]) -> (r: Result<HandshakeConfirm, Error>)
        ensures
            r == parse_confirm(buf@),
    {
        if buf.len() < Self::SIZE {
            return Err(Error::MalformedPayload);
        }
        Ok(HandshakeConfirm { session_id: get_u32_at(buf, 0) })
    }
}

/// Error codes carried in the payload of `MessageType::Error`.
#[derive(Debug, Clone, Copy, PartialEq, Eq, Structural)]
#[non_exhaustive]
pub enum ErrorCode {
    UnknownMessageType,
    InvalidChecksum,
    InvalidState,
    UnsupportedCodec,
    ProtocolMismatch,
    PeerTimeout,
    ResourceExhausted,
    Internal,
}

/// The wire code of an error code.
pub open spec fn spec_error_code(e: ErrorCode) -> u8 {
    match e {
        ErrorCode::UnknownMessageType => 0x01,
        ErrorCode::InvalidChecksum => 0x02,
        ErrorCode::InvalidState => 0x03,
        ErrorCode::UnsupportedCodec => 0x04,
        ErrorCode::ProtocolMismatch => 0x05,
        ErrorCode::PeerTimeout => 0x06,
        ErrorCode::ResourceExhausted => 0x07,
        ErrorCode::Internal => 0xFF,
    }
}

/// Every error code is recovered from its wire code, and no other byte
/// names an error code.
pub proof fn lemma_error_code_roundtrip(e: ErrorCode, code: u8)
    ensures
        (exists|f: ErrorCode| spec_error_code(f) == code) <==> (1 <= code <= 7 || code == 0xFF),
        spec_error_code(e) == code ==> (forall|f: ErrorCode| spec_error_code(f) == code ==> f == e),
{
    if 1 <= code <= 7 || code == 0xFF {
        let f = if code == 1 {
            ErrorCode::UnknownMessageType
        } else if code == 2 {
            ErrorCode::InvalidChecksum
        } else if code == 3 {
            ErrorCode::InvalidState
        } else if code == 4 {
            ErrorCode::UnsupportedCodec
        } else if code == 5 {
            ErrorCode::ProtocolMismatch
        } else if code == 6 {
            ErrorCode::PeerTimeout
        } else if code == 7 {
            ErrorCode::ResourceExhausted
        } else {
            ErrorCode::Internal
        };
        assert(spec_error_code(f) == code);
    }
}

impl ErrorCode {
    /// The wire code.
    pub fn code(self) -> (c: u8)
        ensures
            c == spec_error_code(self),
    {
        match self {
            ErrorCode::UnknownMessageType => 0x01,
            ErrorCode::InvalidChecksum => 0x02,
            ErrorCode::InvalidState => 0x03,
            ErrorCode::UnsupportedCodec => 0x04,
            ErrorCode::ProtocolMismatch => 0x05,
            ErrorCode::PeerTimeout => 0x06,
            ErrorCode::ResourceExhausted => 0x07,
            ErrorCode::Internal => 0xFF,
        }
    }

    /// The error code named by `code`; other bytes are a malformed payload.
    pub fn from_code(code: u8) -> (r: Result<ErrorCode, Error>)
        ensures
            match r {
                Ok(e) => spec_error_code(e) == code,
                Err(e) => e == Error::MalformedPayload && forall|f: ErrorCode| spec_error_code(f) != code,
            },
    {
        match code {
            0x01 => Ok(ErrorCode::UnknownMessageType),
            0x02 => Ok(ErrorCode::InvalidChecksum),
            0x03 => Ok(ErrorCode::InvalidState),
            0x04 => Ok(ErrorCode::UnsupportedCodec),
            0x05 => Ok(ErrorCode::ProtocolMismatch),
            0x06 => Ok(ErrorCode::PeerTimeout),
            0x07 => Ok(ErrorCode::ResourceExhausted),
            0xFF => Ok(ErrorCode::Internal),
            _ => Err(Error::MalformedPayload),
        }
    }
}

} // verus!
