//! Packet helpers for clients that move the packets themselves (a browser
//! over WebSocket): whole packets are encoded and decoded here, and the
//! handshake messages are built ready to send.

use vstd::prelude::*;

use crate::constants::{HEADER_SIZE, MAX_PAYLOAD_SIZE, PROTOCOL_VERSION};
use crate::error::Error;
use crate::header::{Flags, PacketHeader};
use crate::message::{init_bytes, lemma_init_roundtrip, parse_init, HandshakeConfirm, HandshakeInit, MessageType};
use crate::packet::{packet_bytes, parse_packet, PacketBuilder, PacketView};
use crate::wire::{be_u32, splice};

verus! {

/// The room the helpers give a packet.
pub const PACKET_ROOM: usize = 1200;

/// The header the helpers write: the current protocol version, no flags.
pub open spec fn client_header(msg_type: u8, session_id: u32, sequence: u32, timestamp: u64) -> PacketHeader {
    PacketHeader { version: PROTOCOL_VERSION, flags: Flags(0), msg_type, session_id, sequence, timestamp }
}

/// The version of the wire protocol.
pub fn protocol_version() -> (v: u32)
    ensures
        v == PROTOCOL_VERSION,
{
    PROTOCOL_VERSION as u32
}

/// Builds a whole packet (header, payload, length and checksum) of at most
/// 1200 bytes.
pub fn encode_packet(msg_type: u8, session_id: u32, sequence: u32, timestamp: u64, payload: &[u8]) -> (r: Result<
    Vec<u8>,
    Error,
>)
    ensures
        (r is Ok) <==> HEADER_SIZE + payload@.len() + 4 <= PACKET_ROOM,
        r matches Ok(bytes) ==> bytes@ == packet_bytes(
            client_header(msg_type, session_id, sequence, timestamp),
            payload@,
        ),
        r matches Err(e) ==> e == (if payload@.len() > MAX_PAYLOAD_SIZE {
            Error::PayloadTooLarge
        } else {
            Error::BufferTooSmall
        }),
{
    let header = PacketHeader {
        version: PROTOCOL_VERSION,
        flags: Flags::empty(),
        msg_type,
        session_id,
        sequence,
        timestamp,
    };
    let mut out: Vec<u8> = vec![0u8; PACKET_ROOM];
    assert(out@.len() == PACKET_ROOM);
    let n = match PacketBuilder::new(header, payload).encode(out.as_mut_slice()) {
        Ok(n) => n,
        Err(e) => {
            return Err(e);
        },
    };
    let ghost o = out@;
    out.truncate(n);
    assert(out@ =~= packet_bytes(header, payload@));
    Ok(out)
}

/// What `encode_packet` builds, `decode_packet` reads back: the header
/// fields and the payload.
pub proof fn lemma_client_packet_roundtrip(
    msg_type: u8,
    session_id: u32,
    sequence: u32,
    timestamp: u64,
    payload: Seq<u8>,
)
    requires
        payload.len() <= MAX_PAYLOAD_SIZE,
    ensures
        parse_packet(packet_bytes(client_header(msg_type, session_id, sequence, timestamp), payload)) == Ok::<
            (PacketHeader, Seq<u8>),
            Error,
        >((client_header(msg_type, session_id, sequence, timestamp), payload)),
{
    crate::packet::lemma_packet_roundtrip(client_header(msg_type, session_id, sequence, timestamp), payload);
}

/// A decoded packet: the header fields a client needs, and the payload.
#[derive(Debug, Clone, PartialEq, Eq)]
pub struct DecodedPacket {
    pub msg_type: u8,
    pub session_id: u32,
    pub sequence: u32,
    pub timestamp: u64,
    pub payload: Vec<u8>,
}

/// Decodes an incoming packet.
pub fn decode_packet(bytes: &[u8]) -> (r: Result<DecodedPacket, Error>)
    ensures
        match parse_packet(bytes@) {
            Ok((h, p)) => r matches Ok(d) && d.msg_type == h.msg_type && d.session_id == h.session_id
                && d.sequence == h.sequence && d.timestamp == h.timestamp && d.payload@ == p,
            Err(e) => r matches Err(f) && f == e,
        },
{
    let view = match PacketView::decode(bytes) {
        Ok(v) => v,
        Err(e) => {
            return Err(e);
        },
    };
    let header = view.header();
    Ok(
        DecodedPacket {
            msg_type: header.msg_type,
            session_id: header.session_id,
            sequence: header.sequence,
            timestamp: header.timestamp,
            payload: vstd::slice::slice_to_vec(view.payload()),
        },
    )
}

/// The `HANDSHAKE_INIT` a client sends: PCM preferred, the current
/// protocol version.
pub open spec fn client_init_message(
    sample_rate: u32,
    channels: u8,
    frame_duration_ms: u8,
    max_bitrate: u32,
    capability_flags: u32,
    nonce: u32,
) -> HandshakeInit {
    HandshakeInit {
        protocol_version: PROTOCOL_VERSION,
        codec_preferred: 0x01,
        sample_rate,
        channels,
        frame_duration_ms,
        max_bitrate,
        capability_flags,
        nonce,
    }
}

/// The init packet a client builds carries the arguments as given: read
/// back by the receiver it is a `HANDSHAKE_INIT` of session 0 whose init
/// has each stream field equal to the argument of the same name, with PCM
/// preferred and the current protocol version.
pub proof fn lemma_handshake_init_carries_arguments(
    sample_rate: u32,
    channels: u8,
    frame_duration_ms: u8,
    max_bitrate: u32,
    capability_flags: u32,
    nonce: u32,
)
    ensures
        parse_packet(
            packet_bytes(
                client_header(0x01, 0, 0, 0),
                init_bytes(
                    client_init_message(
                        sample_rate,
                        channels,
                        frame_duration_ms,
                        max_bitrate,
                        capability_flags,
                        nonce,
                    ),
                ),
            ),
        ) matches Ok((h, p)) && (h.msg_type == 0x01 && h.session_id == 0 && (parse_init(p) matches Ok(m)
            && m.protocol_version == PROTOCOL_VERSION
                && m.codec_preferred == 0x01 && m.sample_rate == sample_rate && m.channels == channels
                && m.frame_duration_ms == frame_duration_ms && m.max_bitrate == max_bitrate
                && m.capability_flags == capability_flags && m.nonce == nonce)),
{
    let m = client_init_message(sample_rate, channels, frame_duration_ms, max_bitrate, capability_flags, nonce);
    let h = client_header(0x01, 0, 0, 0);
    let payload = init_bytes(m);
    lemma_client_packet_roundtrip(0x01, 0, 0, 0, payload);
    assert(parse_packet(packet_bytes(h, payload)) == Ok::<(PacketHeader, Seq<u8>), Error>((h, payload)));
    lemma_init_roundtrip(m, Seq::empty());
    assert(payload + Seq::<u8>::empty() =~= payload);
    assert(parse_init(payload) == Ok::<HandshakeInit, Error>(m));
}

/// A `HANDSHAKE_INIT` packet ready to send (session 0, sequence 0,
/// timestamp 0).
pub fn build_handshake_init(
    sample_rate: u32,
    channels: u8,
    frame_duration_ms: u8,
    max_bitrate: u32,
    capability_flags: u32,
    nonce: u32,
) -> (r: Result<Vec<u8>, Error>)
    ensures
        r matches Ok(bytes) && bytes@ == packet_bytes(
            client_header(0x01, 0, 0, 0),
            init_bytes(
                client_init_message(
                    sample_rate,
                    channels,
                    frame_duration_ms,
                    max_bitrate,
                    capability_flags,
                    nonce,
                ),
            ),
        ),
        r matches Ok(bytes) ==> (parse_packet(bytes@) matches Ok((h, p)) && (h.msg_type == 0x01 && h.session_id
            == 0 && (parse_init(p) matches Ok(m) && m.protocol_version == PROTOCOL_VERSION
                && m.codec_preferred == 0x01 && m.sample_rate == sample_rate && m.channels == channels
                && m.frame_duration_ms == frame_duration_ms && m.max_bitrate == max_bitrate
                && m.capability_flags == capability_flags && m.nonce == nonce))),
{
    let init = HandshakeInit {
        protocol_version: PROTOCOL_VERSION,
        codec_preferred: 0x01,
        sample_rate,
        channels,
        frame_duration_ms,
        max_bitrate,
        capability_flags,
        nonce,
    };
    let mut buf: Vec<u8> = vec![0u8; 20];
    let ghost b0 = buf@;
    match init.encode(buf.as_mut_slice()) {
        Ok(()) => {},
        Err(e) => {
            return Err(e);
        },
    }
    assert(buf@ =~= init_bytes(init));
    let r = encode_packet(MessageType::HandshakeInit.code(), 0, 0, 0, buf.as_slice());
    proof {
        assert(init == client_init_message(sample_rate, channels, frame_duration_ms, max_bitrate, capability_flags, nonce));
        lemma_handshake_init_carries_arguments(
            sample_rate,
            channels,
            frame_duration_ms,
            max_bitrate,
            capability_flags,
            nonce,
        );
    }
    r
}

/// A `HANDSHAKE_CONFIRM` packet ready to send (timestamp 0).
pub fn build_handshake_confirm(session_id: u32, sequence: u32) -> (r: Result<Vec<u8>, Error>)
    ensures
        r matches Ok(bytes) && bytes@ == packet_bytes(client_header(0x03, session_id, sequence, 0), be_u32(session_id)),
{
    let confirm = HandshakeConfirm { session_id };
    let mut buf: Vec<u8> = vec![0u8; 4];
    match confirm.encode(buf.as_mut_slice()) {
        Ok(()) => {},
        Err(e) => {
            return Err(e);
        },
    }
    assert(buf@ =~= be_u32(session_id));
    encode_packet(MessageType::HandshakeConfirm.code(), session_id, sequence, 0, buf.as_slice())
}

/// The `msg_type` codes, by name.
#[derive(Debug, Clone, Copy)]
pub struct MsgType;

impl MsgType {
    pub fn handshake_init() -> (c: u8)
        ensures
            c == 0x01,
    {
        MessageType::HandshakeInit.code()
    }

    pub fn handshake_accept() -> (c: u8)
        ensures
            c == 0x02,
    {
        MessageType::HandshakeAccept.code()
    }

    pub fn handshake_confirm() -> (c: u8)
        ensures
            c == 0x03,
    {
        MessageType::HandshakeConfirm.code()
    }

    pub fn audio_frame() -> (c: u8)
        ensures
            c == 0x10,
    {
        MessageType::AudioFrame.code()
    }

    pub fn heartbeat() -> (c: u8)
        ensures
            c == 0x20,
    {
        MessageType::Heartbeat.code()
    }

    pub fn heartbeat_ack() -> (c: u8)
        ensures
            c == 0x21,
    {
        MessageType::HeartbeatAck.code()
    }

    pub fn close() -> (c: u8)
        ensures
            c == 0xFF,
    {
        MessageType::Close.code()
    }
}

} // verus!
