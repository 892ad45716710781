use gravital_talk::checksum::{crc16_ccitt_false, crc16_two_segments};
use gravital_talk::constants::{HEADER_SIZE, MAX_PAYLOAD_SIZE, PROTOCOL_VERSION};
use gravital_talk::error::Error;
use gravital_talk::header::{Flags, PacketHeader};
use gravital_talk::message::{
    ErrorCode, HandshakeAccept, HandshakeConfirm, HandshakeInit, MessageType,
};
use gravital_talk::packet::{PacketBuilder, PacketView};

// ── checksum ─────────────────────────────────────────────────────────────

#[test]
fn crc16_check_value() {
    assert_eq!(crc16_ccitt_false(b"123456789"), 0x29B1);
}

#[test]
fn crc16_empty() {
    assert_eq!(crc16_ccitt_false(b""), 0xFFFF);
}

#[test]
fn crc16_single_byte() {
    assert_eq!(crc16_ccitt_false(b"A"), 0xB915);
}

#[test]
fn crc16_two_segments_equals_concat() {
    let a = b"Hello, ";
    let b = b"world!";
    let concat = [a.as_slice(), b.as_slice()].concat();
    assert_eq!(crc16_ccitt_false(&concat), crc16_two_segments(a, b));
}

#[test]
fn crc16_different_inputs_diverge() {
    let a = crc16_ccitt_false(b"gravital sound");
    let b = crc16_ccitt_false(b"gravital sounE");
    assert_ne!(a, b);
}

#[test]
fn crc16_two_segments_with_empty_side() {
    assert_eq!(crc16_two_segments(b"", b"123456789"), 0x29B1);
    assert_eq!(crc16_two_segments(b"123456789", b""), 0x29B1);
    assert_eq!(crc16_two_segments(b"1234", b"56789"), 0x29B1);
}

// ── message ──────────────────────────────────────────────────────────────

#[test]
fn message_type_roundtrip_canonical() {
    for code in [
        0x01u8, 0x02, 0x03, 0x10, 0x11, 0x20, 0x21, 0x30, 0x31, 0x32, 0xFE, 0xFF,
    ] {
        let m = MessageType::from_code(code).unwrap();
        assert_eq!(m.code(), code);
    }
}

#[test]
fn message_type_extension_range() {
    for code in 0x40u8..=0x7F {
        assert_eq!(
            MessageType::from_code(code).unwrap(),
            MessageType::Extension(code)
        );
    }
}

#[test]
fn message_type_unknown_rejected() {
    assert!(MessageType::from_code(0x04).is_err());
    assert!(MessageType::from_code(0x80).is_err());
    assert!(MessageType::from_code(0xAA).is_err());
}

#[test]
fn message_type_unknown_names_the_code() {
    assert_eq!(MessageType::from_code(0x3F), Err(Error::UnknownMessageType(0x3F)));
    assert!(MessageType::HandshakeAccept.is_handshake());
    assert!(!MessageType::AudioFrame.is_handshake());
}

#[test]
fn handshake_init_roundtrip() {
    let init = HandshakeInit {
        protocol_version: 1,
        codec_preferred: 2,
        sample_rate: 48000,
        channels: 2,
        frame_duration_ms: 20,
        max_bitrate: 64000,
        capability_flags: 0xDEAD_BEEF,
        nonce: 0x1234_5678,
    };
    let mut buf = [0u8; HandshakeInit::SIZE];
    init.encode(&mut buf).unwrap();
    assert_eq!(HandshakeInit::decode(&buf).unwrap(), init);
}

#[test]
fn handshake_init_layout_and_short_buffers() {
    let init = HandshakeInit {
        protocol_version: 1,
        codec_preferred: 2,
        sample_rate: 48000,
        channels: 2,
        frame_duration_ms: 20,
        max_bitrate: 64000,
        capability_flags: 0xDEAD_BEEF,
        nonce: 0x1234_5678,
    };
    let mut buf = [0u8; HandshakeInit::SIZE];
    init.encode(&mut buf).unwrap();
    assert_eq!(&buf[..2], &[1, 2]);
    assert_eq!(&buf[2..6], &48000u32.to_be_bytes());
    assert_eq!(&buf[6..8], &[2, 20]);
    assert_eq!(&buf[16..20], &[0x12, 0x34, 0x56, 0x78]);
    let mut small = [0u8; HandshakeInit::SIZE - 1];
    assert_eq!(init.encode(&mut small), Err(Error::BufferTooSmall));
    assert_eq!(HandshakeInit::decode(&buf[..19]), Err(Error::MalformedPayload));
}

#[test]
fn handshake_accept_roundtrip() {
    let a = HandshakeAccept {
        protocol_version: 1,
        codec_accepted: 2,
        sample_rate: 48000,
        channels: 1,
        frame_duration_ms: 10,
        max_bitrate: 128000,
        capability_flags: 0,
        nonce: 0xCAFE_BABE,
        session_id: 0x4242_4242,
    };
    let mut buf = [0u8; HandshakeAccept::SIZE];
    a.encode(&mut buf).unwrap();
    assert_eq!(HandshakeAccept::decode(&buf).unwrap(), a);
}

#[test]
fn handshake_confirm_roundtrip() {
    let c = HandshakeConfirm {
        session_id: 0x7777_1111,
    };
    let mut buf = [0u8; HandshakeConfirm::SIZE];
    c.encode(&mut buf).unwrap();
    assert_eq!(HandshakeConfirm::decode(&buf).unwrap(), c);
}

#[test]
fn error_code_roundtrip() {
    for code in [0x01u8, 0x02, 0x03, 0x04, 0x05, 0x06, 0x07, 0xFF] {
        let e = ErrorCode::from_code(code).unwrap();
        assert_eq!(e.code(), code);
    }
}

#[test]
fn error_code_unknown_rejected() {
    assert!(ErrorCode::from_code(0x08).is_err());
    assert_eq!(ErrorCode::from_code(0x01).unwrap(), ErrorCode::UnknownMessageType);
    assert_eq!(ErrorCode::Internal.code(), 0xFF);
}

// ── packet ───────────────────────────────────────────────────────────────

fn sample_header() -> PacketHeader {
    PacketHeader {
        version: PROTOCOL_VERSION,
        flags: Flags::empty(),
        msg_type: 0x10,
        session_id: 0xAABB_CCDD,
        sequence: 42,
        timestamp: 1_000_000,
    }
}

#[test]
fn roundtrip_empty_payload() {
    let header = sample_header();
    let payload = &[];
    let mut buf = [0u8; HEADER_SIZE + 4];
    let n = PacketBuilder::new(header, payload).encode(&mut buf).unwrap();
    assert_eq!(n, HEADER_SIZE + 4);

    let packet = PacketView::decode(&buf[..n]).unwrap();
    assert_eq!(packet.header(), &header);
    assert!(packet.payload().is_empty());
}

#[test]
fn roundtrip_with_payload() {
    let header = sample_header();
    let payload: [u8; 128] = core::array::from_fn(|i| (i * 7) as u8);
    let mut buf = [0u8; 1200];
    let n = PacketBuilder::new(header, &payload).encode(&mut buf).unwrap();
    let packet = PacketView::decode(&buf[..n]).unwrap();
    assert_eq!(packet.header(), &header);
    assert_eq!(packet.payload(), &payload);
}

#[test]
fn checksum_rejects_corruption() {
    let header = sample_header();
    let payload: [u8; 64] = [0xAB; 64];
    let mut buf = [0u8; 128];
    let n = PacketBuilder::new(header, &payload).encode(&mut buf).unwrap();
    buf[HEADER_SIZE + 5] ^= 0xFF;
    assert!(matches!(
        PacketView::decode(&buf[..n]),
        Err(Error::BadChecksum)
    ));
}

#[test]
fn too_short_buffer() {
    let buf = [0u8; 10];
    assert!(matches!(PacketView::decode(&buf), Err(Error::TooShort)));
}

#[test]
fn payload_too_large() {
    let header = sample_header();
    let huge = [0u8; MAX_PAYLOAD_SIZE + 1];
    let mut buf = [0u8; MAX_PAYLOAD_SIZE + HEADER_SIZE + 10];
    assert_eq!(
        PacketBuilder::new(header, &huge).encode(&mut buf),
        Err(Error::PayloadTooLarge),
    );
}

#[test]
fn zero_copy_payload_points_into_buffer() {
    let header = sample_header();
    let payload: [u8; 32] = [0x5A; 32];
    let mut buf = [0u8; 128];
    let n = PacketBuilder::new(header, &payload).encode(&mut buf).unwrap();
    let packet = PacketView::decode(&buf[..n]).unwrap();
    // The payload handed back must lie inside the decoded buffer.
    let buf_start = buf.as_ptr() as usize;
    let pay_start = packet.payload().as_ptr() as usize;
    assert!(pay_start >= buf_start);
    assert!(pay_start - buf_start >= 0);
    assert_eq!(pay_start - buf_start, HEADER_SIZE);
}

#[test]
fn packet_encode_refuses_small_buffer_and_leaves_it() {
    let header = sample_header();
    let payload = [1u8, 2, 3];
    let mut buf = [7u8; HEADER_SIZE + 6];
    assert_eq!(
        PacketBuilder::new(header, &payload).encode(&mut buf),
        Err(Error::BufferTooSmall)
    );
    assert!(buf.iter().all(|b| *b == 7));
}

#[test]
fn packet_wire_layout() {
    let header = sample_header();
    let payload = [0xDEu8, 0xAD];
    let mut buf = [0u8; 64];
    let n = PacketBuilder::new(header, &payload).encode(&mut buf).unwrap();
    assert_eq!(n, HEADER_SIZE + 2 + 4);
    assert_eq!(&buf[..2], b"GS");
    assert_eq!(buf[2], PROTOCOL_VERSION);
    assert_eq!(buf[4], 0x10);
    assert_eq!(&buf[8..12], &[0xAA, 0xBB, 0xCC, 0xDD]);
    assert_eq!(&buf[12..16], &42u32.to_be_bytes());
    assert_eq!(&buf[16..24], &1_000_000u64.to_be_bytes());
    assert_eq!(&buf[24..26], &[0xDE, 0xAD]);
    assert_eq!(&buf[26..28], &[0, 2]);
    let crc = crc16_ccitt_false(&buf[..28]);
    assert_eq!(&buf[28..30], &crc.to_be_bytes());
}

#[test]
fn packet_decode_errors() {
    let header = sample_header();
    let mut buf = [0u8; 64];
    let n = PacketBuilder::new(header, &[9u8; 4]).encode(&mut buf).unwrap();
    let mut bad_magic = buf;
    bad_magic[0] = b'X';
    assert_eq!(PacketView::decode(&bad_magic[..n]).unwrap_err(), Error::BadMagic);
    let mut bad_version = buf;
    bad_version[2] = 9;
    assert_eq!(
        PacketView::decode(&bad_version[..n]).unwrap_err(),
        Error::UnsupportedVersion
    );
    assert_eq!(PacketView::decode(&buf[..n + 1]).unwrap_err(), Error::LengthMismatch);
}

#[test]
fn crc_detects_each_single_byte_change() {
    let base = b"gravital sound".to_vec();
    let crc = crc16_ccitt_false(&base);
    for i in 0..base.len() {
        for delta in [1u8, 0x80, 0xFF] {
            let mut changed = base.clone();
            changed[i] ^= delta;
            assert_ne!(crc16_ccitt_false(&changed), crc, "byte {i} ^ {delta:#x}");
        }
    }
}

#[test]
fn crc_detects_two_adjacent_byte_bursts() {
    let base = b"123456789".to_vec();
    let crc = crc16_ccitt_false(&base);
    for i in 0..base.len() - 1 {
        for (d0, d1) in [(1u8, 1u8), (0x80, 0x01), (0xFF, 0xFF), (0, 0x10)] {
            let mut changed = base.clone();
            changed[i] ^= d0;
            changed[i + 1] ^= d1;
            assert_ne!(crc16_ccitt_false(&changed), crc);
        }
    }
}

#[test]
fn crc_detects_unaligned_bursts_of_up_to_sixteen_bits() {
    let base = b"123456789".to_vec();
    let crc = crc16_ccitt_false(&base);
    for shift in 0..=8u32 {
        for burst in [0x8001u32, 0xFFFF, 0x1234, 0x0001] {
            let e = burst << shift;
            for p in 0..base.len() - 2 {
                let mut changed = base.clone();
                changed[p] ^= (e >> 16) as u8;
                changed[p + 1] ^= (e >> 8) as u8;
                changed[p + 2] ^= e as u8;
                assert_ne!(crc16_ccitt_false(&changed), crc);
            }
        }
    }
}
