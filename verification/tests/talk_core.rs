use gravital_talk::codec::{build_pair, negotiate, supported, CodecError, CodecId, Decoder, Encoder, PcmCodec};
use gravital_talk::constants::MAX_FRAGMENTS;
use gravital_talk::error::Error;
use gravital_talk::floor::{
    FloorController, FloorEvent, FloorMessage, FloorPayload, FloorState, FloorTransitionError,
    FLOOR_TIMEOUT_MS,
};
use gravital_talk::message::MessageType;
use gravital_talk::session::ptt_messages;
use gravital_talk::fragment::{FragmentHeader, FragmentReassembler};
use gravital_talk::identity::{AuthChallengePayload, AuthResponsePayload, Identity, IdentityPublic};

// ── PCM codec ────────────────────────────────────────────────────────────

#[test]
fn roundtrip_is_identity() {
    let mut enc = PcmCodec::new(48_000, 1, 10);
    let mut dec = PcmCodec::new(48_000, 1, 10);
    let samples: Vec<i16> = (0..480).map(|i| (i as i16).wrapping_mul(67)).collect();
    let mut wire = vec![0u8; 2048];
    let n = enc.encode(&samples, &mut wire).unwrap();
    assert_eq!(n, 960);
    let mut out = vec![0i16; 480];
    let decoded = dec.decode(&wire[..n], &mut out).unwrap();
    assert_eq!(decoded, 480);
    assert_eq!(out, samples);
}

#[test]
fn rejects_wrong_frame_size() {
    let mut enc = PcmCodec::new(48_000, 1, 10);
    let too_short = vec![0i16; 100];
    let mut wire = vec![0u8; 2048];
    assert!(enc.encode(&too_short, &mut wire).is_err());
}

#[test]
fn rejects_small_buffer() {
    let mut enc = PcmCodec::new(48_000, 1, 10);
    let samples = vec![0i16; 480];
    let mut wire = vec![0u8; 100];
    assert!(enc.encode(&samples, &mut wire).is_err());
}

#[test]
fn pcm_errors_name_the_sizes() {
    let mut enc = PcmCodec::new(48_000, 2, 20);
    assert_eq!(enc.frame_samples(), 960);
    let mut wire = vec![0u8; 8];
    assert_eq!(
        enc.encode(&[0i16; 3], &mut wire),
        Err(CodecError::FrameSizeMismatch { expected: 1920, got: 3 })
    );
    assert_eq!(
        enc.encode(&vec![0i16; 1920], &mut wire),
        Err(CodecError::BufferTooSmall { needed: 3840, have: 8 })
    );
    let mut dec = PcmCodec::new(48_000, 2, 20);
    let mut pcm = [0i16; 1];
    assert!(matches!(dec.decode(&[1, 2, 3], &mut pcm), Err(CodecError::InvalidParams(_))));
    assert_eq!(
        dec.decode(&[1, 2, 3, 4], &mut pcm),
        Err(CodecError::BufferTooSmall { needed: 2, have: 1 })
    );
}

#[test]
fn pcm_is_little_endian_and_stereo_counts_per_channel() {
    let mut enc = PcmCodec::new(1000, 2, 2);
    let mut wire = [0u8; 8];
    assert_eq!(enc.encode(&[0x0102, -2, 7, 0x7FFF], &mut wire), Ok(8));
    assert_eq!(wire, [0x02, 0x01, 0xFE, 0xFF, 0x07, 0x00, 0xFF, 0x7F]);
    let mut dec = PcmCodec::new(1000, 2, 2);
    let mut pcm = [9i16; 6];
    assert_eq!(dec.decode(&wire, &mut pcm), Ok(2));
    assert_eq!(pcm, [0x0102, -2, 7, 0x7FFF, 9, 9]);
}

// ── Codec negotiation ────────────────────────────────────────────────────

#[test]
fn code_roundtrip() {
    for id in [CodecId::Pcm, CodecId::Opus, CodecId::Other(0x40)] {
        assert_eq!(CodecId::from_code(id.code()), id);
    }
}

#[test]
fn negotiate_prefers_client_if_supported() {
    let id = negotiate(CodecId::Pcm).unwrap();
    assert_eq!(id, CodecId::Pcm);
}

#[test]
fn negotiate_falls_back_to_local_preferred() {
    let id = negotiate(CodecId::Other(0x40)).unwrap();
    assert!(matches!(id, CodecId::Pcm | CodecId::Opus));
}

#[test]
fn supported_codecs_of_this_build() {
    assert_eq!(supported(), &[CodecId::Pcm]);
    assert_eq!(negotiate(CodecId::Opus).unwrap(), CodecId::Pcm);
    assert_eq!(CodecId::Pcm.code(), 0x01);
    assert_eq!(CodecId::from_code(0x02), CodecId::Opus);
    assert_eq!(CodecId::from_code(0x09), CodecId::Other(0x09));
    assert_eq!(CodecId::default(), CodecId::Pcm);
}

#[test]
fn build_pair_only_for_pcm() {
    let (mut enc, mut dec) = build_pair(CodecId::Pcm, 8000, 1, 10).unwrap();
    assert_eq!(enc.id(), CodecId::Pcm);
    assert_eq!(dec.frame_samples(), 80);
    let mut wire = [0u8; 160];
    assert_eq!(enc.encode(&[5i16; 80], &mut wire), Ok(160));
    let mut pcm = [0i16; 80];
    assert_eq!(dec.decode(&wire, &mut pcm), Ok(80));
    assert_eq!(pcm, [5i16; 80]);
    assert!(matches!(
        build_pair(CodecId::Opus, 48_000, 1, 20),
        Err(CodecError::Unsupported(CodecId::Opus))
    ));
}

// ── Floor control ────────────────────────────────────────────────────────

#[test]
fn happy_path_two_party_ptt() {
    let mut fc = FloorController::default();
    assert_eq!(fc.state(), FloorState::Idle);
    assert!(fc.is_available());

    fc.transition(FloorEvent::Request, 0x1111).unwrap();
    assert_eq!(fc.state(), FloorState::Requested);

    fc.transition(FloorEvent::Grant, 0x1111).unwrap();
    assert_eq!(fc.state(), FloorState::Granted);
    assert_eq!(fc.holder(), 0x1111);
    assert!(fc.is_holder(0x1111));
    assert!(!fc.is_available());

    fc.transition(FloorEvent::Release, 0x1111).unwrap();
    assert_eq!(fc.state(), FloorState::Released);
    assert_eq!(fc.holder(), 0);
}

#[test]
fn denial_returns_to_idle() {
    let mut fc = FloorController::default();
    fc.transition(FloorEvent::Request, 0xAAAA).unwrap();
    fc.transition(FloorEvent::Deny, 0xAAAA).unwrap();
    assert_eq!(fc.state(), FloorState::Idle);
    assert_eq!(fc.holder(), 0);
}

#[test]
fn timeout_releases_from_granted() {
    let mut fc = FloorController::default();
    fc.transition(FloorEvent::Request, 0x1).unwrap();
    fc.transition(FloorEvent::Grant, 0x1).unwrap();
    fc.transition(FloorEvent::Timeout, 0).unwrap();
    assert_eq!(fc.state(), FloorState::Released);
    assert_eq!(fc.holder(), 0);
}

#[test]
fn taken_changes_holder_while_granted() {
    let mut fc = FloorController::default();
    fc.transition(FloorEvent::Request, 0x1).unwrap();
    fc.transition(FloorEvent::Grant, 0x1).unwrap();
    fc.transition(FloorEvent::Taken, 0x2).unwrap();
    assert_eq!(fc.state(), FloorState::Granted);
    assert_eq!(fc.holder(), 0x2);
}

#[test]
fn taken_during_request_becomes_granted() {
    let mut fc = FloorController::default();
    fc.transition(FloorEvent::Request, 0x1).unwrap();
    fc.transition(FloorEvent::Taken, 0x2).unwrap();
    assert_eq!(fc.state(), FloorState::Granted);
    assert_eq!(fc.holder(), 0x2);
}

#[test]
fn reset_from_any_state_goes_to_idle() {
    for setup_events in [
        vec![],
        vec![(FloorEvent::Request, 0x1u32)],
        vec![(FloorEvent::Request, 0x1), (FloorEvent::Grant, 0x1)],
    ] {
        let mut fc = FloorController::default();
        for (ev, ssrc) in setup_events {
            fc.transition(ev, ssrc).unwrap();
        }
        fc.transition(FloorEvent::Reset, 0).unwrap();
        assert_eq!(fc.state(), FloorState::Idle);
        assert_eq!(fc.holder(), 0);
    }
}

#[test]
fn invalid_transition_preserved() {
    let mut fc = FloorController::default();
    let err = fc.transition(FloorEvent::Release, 0);
    assert!(err.is_err());
    assert_eq!(fc.state(), FloorState::Idle);
}

#[test]
fn invalid_transition_names_state_and_event() {
    let mut fc = FloorController::new(5_000);
    assert_eq!(fc.max_transmit_ms(), 5_000);
    assert_eq!(
        fc.transition(FloorEvent::Deny, 7),
        Err(FloorTransitionError { from: FloorState::Idle, event: FloorEvent::Deny })
    );
    fc.transition(FloorEvent::Request, 7).unwrap();
    assert_eq!(
        fc.transition(FloorEvent::Request, 7),
        Err(FloorTransitionError { from: FloorState::Requested, event: FloorEvent::Request })
    );
    assert_eq!(fc.holder(), 7);
    assert!(fc.is_granted() == false);
}

#[test]
fn released_can_go_directly_to_granted() {
    let mut fc = FloorController::default();
    fc.transition(FloorEvent::Request, 0x1).unwrap();
    fc.transition(FloorEvent::Grant, 0x1).unwrap();
    fc.transition(FloorEvent::Release, 0x1).unwrap();
    assert_eq!(fc.state(), FloorState::Released);
    fc.transition(FloorEvent::Grant, 0x2).unwrap();
    assert_eq!(fc.state(), FloorState::Granted);
    assert_eq!(fc.holder(), 0x2);
}

#[test]
fn floor_payload_roundtrip() {
    let p = FloorPayload { ssrc: 0xDEAD_BEEF };
    let mut buf = [0u8; FloorPayload::SIZE];
    p.encode(&mut buf).unwrap();
    assert_eq!(FloorPayload::decode(&buf).unwrap(), p);
}

#[test]
fn floor_payload_zero_ssrc() {
    let p = FloorPayload { ssrc: 0 };
    let mut buf = [0u8; FloorPayload::SIZE];
    p.encode(&mut buf).unwrap();
    assert_eq!(FloorPayload::decode(&buf).unwrap().ssrc, 0);
}

#[test]
fn floor_payload_too_short() {
    assert!(FloorPayload::decode(&[]).is_err());
    assert!(FloorPayload::decode(&[0; 3]).is_err());
}

#[test]
fn floor_payload_is_big_endian() {
    let mut buf = [0u8; 6];
    FloorPayload { ssrc: 0x0102_0304 }.encode(&mut buf).unwrap();
    assert_eq!(buf, [1, 2, 3, 4, 0, 0]);
    assert_eq!(FloorPayload::decode(&[0, 0, 1, 0, 9]).unwrap().ssrc, 256);
}

#[test]
fn display_states() {
    assert_eq!(FloorState::Idle.to_string(), "idle");
    assert_eq!(FloorState::Granted.to_string(), "granted");
    assert_eq!(FloorState::Released.to_string(), "released");
}

#[test]
fn default_max_transmit_is_30s() {
    let fc = FloorController::default();
    assert_eq!(fc.max_transmit_ms(), FLOOR_TIMEOUT_MS);
    assert_eq!(fc.max_transmit_ms(), 30_000);
}

// ── Fragments ────────────────────────────────────────────────────────────

#[test]
fn header_roundtrip() {
    let h = FragmentHeader { index: 3, total: 8 };
    let mut buf = [0u8; FragmentHeader::SIZE];
    h.encode(&mut buf).unwrap();
    assert_eq!(FragmentHeader::decode(&buf).unwrap(), h);
}

#[test]
fn header_rejects_out_of_range() {
    let mut buf = [0u8; 4];
    buf[0..2].copy_from_slice(&5u16.to_be_bytes());
    buf[2..4].copy_from_slice(&3u16.to_be_bytes());
    assert_eq!(FragmentHeader::decode(&buf), Err(Error::FragmentOutOfRange));
}

#[test]
fn header_rejects_zero_total() {
    let mut buf = [0u8; 4];
    buf[0..2].copy_from_slice(&0u16.to_be_bytes());
    buf[2..4].copy_from_slice(&0u16.to_be_bytes());
    assert_eq!(FragmentHeader::decode(&buf), Err(Error::TooManyFragments));
}

#[test]
fn reassembly_in_order() {
    let mut r = FragmentReassembler::new(3).unwrap();
    assert!(!r.is_complete());
    r.insert(0, b"hola ").unwrap();
    r.insert(1, b"mundo").unwrap();
    r.insert(2, b" gs!").unwrap();
    assert!(r.is_complete());
    let out = r.finish().unwrap();
    assert_eq!(&out, b"hola mundo gs!");
}

#[test]
fn reassembly_out_of_order() {
    let mut r = FragmentReassembler::new(3).unwrap();
    r.insert(2, b" gs!").unwrap();
    r.insert(0, b"hola ").unwrap();
    r.insert(1, b"mundo").unwrap();
    let out = r.finish().unwrap();
    assert_eq!(&out, b"hola mundo gs!");
}

#[test]
fn reassembly_rejects_duplicate() {
    let mut r = FragmentReassembler::new(2).unwrap();
    r.insert(0, b"a").unwrap();
    assert_eq!(r.insert(0, b"a"), Err(Error::DuplicateFragment));
}

#[test]
fn reassembly_rejects_incomplete() {
    let mut r = FragmentReassembler::new(3).unwrap();
    r.insert(0, b"a").unwrap();
    r.insert(1, b"b").unwrap();
    assert_eq!(r.finish(), Err(Error::IncompleteReassembly));
}

#[test]
fn reassembly_rejects_too_many() {
    assert_eq!(FragmentReassembler::new(0).err(), Some(Error::TooManyFragments));
    assert_eq!(
        FragmentReassembler::new(MAX_FRAGMENTS + 1).err(),
        Some(Error::TooManyFragments)
    );
}

#[test]
fn reassembly_rejects_index_out_of_range() {
    let mut r = FragmentReassembler::new(2).unwrap();
    assert_eq!(r.insert(2, b"x"), Err(Error::FragmentOutOfRange));
    assert!(FragmentReassembler::new(MAX_FRAGMENTS).is_ok());
}

#[test]
fn fragment_header_errors() {
    let mut small = [0u8; 3];
    assert_eq!(
        FragmentHeader { index: 0, total: 1 }.encode(&mut small),
        Err(Error::BufferTooSmall)
    );
    assert!(FragmentHeader::decode(&[0, 1, 0]).is_err());
    let mut buf = [0u8; 4];
    buf[0..2].copy_from_slice(&0u16.to_be_bytes());
    buf[2..4].copy_from_slice(&65u16.to_be_bytes());
    assert_eq!(FragmentHeader::decode(&buf), Err(Error::TooManyFragments));
}

// ── Identity ─────────────────────────────────────────────────────────────

#[test]
fn auth_challenge_payload_roundtrip() {
    let p = AuthChallengePayload { nonce: [0xABu8; 32] };
    let mut buf = [0u8; AuthChallengePayload::SIZE];
    p.encode(&mut buf).unwrap();
    assert_eq!(AuthChallengePayload::decode(&buf).unwrap(), p);
}

#[test]
fn auth_response_payload_roundtrip() {
    let p = AuthResponsePayload {
        public_key: [0x11u8; 32],
        signature: [0x22u8; 64],
    };
    let mut buf = [0u8; AuthResponsePayload::SIZE];
    p.encode(&mut buf).unwrap();
    assert_eq!(AuthResponsePayload::decode(&buf).unwrap(), p);
}

#[test]
fn auth_payloads_refuse_short_buffers() {
    assert_eq!(AuthChallengePayload::decode(&[0u8; 31]), Err(Error::MalformedPayload));
    assert_eq!(AuthResponsePayload::decode(&[0u8; 95]), Err(Error::MalformedPayload));
    let mut small = [0u8; 95];
    let p = AuthResponsePayload { public_key: [1u8; 32], signature: [2u8; 64] };
    assert_eq!(p.encode(&mut small), Err(Error::BufferTooSmall));
}

#[test]
fn identity_public_verify_wrong_sig_fails() {
    let pk = IdentityPublic { bytes: [0u8; 32] };
    assert!(!pk.verify(b"hello", &[0u8; 64]));
}

#[test]
fn identity_sign_and_verify() {
    let identity = Identity::generate().unwrap();
    let public = identity.public();
    let message = b"test challenge nonce 0123456789AB";
    let sig = identity.sign(message);
    assert!(public.verify(message, &sig));
    let mut bad_sig = sig;
    bad_sig[0] ^= 0xFF;
    assert!(!public.verify(message, &bad_sig));
}

#[test]
fn respond_to_challenge_verifies() {
    let identity = Identity::generate().unwrap();
    let nonce = [0x42u8; 32];
    let response = identity.respond_to_challenge(&nonce);
    let pk = IdentityPublic { bytes: response.public_key };
    assert!(pk.verify(&nonce, &response.signature));
}

#[test]
fn from_bytes_roundtrip() {
    let id1 = Identity::generate().unwrap();
    let bytes = id1.to_bytes();
    let id2 = Identity::from_bytes(&bytes);
    assert_eq!(id1.public().bytes, id2.public().bytes);
}

#[test]
fn known_secret_gives_known_public_key() {
    // RFC 8032, test 1: secret key 9d61...7f60 has public key d75a...511a.
    let secret: [u8; 32] = [
        0x9d, 0x61, 0xb1, 0x9d, 0xef, 0xfd, 0x5a, 0x60, 0xba, 0x84, 0x4a, 0xf4, 0x92, 0xec, 0x2c,
        0xc4, 0x44, 0x49, 0xc5, 0x69, 0x7b, 0x32, 0x69, 0x19, 0x70, 0x3b, 0xac, 0x03, 0x1c, 0xae,
        0x7f, 0x60,
    ];
    let id = Identity::from_bytes(&secret);
    let public = id.public();
    assert_eq!(&public.bytes[..4], &[0xd7, 0x5a, 0x98, 0x01]);
    assert_eq!(id.to_bytes(), secret);
    let sig = id.sign(b"");
    assert_eq!(&sig[..4], &[0xe5, 0x56, 0x43, 0x00]);
    assert!(public.verify(b"", &sig));
}

#[test]
fn floor_message_codes_roundtrip_in_extension_range() {
    let all = [
        FloorMessage::Request,
        FloorMessage::Grant,
        FloorMessage::Deny,
        FloorMessage::Release,
        FloorMessage::Taken,
    ];
    let codes: Vec<u8> = all.iter().map(|m| m.code()).collect();
    assert_eq!(codes, vec![0x40, 0x41, 0x42, 0x43, 0x44]);
    for m in all {
        assert_eq!(FloorMessage::from_code(m.code()), Some(m));
        assert_eq!(MessageType::from_code(m.code()), Ok(MessageType::Extension(m.code())));
    }
    assert_eq!(FloorMessage::from_code(0x45), None);
    assert_eq!(FloorMessage::from_code(0x31), None);
}

#[test]
fn ptt_press_and_release_send_floor_then_control() {
    assert_eq!(ptt_messages(true), (FloorMessage::Request, MessageType::ControlResume));
    assert_eq!(ptt_messages(false), (FloorMessage::Release, MessageType::ControlPause));
}

#[test]
fn reassembly_completes_exactly_when_every_index_arrived() {
    let mut r = FragmentReassembler::new(3).unwrap();
    assert!(!r.is_complete());
    r.insert(2, b" gs!").unwrap();
    assert!(r.insert(2, b"again").is_err());
    assert!(r.insert(3, b"out").is_err());
    assert!(!r.is_complete());
    r.insert(0, b"hola ").unwrap();
    assert!(!r.is_complete());
    r.insert(1, b"mundo").unwrap();
    assert!(r.is_complete());
    assert_eq!(r.finish().unwrap(), b"hola mundo gs!".to_vec());
}

#[test]
fn build_pair_works_at_the_given_parameters() {
    let (mut enc, mut dec) = build_pair(CodecId::Pcm, 48_000, 2, 20).unwrap();
    assert_eq!(enc.id(), CodecId::Pcm);
    assert_eq!(dec.id(), CodecId::Pcm);
    assert_eq!(enc.frame_samples(), 960);
    assert_eq!(dec.frame_samples(), 960);
    let samples: Vec<i16> = (0..1920).map(|i| (i as i16).wrapping_mul(37) - 700).collect();
    let mut wire = vec![0u8; 3840];
    assert_eq!(enc.encode(&samples, &mut wire), Ok(3840));
    assert_eq!(wire[0..2], (-700i16).to_le_bytes());
    let mut pcm = vec![0i16; 1920];
    // Stereo: 1920 samples are 960 per channel.
    assert_eq!(dec.decode(&wire, &mut pcm), Ok(960));
    assert_eq!(pcm, samples);
}
