use gravital_talk::codec::{CodecError, CodecId};
use gravital_talk::codec_session::{
    attach_codec, check_negotiated, conceal, negotiated_codec_of, CodecSession, CodecSessionError,
    GapDetector,
};
use gravital_talk::header::{Flags, PacketHeader};
use gravital_talk::message::{HandshakeAccept, HandshakeConfirm, HandshakeInit};
use gravital_talk::metrics::{Counters, JitterEstimator, LossTracker, Metrics, RttEstimator};
use gravital_talk::packet::PacketBuilder;
use gravital_talk::floor::{FloorMessage, FloorPayload};
use gravital_talk::packet::PacketView;
use gravital_talk::relay::{
    floor_packet, DropCounts, PeerAddr, RelayOut, RouteDecision, Router, SessionEndpoint,
};
use gravital_talk::session::{
    audio_header, client_await_accept, client_check_accept, client_init, handshake_retry_backoff_ms,
    inbound_action, jitter_slots, peer_timed_out, server_accept, server_await_confirm,
    server_await_init, server_check_confirm, Config, HandshakeWait, InboundAction, TransportError,
};

fn packet(msg_type: u8, session_id: u32, payload: &[u8]) -> Vec<u8> {
    let mut out = vec![0u8; 1300];
    let n = PacketBuilder::new(PacketHeader::new(msg_type, session_id, 0, 0), payload)
        .encode(&mut out)
        .unwrap();
    out.truncate(n);
    out
}

// ── Counters, loss, jitter, RTT ──────────────────────────────────────────

#[test]
fn counters_start_at_zero() {
    let c = Counters::new();
    assert_eq!(c.packets_sent(), 0);
    assert_eq!(c.bytes_sent(), 0);
}

#[test]
fn record_sent_increments() {
    let mut c = Counters::new();
    c.record_sent(100);
    c.record_sent(200);
    assert_eq!(c.packets_sent(), 2);
    assert_eq!(c.bytes_sent(), 300);
}

#[test]
fn record_received_increments() {
    let mut c = Counters::new();
    c.record_received(50);
    assert_eq!(c.packets_received(), 1);
    assert_eq!(c.bytes_received(), 50);
}

#[test]
fn counters_integrity_errors_and_wrapping() {
    let mut c = Counters::new();
    c.record_integrity_error();
    c.record_integrity_error();
    assert_eq!(c.integrity_errors(), 2);
    c.record_received(u64::MAX);
    c.record_received(2);
    assert_eq!(c.bytes_received(), 1);
    assert_eq!(c.packets_received(), 2);
}

#[test]
fn empty_has_no_loss_reported() {
    // No loss and no reordering reported before any packet.
    let t = LossTracker::new();
    assert_eq!(t.lost_in_window(), 0);
    assert_eq!(t.total_packets(), 0);
    assert_eq!(t.reorder_count(), 0);
    assert!(!t.is_initialised());
}

#[test]
fn perfect_stream_no_loss() {
    let mut t = LossTracker::new();
    for i in 0..64u32 {
        t.record(i);
    }
    assert_eq!(t.window_bitmap(), u64::MAX);
    assert_eq!(t.lost_in_window(), 0);
    assert_eq!(t.total_packets(), 64);
}

#[test]
fn detects_gap() {
    let mut t = LossTracker::new();
    for i in 0..10u32 {
        if i == 3 {
            continue;
        }
        t.record(i);
    }
    assert!(t.lost_in_window() > 0);
    // Nine packets received, the packet six before the newest missing.
    assert_eq!(t.window_bitmap(), 0b11_1011_1111);
    assert_eq!(t.lost_in_window(), 55);
}

#[test]
fn reorder_counted() {
    let mut t = LossTracker::new();
    t.record(0);
    t.record(1);
    t.record(3);
    assert_eq!(t.window_bitmap(), 0b1101);
    t.record(2);
    assert!(t.reorder_count() > 0 && t.total_packets() > 0);
    assert_eq!(t.window_bitmap(), 0b1111);
    assert_eq!(t.reorder_count(), 1);
    assert_eq!(t.total_packets(), 4);
}

#[test]
fn loss_far_jump_clears_the_window() {
    let mut t = LossTracker::new();
    t.record(10);
    t.record(10 + 100);
    assert_eq!(t.window_bitmap(), 1);
    t.record(10);
    assert_eq!(t.window_bitmap(), 1);
    assert_eq!(t.reorder_count(), 1);
    t.record(110);
    assert_eq!(t.total_packets(), 4);
}

#[test]
fn loss_sequence_wraps() {
    let mut t = LossTracker::new();
    t.record(u32::MAX);
    t.record(0);
    assert_eq!(t.window_bitmap(), 0b11);
    assert_eq!(t.reorder_count(), 0);
}

#[test]
fn initial_jitter_zero() {
    let j = JitterEstimator::new();
    assert_eq!(j.current_us(), 0);
}

#[test]
fn stable_stream_no_jitter() {
    let mut j = JitterEstimator::new();
    for i in 0..10 {
        let send = (i * 20_000) as u64;
        let recv = (1_000_000 + i * 20_000) as u64;
        j.record(send, recv);
    }
    assert_eq!(j.current_us(), 0);
}

#[test]
fn jittery_stream_detected() {
    let mut j = JitterEstimator::new();
    let arrivals = [0, 25_000, 40_000, 67_000, 80_000, 102_000];
    let sends = [0, 20_000, 40_000, 60_000, 80_000, 100_000];
    for (s, r) in sends.iter().zip(arrivals.iter()) {
        j.record(*s, *r);
    }
    assert!(j.current_us() > 0);
}

#[test]
fn jitter_filter_exact_value() {
    let mut j = JitterEstimator::new();
    j.record(0, 1_000);
    j.record(20_000, 22_600);
    // |D| = 1600 µs; J = 0 + (1600 - 0) / 16 = 100.
    assert_eq!(j.current_us(), 100);
}

#[test]
fn initial_is_none() {
    let r = RttEstimator::new();
    assert_eq!(r.current_us(), None);
}

#[test]
fn first_sample_becomes_initial() {
    let mut r = RttEstimator::new();
    r.record(10_000);
    assert_eq!(r.current_us(), Some(10_000));
}

#[test]
fn ewma_smooths_samples() {
    let mut r = RttEstimator::new();
    r.record(10_000);
    r.record(20_000);
    assert_eq!(r.current_us(), Some(11_250));
}

#[test]
fn ewma_smooths_downward() {
    let mut r = RttEstimator::new();
    r.record(100_000);
    r.record(20_000);
    assert_eq!(r.current_us(), Some(90_000));
}

#[test]
fn metrics_start_empty() {
    let m = Metrics::new();
    assert_eq!(m.counters.packets_sent(), 0);
    assert_eq!(m.rtt.current_us(), None);
    assert_eq!(m.jitter.current_us(), 0);
    assert_eq!(m.loss.lost_in_window(), 0);
}

// ── Session decisions ────────────────────────────────────────────────────

#[test]
fn jitter_slots_power_of_two() {
    assert_eq!(jitter_slots(40, 20), 16);
    assert_eq!(jitter_slots(100, 20), 16);
    assert_eq!(jitter_slots(1000, 20), 64);
}

#[test]
fn jitter_slots_edges() {
    assert_eq!(jitter_slots(0, 0), 16);
    assert_eq!(jitter_slots(340, 10), 64);
    assert_eq!(jitter_slots(65535, 0), 65536);
    assert_eq!(jitter_slots(320, 20), 16);
    assert_eq!(jitter_slots(340, 20), 32);
}

#[test]
fn config_defaults() {
    let c = Config::default();
    assert_eq!(c.sample_rate, 48_000);
    assert_eq!(c.channels, 1);
    assert_eq!(c.codec_preferred, 1);
    assert_eq!(c.supported_codecs, vec![1, 2]);
    assert_eq!(c.mtu, 1500);
}

#[test]
fn handshake_decisions_agree() {
    let client_cfg = Config::default();
    let mut server_cfg = Config::default();
    server_cfg.max_bitrate = 32_000;
    server_cfg.capability_flags = 0b0110;
    let mut client_with_caps = client_cfg.clone();
    client_with_caps.capability_flags = 0b0011;
    let init = client_init(&client_with_caps, 0xABCD);
    assert_eq!(init.protocol_version, 1);
    assert_eq!(init.nonce, 0xABCD);
    let accept = server_accept(&server_cfg, &init, 77).unwrap();
    assert_eq!(accept.codec_accepted, 1);
    assert_eq!(accept.max_bitrate, 32_000);
    assert_eq!(accept.capability_flags, 0b0010);
    assert_eq!(accept.session_id, 77);
    assert_eq!(accept.nonce, 0xABCD);
    let (codec, sid) = client_check_accept(&client_with_caps, 0xABCD, &accept).unwrap();
    assert_eq!((codec, sid), (1, 77));
    assert!(server_check_confirm(&HandshakeConfirm { session_id: 77 }, 77).is_ok());
    assert!(matches!(
        server_check_confirm(&HandshakeConfirm { session_id: 78 }, 77),
        Err(TransportError::Handshake("session_id mismatch"))
    ));
}

#[test]
fn handshake_refusals() {
    let cfg = Config::default();
    let mut init = client_init(&cfg, 1);
    init.protocol_version = 2;
    assert!(matches!(
        server_accept(&cfg, &init, 5),
        Err(TransportError::Handshake("protocol version mismatch"))
    ));
    let mut empty = Config::default();
    empty.supported_codecs = vec![];
    let init = client_init(&cfg, 1);
    assert!(matches!(
        server_accept(&empty, &init, 5),
        Err(TransportError::Handshake("no supported codecs configured"))
    ));
    let mut only_opus = Config::default();
    only_opus.supported_codecs = vec![2];
    assert_eq!(server_accept(&only_opus, &init, 5).unwrap().codec_accepted, 2);
    let accept = server_accept(&cfg, &init, 5).unwrap();
    assert!(matches!(
        client_check_accept(&cfg, 2, &accept),
        Err(TransportError::Handshake("nonce mismatch"))
    ));
    let mut pcm_only = Config::default();
    pcm_only.supported_codecs = vec![1];
    let accept_opus = HandshakeAccept { codec_accepted: 2, ..accept };
    assert!(matches!(
        client_check_accept(&pcm_only, 1, &accept_opus),
        Err(TransportError::Handshake("server selected unsupported codec"))
    ));
}

#[test]
fn handshake_waits_skip_and_fail() {
    let init = client_init(&Config::default(), 9);
    let mut payload = [0u8; HandshakeInit::SIZE];
    init.encode(&mut payload).unwrap();
    let good = packet(0x01, 0, &payload);
    assert!(matches!(server_await_init(&good, true), HandshakeWait::Got(i) if i == init));
    assert!(matches!(server_await_init(&good, false), HandshakeWait::Skip));
    assert!(matches!(server_await_init(&good[..10], true), HandshakeWait::Skip));
    assert!(matches!(server_await_init(&packet(0x10, 0, &[]), true), HandshakeWait::Skip));
    assert!(matches!(server_await_init(&packet(0x01, 0, &[1, 2]), true), HandshakeWait::Fail(_)));
    let confirm = packet(0x03, 5, &5u32.to_be_bytes());
    assert!(matches!(
        server_await_confirm(&confirm, true),
        HandshakeWait::Got(HandshakeConfirm { session_id: 5 })
    ));
    assert!(matches!(client_await_accept(&good[..10]), HandshakeWait::Fail(_)));
    assert!(matches!(client_await_accept(&good), HandshakeWait::Skip));
}

#[test]
fn retry_backoff_and_dispatch() {
    assert_eq!(handshake_retry_backoff_ms(0), 100);
    assert_eq!(handshake_retry_backoff_ms(3), 800);
    assert_eq!(handshake_retry_backoff_ms(4), 1600);
    assert_eq!(handshake_retry_backoff_ms(40), 1600);
    assert_eq!(inbound_action(0x10), InboundAction::DeliverAudio);
    assert_eq!(inbound_action(0x20), InboundAction::ReplyHeartbeatAck);
    assert_eq!(inbound_action(0xFF), InboundAction::PeerClosed);
    assert_eq!(inbound_action(0x21), InboundAction::Ignore);
    assert_eq!(inbound_action(0x99), InboundAction::IntegrityError);
    assert!(!peer_timed_out(10_000_000, 0));
    assert!(peer_timed_out(10_000_001, 1));
    assert!(!peer_timed_out(5_000_000, 1));
    assert_eq!(
        audio_header(3, 4, 5),
        PacketHeader {
            version: 1,
            flags: Flags::empty(),
            msg_type: 0x10,
            session_id: 3,
            sequence: 4,
            timestamp: 5
        }
    );
}

// ── Codec session ────────────────────────────────────────────────────────

#[test]
fn attach_codec_puts_codec_first() {
    let mut cfg = Config::default();
    cfg.supported_codecs = vec![2];
    let c = attach_codec(cfg, CodecId::Pcm);
    assert_eq!(c.codec_preferred, 1);
    assert_eq!(c.supported_codecs, vec![1, 2]);
    let c = attach_codec(Config::default(), CodecId::Opus);
    assert_eq!(c.codec_preferred, 2);
    assert_eq!(c.supported_codecs, vec![1, 2]);
}

#[test]
fn negotiated_codec_checks() {
    assert_eq!(negotiated_codec_of(0), None);
    assert_eq!(negotiated_codec_of(1), Some(CodecId::Pcm));
    assert!(check_negotiated(CodecId::Pcm, 1).is_ok());
    match check_negotiated(CodecId::Opus, 1) {
        Err(CodecSessionError::CodecMismatch { requested, negotiated }) => {
            assert_eq!(requested, CodecId::Opus);
            assert_eq!(negotiated, CodecId::Pcm);
        }
        other => panic!("expected CodecMismatch, got {other:?}"),
    }
}

#[test]
fn gap_detection_and_concealment() {
    let mut g = GapDetector::new();
    assert_eq!(g.observe(10), 0);
    assert_eq!(g.observe(11), 0);
    assert_eq!(g.observe(14), 2);
    assert_eq!(g.observe(14), 0);
    assert_eq!(g.observe(3), u32::MAX - 11);
    let frames = conceal(2, 3, vec![7, 8]);
    assert_eq!(frames, vec![vec![0, 0, 0], vec![0, 0, 0], vec![7, 8]]);
    assert_eq!(conceal(100, 1, vec![5]).len(), 5);
    assert_eq!(conceal(0, 4, vec![1]), vec![vec![1]]);
}

#[test]
fn codec_session_encodes_and_conceals() {
    let mut cfg = Config::default();
    cfg.sample_rate = 8_000;
    cfg.frame_duration_ms = 1;
    let mut cs = CodecSession::new(cfg, CodecId::Pcm).unwrap();
    assert_eq!(cs.codec(), CodecId::Pcm);
    assert_eq!(cs.config().codec_preferred, 1);
    let bytes = cs.encode_samples(&[1i16, -1, 2, 3, 4, 5, 6, 7]).unwrap();
    assert_eq!(bytes, vec![1, 0, 0xFF, 0xFF, 2, 0, 3, 0, 4, 0, 5, 0, 6, 0, 7, 0]);
    assert!(matches!(
        cs.encode_samples(&[1i16]),
        Err(CodecSessionError::Codec(CodecError::FrameSizeMismatch { expected: 8, got: 1 }))
    ));
    assert!(cs.take_concealed().is_none());
    assert_eq!(cs.accept_frame(5, &[1, 0, 2, 0]).unwrap(), vec![1, 2]);
    // Frames 6 and 7 were lost: two silent frames come first.
    assert_eq!(cs.accept_frame(8, &[3, 0]).unwrap(), vec![0; 8]);
    assert_eq!(cs.take_concealed(), Some(vec![0; 8]));
    assert_eq!(cs.take_concealed(), Some(vec![3]));
    assert_eq!(cs.take_concealed(), None);
    assert!(cs.check_handshake(1).is_ok());
    assert!(matches!(cs.check_handshake(2), Err(CodecSessionError::CodecMismatch { .. })));
    assert!(matches!(
        CodecSession::new(Config::default(), CodecId::Opus),
        Err(CodecSessionError::Codec(CodecError::Unsupported(CodecId::Opus)))
    ));
}

// ── Relay router ─────────────────────────────────────────────────────────

fn ep_udp(port: u16) -> SessionEndpoint {
    SessionEndpoint::Udp(PeerAddr::v4([127, 0, 0, 1], port))
}

#[test]
fn first_packet_registers_endpoint_a() {
    let mut router = Router::new(100);
    let r = router.route(42, ep_udp(1000), 0);
    assert!(matches!(r, RouteDecision::Registered));
    assert_eq!(router.active_sessions(), 1);
}

#[test]
fn second_peer_completes_session() {
    let mut router = Router::new(100);
    router.route(42, ep_udp(1000), 0);
    let r = router.route(42, ep_udp(2000), 0);
    assert!(matches!(r, RouteDecision::Registered));

    let r = router.route(42, ep_udp(1000), 0);
    match r {
        RouteDecision::Forward(SessionEndpoint::Udp(addr)) => {
            assert_eq!(addr.port, 2000);
        }
        other => panic!("expected Forward to B, got {other:?}"),
    }

    let r = router.route(42, ep_udp(2000), 0);
    match r {
        RouteDecision::Forward(SessionEndpoint::Udp(addr)) => {
            assert_eq!(addr.port, 1000);
        }
        other => panic!("expected Forward to A, got {other:?}"),
    }
}

#[test]
fn third_peer_in_full_session_is_dropped() {
    let mut router = Router::new(100);
    router.route(42, ep_udp(1000), 0);
    router.route(42, ep_udp(2000), 0);
    let r = router.route(42, ep_udp(3000), 0);
    assert!(matches!(r, RouteDecision::Dropped));
}

#[test]
fn zero_session_id_dropped() {
    let mut router = Router::new(100);
    let r = router.route(0, ep_udp(1000), 0);
    assert!(matches!(r, RouteDecision::Dropped));
}

#[test]
fn max_sessions_enforced() {
    let mut router = Router::new(2);
    router.route(1, ep_udp(1000), 0);
    router.route(2, ep_udp(2000), 0);
    let r = router.route(3, ep_udp(3000), 0);
    assert!(matches!(r, RouteDecision::Dropped));
}

#[test]
fn drops_are_counted_by_reason() {
    let mut router = Router::new(1);
    router.route(0, ep_udp(1), 0);
    router.route(1, ep_udp(1), 0);
    router.route(1, ep_udp(2), 0);
    router.route(1, SessionEndpoint::WebSocket(9), 0);
    router.route(2, ep_udp(1), 0);
    assert_eq!(
        router.drops(),
        DropCounts { zero_session: 1, session_full: 1, max_sessions: 1, malformed: 0 }
    );
    assert_eq!(router.route_datagram(&[1, 2, 3], ep_udp(1), 0), RouteDecision::Dropped);
    assert_eq!(router.drops().malformed, 1);
    let r = router.route_datagram(&packet(0x10, 1, &[1]), ep_udp(2), 0);
    assert_eq!(r, RouteDecision::Forward(ep_udp(1)));
}

#[test]
fn idle_sessions_are_evicted() {
    let mut router = Router::new(10);
    router.route(1, ep_udp(1), 0);
    router.route(2, ep_udp(2), 50_000);
    assert_eq!(router.evict_idle(60, 70_000), 1);
    assert_eq!(router.active_sessions(), 1);
    assert_eq!(router.evict_idle(60, 109_999), 0);
    assert_eq!(router.evict_idle(60, 110_000), 1);
    assert_eq!(router.active_sessions(), 0);
}

#[test]
fn endpoints_match_by_origin() {
    let a = ep_udp(5);
    assert!(a.matches(&ep_udp(5)));
    assert!(!a.matches(&ep_udp(6)));
    assert!(!a.matches(&SessionEndpoint::WebSocket(5)));
    assert!(a.is_udp() && !a.is_ws());
    assert!(SessionEndpoint::WebSocket(1).is_ws());
}

#[test]
fn deliver_cuts_to_produced_samples_and_queues_silence() {
    let mut cfg = Config::default();
    cfg.sample_rate = 8_000;
    cfg.frame_duration_ms = 1;
    let mut cs = CodecSession::new(cfg, CodecId::Pcm).unwrap();
    // No gap: the decoded buffer cut to the samples the decoder produced.
    assert_eq!(cs.deliver(0, vec![4, 5, 6, 0, 0], 3), vec![4, 5, 6]);
    assert_eq!(cs.take_concealed(), None);
    // One lost frame: a silent frame goes out, the decoded frame waits.
    assert_eq!(cs.deliver(1, vec![7, 8, 0], 2), vec![0; 8]);
    assert_eq!(cs.take_concealed(), Some(vec![7, 8]));
    assert_eq!(cs.take_concealed(), None);
    // A long gap is capped at four silent frames before the decoded one.
    assert_eq!(cs.deliver(50, vec![9], 1), vec![0; 8]);
    assert_eq!(cs.take_concealed(), Some(vec![0; 8]));
    assert_eq!(cs.take_concealed(), Some(vec![0; 8]));
    assert_eq!(cs.take_concealed(), Some(vec![0; 8]));
    assert_eq!(cs.take_concealed(), Some(vec![9]));
    assert_eq!(cs.take_concealed(), None);
}

fn floor_replies(out: RelayOut) -> (u32, Vec<(FloorMessage, SessionEndpoint)>) {
    match out {
        RelayOut::Floor(session_id, replies) => (session_id, replies),
        other => panic!("expected floor replies, got {other:?}"),
    }
}

#[test]
fn relay_arbitrates_the_floor_and_never_forwards_it() {
    let mut router = Router::new(100);
    let a = ep_udp(1000);
    let b = ep_udp(2000);
    let request = packet(FloorMessage::Request.code(), 7, &7u32.to_be_bytes());
    let release = packet(FloorMessage::Release.code(), 7, &7u32.to_be_bytes());
    // A asks first: it is registered and granted; nobody else to tell.
    assert_eq!(floor_replies(router.relay_datagram(&request, a, 0)), (7, vec![(FloorMessage::Grant, a)]));
    // B joins with audio; the audio reaches A.
    assert!(matches!(router.relay_datagram(&packet(0x10, 7, &[1]), b, 1), RelayOut::Route(RouteDecision::Registered)));
    assert!(matches!(
        router.relay_datagram(&packet(0x10, 7, &[1]), b, 2),
        RelayOut::Route(RouteDecision::Forward(e)) if e == a
    ));
    // B asks while A holds the floor: denied.
    assert_eq!(floor_replies(router.relay_datagram(&request, b, 3)), (7, vec![(FloorMessage::Deny, b)]));
    // B cannot release what it does not hold.
    assert_eq!(floor_replies(router.relay_datagram(&release, b, 4)), (7, vec![]));
    // A releases: B is told.
    assert_eq!(floor_replies(router.relay_datagram(&release, a, 5)), (7, vec![(FloorMessage::Release, b)]));
    // Now B is granted and A is told the floor was taken.
    assert_eq!(
        floor_replies(router.relay_datagram(&request, b, 6)),
        (7, vec![(FloorMessage::Grant, b), (FloorMessage::Taken, a)])
    );
    // A third endpoint is refused by the routing and gets no answer.
    assert_eq!(floor_replies(router.relay_datagram(&request, ep_udp(3000), 7)), (7, vec![]));
    assert_eq!(router.drops().session_full, 1);
    // Garbage is dropped and counted.
    assert!(matches!(router.relay_datagram(&[0, 1, 2], a, 8), RelayOut::Route(RouteDecision::Dropped)));
    assert_eq!(router.drops().malformed, 1);
}

#[test]
fn floor_packet_carries_the_session_id() {
    let bytes = floor_packet(FloorMessage::Taken, 0xABCD_0102);
    let view = PacketView::decode(&bytes).unwrap();
    assert_eq!(view.header().msg_type, 0x44);
    assert_eq!(view.header().session_id, 0xABCD_0102);
    assert_eq!(view.header().sequence, 0);
    assert_eq!(FloorPayload::decode(view.payload()).unwrap().ssrc, 0xABCD_0102);
}
