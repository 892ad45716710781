use std::collections::VecDeque;

use gravital_talk::cli::{
    extract_http_body, frames_for_duration, trim_text, parse_codec_arg, ptt_config, ptt_route, session_config,
    CodecArg, EchoAction, EchoRelay, HttpBodyError, PttCommand, PttRoute, PttScreen,
    WavChannelMismatch, WavFrames, PTT_USAGE,
};
use gravital_talk::codec::CodecId;
use gravital_talk::error::Error;
use gravital_talk::header::PacketHeader;
use gravital_talk::io::{
    describe_devices, frame_samples_for, pick_device, pull_i16, pull_u16, DevicePick,
    FrameAccumulator, IoError, StreamConfig,
};
use gravital_talk::message::HandshakeInit;
use gravital_talk::packet::{PacketBuilder, PacketView};
use gravital_talk::relay::PeerAddr;
use gravital_talk::sdk::{
    build_handshake_confirm, build_handshake_init, decode_packet, encode_packet, protocol_version,
    MsgType,
};
use gravital_talk::session::SessionRole;

fn packet(session_id: u32) -> Vec<u8> {
    let mut out = vec![0u8; 64];
    let n = PacketBuilder::new(PacketHeader::new(0x10, session_id, 1, 2), &[1, 2, 3])
        .encode(&mut out)
        .unwrap();
    out.truncate(n);
    out
}

// ── Command-line decisions ───────────────────────────────────────────────

#[test]
fn codec_argument_parses() {
    assert_eq!(parse_codec_arg("pcm"), Ok(CodecArg::Pcm));
    assert_eq!("pcm".parse::<CodecArg>(), Ok(CodecArg::Pcm));
    assert_eq!(parse_codec_arg("mp3"), Err("unknown codec 'mp3'".to_string()));
    assert_eq!(parse_codec_arg("PCM"), Err("unknown codec 'PCM'".to_string()));
    assert_eq!(CodecArg::Pcm.to_codec_id(), CodecId::Pcm);
}

#[test]
fn configurations_of_the_tools() {
    let c = session_config(44_100, 2, 10);
    assert_eq!((c.sample_rate, c.channels, c.frame_duration_ms), (44_100, 2, 10));
    assert_eq!(c.supported_codecs, vec![1, 2]);
    let p = ptt_config();
    assert_eq!((p.sample_rate, p.channels, p.frame_duration_ms), (48_000, 1, 20));
    assert_eq!(frames_for_duration(10, 10), 1000);
    assert_eq!(frames_for_duration(10, 0), 10_000);
    assert_eq!(frames_for_duration(3, 7), 426);
}

#[test]
fn ptt_route_choices() {
    let s = |v: &str| Some(v.to_string());
    assert_eq!(ptt_route(&s("1.2.3.4"), &s("GRVT-2847"), &None, false), Ok(PttRoute::Relay));
    assert_eq!(
        ptt_route(&None, &None, &s("10.0.0.2"), false),
        Ok(PttRoute::Direct(SessionRole::Client))
    );
    assert_eq!(
        ptt_route(&None, &None, &s("10.0.0.2"), true),
        Ok(PttRoute::Direct(SessionRole::Server))
    );
    assert_eq!(ptt_route(&s("r"), &None, &None, false), Err(PTT_USAGE));
    assert_eq!(ptt_route(&s("r"), &s("room"), &s("p"), false), Err(PTT_USAGE));
    assert_eq!(ptt_route(&None, &None, &None, true), Err(PTT_USAGE));
}

#[test]
fn ptt_screen_keys() {
    let mut s = PttScreen::new();
    assert_eq!(s.on_key(' ', false), PttCommand::Press);
    assert!(s.ptt_on);
    assert_eq!(s.on_key('T', false), PttCommand::Release);
    assert!(!s.ptt_on);
    assert_eq!(s.on_key('t', false), PttCommand::Press);
    assert_eq!(s.on_key('x', false), PttCommand::Nothing);
    assert_eq!(s.on_key('c', false), PttCommand::Nothing);
    assert!(s.running);
    assert_eq!(s.on_key('c', true), PttCommand::Quit);
    assert!(!s.running);
    let mut s = PttScreen::new();
    assert_eq!(s.on_key('Q', false), PttCommand::Quit);
    assert!(!s.running && !s.ptt_on);
}

#[test]
fn echo_relay_pairs_peers() {
    let a = PeerAddr::v4([10, 0, 0, 1], 1000);
    let b = PeerAddr::v4([10, 0, 0, 2], 2000);
    let mut relay = EchoRelay::new();
    assert_eq!(relay.handle(&[0u8; 5], a), EchoAction::Malformed);
    assert_eq!(relay.handle(&packet(7), a), EchoAction::Registered);
    assert_eq!(relay.handle(&packet(7), a), EchoAction::Registered);
    assert_eq!(relay.handle(&packet(7), b), EchoAction::Forward(a));
    // A's known peer is still A itself: A's packets register A again.
    assert_eq!(relay.handle(&packet(7), a), EchoAction::Registered);
    assert_eq!(relay.handle(&packet(8), b), EchoAction::Registered);
}

#[test]
fn wav_frames_cut_the_file() {
    assert_eq!(
        WavFrames::new(vec![1, 2], 2, 1, 4).err(),
        Some(WavChannelMismatch { wav: 2, session: 1 })
    );
    let mut f = WavFrames::new(vec![1, 2, 3, 4, 5], 1, 1, 2).unwrap();
    assert_eq!(f.next_frame(), Some(vec![1, 2]));
    assert_eq!(f.next_frame(), Some(vec![3, 4]));
    assert_eq!(f.next_frame(), Some(vec![5]));
    assert_eq!(f.next_frame(), None);
    let mut empty_frames = WavFrames::new(vec![9], 1, 1, 0).unwrap();
    assert_eq!(empty_frames.next_frame(), Some(vec![]));
}

#[test]
fn http_body_is_extracted_and_trimmed() {
    let raw = b"HTTP/1.1 200 OK\r\nContent-Type: text/plain\r\n\r\n  {\"code\":\"GRVT-2847\"}\n";
    assert_eq!(extract_http_body(raw), Ok("{\"code\":\"GRVT-2847\"}".to_string()));
    assert_eq!(extract_http_body(b"\r\n\r\n"), Ok(String::new()));
    assert_eq!(
        extract_http_body(b"HTTP/1.1 200 OK\r\n\r\nfirst\r\n\r\nsecond"),
        Ok("first\r\n\r\nsecond".to_string())
    );
    assert_eq!(
        extract_http_body(b"HTTP/1.1 200 OK\r\nno blank line"),
        Err(HttpBodyError::NoHeaderSeparator)
    );
    assert_eq!(extract_http_body(b"\r\n\r"), Err(HttpBodyError::NoHeaderSeparator));
    assert_eq!(extract_http_body(b"\r\n\r\n\xff ok"), Ok("\u{fffd} ok".to_string()));
}

// ── Audio I/O logic ──────────────────────────────────────────────────────

#[test]
fn stream_config_frames() {
    let c = StreamConfig::default();
    assert_eq!(c, StreamConfig { sample_rate: 48_000, channels: 1, frame_duration_ms: 10 });
    assert_eq!(c.samples_per_frame(), 480);
    let s = StreamConfig { sample_rate: 44_100, channels: 2, frame_duration_ms: 20 };
    assert_eq!(s.samples_per_frame(), 1764);
    assert_eq!(frame_samples_for(22_050, 10, 1), 220);
}

#[test]
fn devices_are_listed_and_picked() {
    let names = vec![Some("Mic".to_string()), None, Some("USB".to_string())];
    let infos = describe_devices(&names, &Some("USB".to_string()));
    assert_eq!(infos.len(), 3);
    assert_eq!(infos[1].name, "<unnamed>");
    assert!(!infos[0].is_default && !infos[1].is_default && infos[2].is_default);
    let none_default = describe_devices(&names, &None);
    assert!(none_default.iter().all(|d| !d.is_default));

    assert_eq!(pick_device(None, &names, true, "input").unwrap(), DevicePick::Default);
    assert_eq!(pick_device(Some("default"), &names, true, "input").unwrap(), DevicePick::Default);
    assert_eq!(pick_device(Some("USB"), &names, false, "input").unwrap(), DevicePick::Listed(2));
    assert!(matches!(
        pick_device(Some("default"), &names, false, "output"),
        Err(IoError::NoDevice { kind: "output" })
    ));
    assert!(matches!(
        pick_device(Some("Speaker"), &names, true, "output"),
        Err(IoError::NoDevice { kind: "output" })
    ));
}

#[test]
fn capture_frames_are_cut_in_order() {
    let mut acc = FrameAccumulator::new(3);
    assert!(acc.push_i16(&[1, 2]).is_empty());
    assert_eq!(acc.push_i16(&[3, 4, 5, 6, 7]), vec![vec![1, 2, 3], vec![4, 5, 6]]);
    assert_eq!(acc.push_i16(&[8, 9]), vec![vec![7, 8, 9]]);
    assert!(acc.push_i16(&[]).is_empty());
    let mut u = FrameAccumulator::new(2);
    assert_eq!(u.push_u16(&[0x8000, 0xFFFF, 0]), vec![vec![0, 0x7FFF]]);
    assert_eq!(u.push_u16(&[0x8001]), vec![vec![-0x8000, 1]]);
    let mut single = FrameAccumulator::new(0);
    assert_eq!(single.push_u16(&[0x8002, 0x8003]), vec![vec![2], vec![3]]);
}

#[test]
fn playback_pulls_then_silence() {
    let mut q: VecDeque<i16> = VecDeque::from(vec![5, -6, 7]);
    let mut out = [1i16; 2];
    pull_i16(&mut out, &mut q);
    assert_eq!(out, [5, -6]);
    assert_eq!(q, VecDeque::from(vec![7]));
    let mut out = [1u16; 3];
    pull_u16(&mut out, &mut q);
    assert_eq!(out, [0x8007, 0x8000, 0x8000]);
    assert!(q.is_empty());
    let mut neg = VecDeque::from(vec![-0x8000i16, 0x7FFF]);
    let mut out = [0u16; 2];
    pull_u16(&mut out, &mut neg);
    assert_eq!(out, [0, 0xFFFF]);
}

// ── Client packet helpers ────────────────────────────────────────────────

#[test]
fn sdk_packets_roundtrip() {
    assert_eq!(protocol_version(), 1);
    let bytes = encode_packet(0x10, 9, 3, 1234, &[7, 8, 9]).unwrap();
    assert_eq!(bytes.len(), 24 + 3 + 4);
    let d = decode_packet(&bytes).unwrap();
    assert_eq!((d.msg_type, d.session_id, d.sequence, d.timestamp), (0x10, 9, 3, 1234));
    assert_eq!(d.payload, vec![7, 8, 9]);
    assert_eq!(decode_packet(&bytes[..5]).unwrap_err(), Error::TooShort);
    assert_eq!(encode_packet(0x10, 1, 0, 0, &[0u8; 1201]).unwrap_err(), Error::PayloadTooLarge);
    assert_eq!(encode_packet(0x10, 1, 0, 0, &[0u8; 1173]).unwrap_err(), Error::BufferTooSmall);
    assert_eq!(encode_packet(0x10, 1, 0, 0, &[0u8; 1172]).unwrap().len(), 1200);
}

#[test]
fn sdk_handshake_builders() {
    let init = build_handshake_init(48_000, 1, 20, 64_000, 3, 0xBEEF).unwrap();
    let view = PacketView::decode(&init).unwrap();
    assert_eq!(view.header().msg_type, MsgType::handshake_init());
    assert_eq!(view.header().session_id, 0);
    let msg = HandshakeInit::decode(view.payload()).unwrap();
    assert_eq!(msg.codec_preferred, 1);
    assert_eq!(msg.protocol_version, 1);
    assert_eq!(msg.nonce, 0xBEEF);
    let confirm = build_handshake_confirm(0x1234_5678, 2).unwrap();
    let view = PacketView::decode(&confirm).unwrap();
    assert_eq!(view.header().msg_type, MsgType::handshake_confirm());
    assert_eq!(view.header().sequence, 2);
    assert_eq!(view.payload(), &[0x12, 0x34, 0x56, 0x78]);
    assert_eq!(
        [
            MsgType::handshake_accept(),
            MsgType::audio_frame(),
            MsgType::heartbeat(),
            MsgType::heartbeat_ack(),
            MsgType::close()
        ],
        [0x02, 0x10, 0x20, 0x21, 0xFF]
    );
}

#[test]
fn trim_removes_unicode_white_space_at_both_ends_only() {
    assert_eq!(trim_text("  \t hola mundo \r\n"), "hola mundo");
    assert_eq!(trim_text("\u{3000}\u{a0}x y\u{2029}\u{85}"), "x y");
    assert_eq!(trim_text(" \n\u{200a} "), "");
    assert_eq!(trim_text(""), "");
    assert_eq!(trim_text("\u{200b}x"), "\u{200b}x");
    for s in ["  a b  ", "\u{1680}é\u{2000}", "x", "\u{feff} y "] {
        assert_eq!(trim_text(s), s.trim());
    }
}
