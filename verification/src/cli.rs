//! The decisions of the command-line tools: the codec argument, the
//! session configurations they run with, how a push-to-talk call connects,
//! the keys of its screen, the echo relay, WAV frames and HTTP bodies.

use vstd::prelude::*;

use std::collections::HashMap;

use crate::codec::CodecId;
use crate::error::Error;
use crate::header::PacketHeader;
use crate::packet::{parse_packet, PacketView};
use crate::relay::PeerAddr;
use crate::session::{Config, SessionRole};
use crate::text::same_text;

verus! {

broadcast use vstd::std_specs::hash::group_hash_axioms;

// ── Codec argument ─────────────────────────────────────────────────────────

/// The codec chosen on the command line. PCM is the codec of this build.
#[derive(Debug, Clone, Copy, PartialEq, Eq, Structural)]
pub enum CodecArg {
    Pcm,
}

impl CodecArg {
    /// The codec the argument names.
    pub fn to_codec_id(self) -> (c: CodecId)
        ensures
            c == CodecId::Pcm,
    {
        match self {
            CodecArg::Pcm => CodecId::Pcm,
        }
    }
}

/// Parses a codec argument: `pcm`, or the message naming an unknown codec.
pub fn parse_codec_arg(s: &str) -> (r: Result<CodecArg, String>)
    ensures
        (r is Ok) <==> s@ == "pcm"@,
        r matches Err(m) ==> m@ == "unknown codec '"@ + s@ + "'"@,
{
    if same_text(s, "pcm") {
        return Ok(CodecArg::Pcm);
    }
    let mut m = String::from_str("unknown codec '");
    m.append(s);
    m.append("'");
    Err(m)
}

impl std::str::FromStr for CodecArg {
    type Err = String;

    /// As [`parse_codec_arg`]: `pcm`, or the message naming an unknown codec.
    fn from_str(s: &str) -> (r: Result<CodecArg, String>)
        ensures
            (r is Ok) <==> s@ == "pcm"@,
            r matches Err(m) ==> m@ == "unknown codec '"@ + s@ + "'"@,
    {
        parse_codec_arg(s)
    }
}

// ── Session configurations ─────────────────────────────────────────────────

/// The default configuration with the given stream parameters.
pub fn session_config(sample_rate: u32, channels: u8, frame_duration_ms: u8) -> (c: Config)
    ensures
        c.sample_rate == sample_rate,
        c.channels == channels,
        c.frame_duration_ms == frame_duration_ms,
        c.max_bitrate == crate::constants::DEFAULT_MAX_BITRATE,
        c.codec_preferred == 0x01,
        c.supported_codecs@ == seq![0x01u8, 0x02u8],
        c.capability_flags == 0,
        c.jitter_buffer_ms == crate::constants::DEFAULT_JITTER_BUFFER_MS,
        c.mtu == crate::constants::DEFAULT_MTU,
{
    let mut c = Config::default();
    c.sample_rate = sample_rate;
    c.channels = channels;
    c.frame_duration_ms = frame_duration_ms;
    c
}

/// Frames of `send` and `receive` last 10 ms.
pub const TRANSFER_FRAME_MS: u8 = 10;

/// A push-to-talk call runs 48 kHz mono in 20 ms frames.
pub fn ptt_config() -> (c: Config)
    ensures
        c.sample_rate == 48_000,
        c.channels == 1,
        c.frame_duration_ms == 20,
        c.max_bitrate == crate::constants::DEFAULT_MAX_BITRATE,
        c.codec_preferred == 0x01,
        c.supported_codecs@ == seq![0x01u8, 0x02u8],
        c.capability_flags == 0,
        c.jitter_buffer_ms == crate::constants::DEFAULT_JITTER_BUFFER_MS,
        c.mtu == crate::constants::DEFAULT_MTU,
{
    session_config(48_000, 1, 20)
}

/// The frames sent in `duration_s` seconds of frames of `frame_ms`
/// milliseconds (a frame length of 0 counts as 1 ms).
pub open spec fn spec_frames_for(duration_s: u64, frame_ms: u8) -> int {
    duration_s * (1000int / (if frame_ms == 0 {
        1int
    } else {
        frame_ms as int
    }))
}

/// The number of frames to send for a duration.
pub fn frames_for_duration(duration_s: u64, frame_ms: u8) -> (n: u64)
    requires
        spec_frames_for(duration_s, frame_ms) <= u64::MAX,
    ensures
        n == spec_frames_for(duration_s, frame_ms),
{
    let fd: u64 = if frame_ms == 0 {
        1
    } else {
        frame_ms as u64
    };
    let per_s = 1000 / fd;
    assert(per_s == 1000int / (fd as int));
    duration_s * per_s
}

// ── Push-to-talk ───────────────────────────────────────────────────────────

/// How a push-to-talk call reaches its peer.
#[derive(Debug, Clone, Copy, PartialEq, Eq, Structural)]
pub enum PttRoute {
    /// Through a relay, after resolving the room code; this side is the
    /// client of the handshake.
    Relay,
    /// Straight to the peer, in the given role of the handshake.
    Direct(SessionRole),
}

/// The refusal of any other combination of options.
pub const PTT_USAGE: &'static str = "use either --relay + --room  OR  --peer [--listen]";

/// The route of a call: a relay with a room and no peer, or a peer with
/// neither relay nor room (listening makes this side the server).
pub fn ptt_route(relay: &Option<String>, room: &Option<String>, peer: &Option<String>, listen: bool) -> (r: Result<
    PttRoute,
    &'static str,
>)
    ensures
        (*relay is Some && *room is Some && *peer is None) ==> r == Ok::<PttRoute, &'static str>(PttRoute::Relay),
        (*relay is None && *room is None && *peer is Some) ==> r == Ok::<PttRoute, &'static str>(
            PttRoute::Direct(
                if listen {
                    SessionRole::Server
                } else {
                    SessionRole::Client
                },
            ),
        ),
        !((*relay is Some && *room is Some && *peer is None) || (*relay is None && *room is None
            && *peer is Some)) ==> r == Err::<PttRoute, &'static str>(PTT_USAGE),
{
    if relay.is_some() && room.is_some() && peer.is_none() {
        Ok(PttRoute::Relay)
    } else if relay.is_none() && room.is_none() && peer.is_some() {
        let role = if listen {
            SessionRole::Server
        } else {
            SessionRole::Client
        };
        Ok(PttRoute::Direct(role))
    } else {
        Err(PTT_USAGE)
    }
}

/// What the push-to-talk screen asks of the session after a key.
#[derive(Debug, Clone, Copy, PartialEq, Eq, Structural)]
pub enum PttCommand {
    /// Leave the call.
    Quit,
    /// Start talking: request the floor.
    Press,
    /// Stop talking: release the floor.
    Release,
    /// Nothing to do.
    Nothing,
}

/// The state of the push-to-talk screen.
#[derive(Debug, Clone, Copy, PartialEq, Eq, Structural)]
pub struct PttScreen {
    /// Whether this side is talking.
    pub ptt_on: bool,
    /// Whether the call goes on.
    pub running: bool,
}

/// The screen after a key and what it asks: `q` quits, as does Ctrl+C;
/// space or `t` toggles talking.
pub open spec fn ptt_key(s: PttScreen, key: char, ctrl: bool) -> (PttScreen, PttCommand) {
    if key == 'q' || key == 'Q' || (key == 'c' && ctrl) {
        (PttScreen { running: false, ..s }, PttCommand::Quit)
    } else if key == ' ' || key == 't' || key == 'T' {
        (
            PttScreen { ptt_on: !s.ptt_on, ..s },
            if s.ptt_on {
                PttCommand::Release
            } else {
                PttCommand::Press
            },
        )
    } else {
        (s, PttCommand::Nothing)
    }
}

/// Toggling twice comes back to the same screen, and the two toggles ask
/// for a press and a release, one each.
pub proof fn lemma_ptt_toggle_twice(s: PttScreen, first: char, second: char)
    requires
        first == ' ' || first == 't' || first == 'T',
        second == ' ' || second == 't' || second == 'T',
    ensures
        ptt_key(ptt_key(s, first, false).0, second, false).0 == s,
        ptt_key(s, first, false).1 != ptt_key(ptt_key(s, first, false).0, second, false).1,
        ptt_key(s, first, false).1 == PttCommand::Press || ptt_key(s, first, false).1 == PttCommand::Release,
{
}

impl PttScreen {
    /// A screen that is not talking and runs.
    pub fn new() -> (s: PttScreen)
        ensures
            s == (PttScreen { ptt_on: false, running: true }),
    {
        PttScreen { ptt_on: false, running: true }
    }

    /// Handles a key press (`ctrl` when Control is held).
    pub fn on_key(&mut self, key: char, ctrl: bool) -> (c: PttCommand)
        ensures
            (*final(self), c) == ptt_key(*old(self), key, ctrl),
    {
        if key == 'q' || key == 'Q' || (key == 'c' && ctrl) {
            self.running = false;
            return PttCommand::Quit;
        }
        if key == ' ' || key == 't' || key == 'T' {
            let was_on = self.ptt_on;
            self.ptt_on = !was_on;
            if was_on {
                return PttCommand::Release;
            } else {
                return PttCommand::Press;
            }
        }
        PttCommand::Nothing
    }
}

// ── Echo relay ─────────────────────────────────────────────────────────────

/// What the echo relay does with a datagram.
#[derive(Debug, Clone, Copy, PartialEq, Eq, Structural)]
pub enum EchoAction {
    /// Send the datagram on to this peer of its session.
    Forward(PeerAddr),
    /// The sender is now the known peer of its session.
    Registered,
    /// Not a valid packet: drop it.
    Malformed,
}

/// The echo relay on a datagram: a packet of a session whose known peer is
/// another address goes to that peer; otherwise the sender becomes the
/// session's known peer.
pub open spec fn echo_step(routes: Map<u32, PeerAddr>, datagram: Seq<u8>, from: PeerAddr) -> (
    Map<u32, PeerAddr>,
    EchoAction,
) {
    match parse_packet(datagram) {
        Err(_) => (routes, EchoAction::Malformed),
        Ok((h, _)) => {
            if routes.contains_key(h.session_id) && routes[h.session_id] != from {
                (routes, EchoAction::Forward(routes[h.session_id]))
            } else {
                (routes.insert(h.session_id, from), EchoAction::Registered)
            }
        },
    }
}

/// A relay that echoes packets between the two latest peers of each
/// session.
#[derive(Debug)]
pub struct EchoRelay {
    routes: HashMap<u32, PeerAddr>,
}

impl View for EchoRelay {
    /// The known peer of each session.
    type V = Map<u32, PeerAddr>;

    closed spec fn view(&self) -> Map<u32, PeerAddr> {
        self.routes@
    }
}

impl EchoRelay {
    /// A relay that knows no peer.
    pub fn new() -> (r: EchoRelay)
        ensures
            r@ == Map::<u32, PeerAddr>::empty(),
    {
        EchoRelay { routes: HashMap::new() }
    }

    /// Handles a datagram from `from`, as [`echo_step`] says.
    pub fn handle(&mut self, datagram: &[u8], from: PeerAddr) -> (a: EchoAction)
        ensures
            (final(self)@, a) == echo_step(old(self)@, datagram@, from),
    {
        let view = match PacketView::decode(datagram) {
            Ok(v) => v,
            Err(_) => {
                return EchoAction::Malformed;
            },
        };
        let sid = view.header().session_id;
        let known: Option<PeerAddr> = match self.routes.get(&sid) {
            Some(p) => Some(*p),
            None => None,
        };
        if let Some(other) = known {
            if other != from {
                return EchoAction::Forward(other);
            }
        }
        self.routes.insert(sid, from);
        EchoAction::Registered
    }
}

// ── WAV frames ─────────────────────────────────────────────────────────────

/// A WAV file whose channel count differs from the session's.
#[derive(Debug, Clone, Copy, PartialEq, Eq, Structural)]
pub struct WavChannelMismatch {
    pub wav: u16,
    pub session: u8,
}

/// The samples of a WAV file handed out a frame at a time.
#[derive(Debug)]
pub struct WavFrames {
    samples: Vec<i16>,
    per_frame: usize,
}

impl View for WavFrames {
    /// The samples not handed out yet, and the samples per frame.
    type V = (Seq<i16>, usize);

    closed spec fn view(&self) -> (Seq<i16>, usize) {
        (self.samples@, self.per_frame)
    }
}

impl WavFrames {
    /// The frames of `samples` read from a WAV file of `wav_channels`
    /// channels, for a session of `channels` channels.
    pub fn new(samples: Vec<i16>, wav_channels: u16, channels: u8, per_frame: usize) -> (r: Result<
        WavFrames,
        WavChannelMismatch,
    >)
        ensures
            (r is Ok) <==> wav_channels == channels as u16,
            r matches Ok(f) ==> f@ == (samples@, per_frame),
            r matches Err(e) ==> e == (WavChannelMismatch { wav: wav_channels, session: channels }),
    {
        if wav_channels != channels as u16 {
            return Err(WavChannelMismatch { wav: wav_channels, session: channels });
        }
        Ok(WavFrames { samples, per_frame })
    }

    /// The next frame: the next `per_frame` samples, or all that are left
    /// when fewer; `None` once none is left.
    pub fn next_frame(&mut self) -> (f: Option<Vec<i16>>)
        ensures
            final(self)@.1 == old(self)@.1,
            old(self)@.0.len() == 0 ==> f is None && final(self)@.0 == old(self)@.0,
            old(self)@.0.len() > 0 ==> {
                let take = if old(self)@.1 < old(self)@.0.len() {
                    old(self)@.1 as int
                } else {
                    old(self)@.0.len() as int
                };
                &&& f matches Some(v)
                &&& v@ == old(self)@.0.subrange(0, take)
                &&& final(self)@.0 == old(self)@.0.subrange(take, old(self)@.0.len() as int)
            },
    {
        if self.samples.len() == 0 {
            return None;
        }
        let take = if self.per_frame < self.samples.len() {
            self.per_frame
        } else {
            self.samples.len()
        };
        let mut frame = self.samples.split_off(take);
        std::mem::swap(&mut frame, &mut self.samples);
        Some(frame)
    }
}

// ── HTTP bodies ────────────────────────────────────────────────────────────

/// The characters of `bytes` read as UTF-8, each invalid sequence replaced
/// by U+FFFD.
pub uninterp spec fn utf8_lossy(bytes: Seq<u8>) -> Seq<char>;

/// Decodes bytes as UTF-8, replacing invalid sequences.
///
/// Calls `String::from_utf8_lossy`; the contract claims that the result is
/// a function of the bytes alone and that ASCII bytes come back as the same
/// characters (ASCII is valid UTF-8, which is returned unchanged).
#[verifier::external_body]
fn decode_utf8_lossy(bytes: &[u8]) -> (s: String)
    ensures
        s@ == utf8_lossy(bytes@),
        (forall|i: int| 0 <= i < bytes@.len() ==> bytes@[i] < 0x80) ==> s@ == bytes@.map_values(
            |b: u8| b as char,
        ),
{
    String::from_utf8_lossy(bytes).into_owned()
}

/// Whether `c` has the Unicode `White_Space` property, the white space
/// that `str::trim` removes.
pub open spec fn is_white_space(c: char) -> bool {
    let v = c as u32;
    ||| 0x09 <= v <= 0x0D
    ||| v == 0x20
    ||| v == 0x85
    ||| v == 0xA0
    ||| v == 0x1680
    ||| 0x2000 <= v <= 0x200A
    ||| v == 0x2028
    ||| v == 0x2029
    ||| v == 0x202F
    ||| v == 0x205F
    ||| v == 0x3000
}

/// `s` without the white space at its start and at its end.
pub open spec fn trim_white_space(s: Seq<char>) -> Seq<char>
    decreases s.len(),
{
    if s.len() > 0 && is_white_space(s[0]) {
        trim_white_space(s.drop_first())
    } else if s.len() > 0 && is_white_space(s.last()) {
        trim_white_space(s.drop_last())
    } else {
        s
    }
}

fn white_space(c: char) -> (b: bool)
    ensures
        b == is_white_space(c),
{
    let v = c as u32;
    (0x09 <= v && v <= 0x0D) || v == 0x20 || v == 0x85 || v == 0xA0 || v == 0x1680 || (0x2000 <= v && v
        <= 0x200A) || v == 0x2028 || v == 0x2029 || v == 0x202F || v == 0x205F || v == 0x3000
}

/// Removes the white space at the start and at the end of `text`.
pub fn trim_text(text: &str) -> (trimmed: &str)
    ensures
        trimmed@ == trim_white_space(text@),
{
    let n = text.unicode_len();
    assert(text@.subrange(0, n as int) =~= text@);
    let mut i: usize = 0;
    while i < n && white_space(text.get_char(i))
        invariant
            n == text@.len(),
            i <= n,
            trim_white_space(text@) == trim_white_space(text@.subrange(i as int, n as int)),
        decreases n - i,
    {
        proof {
            let rest = text@.subrange(i as int, n as int);
            assert(rest[0] == text@[i as int]);
            assert(rest.drop_first() =~= text@.subrange(i + 1, n as int));
        }
        i += 1;
    }
    let mut j: usize = n;
    while j > i && white_space(text.get_char(j - 1))
        invariant
            n == text@.len(),
            i <= j <= n,
            i < n ==> !is_white_space(text@[i as int]),
            trim_white_space(text@) == trim_white_space(text@.subrange(i as int, j as int)),
        decreases j - i,
    {
        proof {
            let part = text@.subrange(i as int, j as int);
            assert(part[0] == text@[i as int]);
            assert(part.last() == text@[j - 1]);
            assert(part.drop_last() =~= text@.subrange(i as int, j - 1));
        }
        j -= 1;
    }
    proof {
        let part = text@.subrange(i as int, j as int);
        if j > i {
            assert(part[0] == text@[i as int]);
            assert(part.last() == text@[j - 1]);
        }
    }
    text.substring_char(i, j)
}

/// Whether the blank line `\r\n\r\n` starts at `p` in `raw`.
pub open spec fn blank_line_at(raw: Seq<u8>, p: int) -> bool {
    &&& 0 <= p
    &&& p + 4 <= raw.len()
    &&& raw[p] == 13
    &&& raw[p + 1] == 10
    &&& raw[p + 2] == 13
    &&& raw[p + 3] == 10
}

/// A response without the blank line that ends its headers.
#[derive(Debug, Clone, Copy, PartialEq, Eq, Structural)]
pub enum HttpBodyError {
    /// "malformed HTTP response (no header separator)".
    NoHeaderSeparator,
}

/// The body of a raw HTTP/1.1 response: what follows the first blank line,
/// read as UTF-8 and trimmed.
pub fn extract_http_body(raw: &[u8]) -> (r: Result<String, HttpBodyError>)
    ensures
        (r is Ok) <==> exists|p: int| blank_line_at(raw@, p),
        r matches Err(e) ==> e == HttpBodyError::NoHeaderSeparator,
        r matches Ok(body) ==> exists|p: int|
            {
                &&& #[trigger] blank_line_at(raw@, p)
                &&& forall|q: int| 0 <= q < p ==> !blank_line_at(raw@, q)
                &&& body@ == trim_white_space(utf8_lossy(raw@.subrange(p + 4, raw@.len() as int)))
            },
{
    let n = raw.len();
    let mut p: usize = 0;
    while n >= 4 && p <= n - 4
        invariant
            n == raw@.len(),
            p <= n,
            forall|q: int| 0 <= q < p ==> !blank_line_at(raw@, q),
        decreases n - p,
    {
        if raw[p] == 13 && raw[p + 1] == 10 && raw[p + 2] == 13 && raw[p + 3] == 10 {
            let body = vstd::slice::slice_subrange(raw, p + 4, n);
            let text = decode_utf8_lossy(body);
            let trimmed = trim_text(text.as_str());
            let out = String::from_str(trimmed);
            assert(blank_line_at(raw@, p as int));
            return Ok(out);
        }
        p += 1;
    }
    assert forall|q: int| blank_line_at(raw@, q) implies false by {
        if q >= p {
            assert(q + 4 <= n);
        }
    }
    Err(HttpBodyError::NoHeaderSeparator)
}

} // verus!
