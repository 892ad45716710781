//! The decisions of a codec session, the layer that puts a codec on top of
//! a session: configuring the handshake for the chosen codec, checking the
//! codec the peer negotiated, and concealing lost frames with silence.

use vstd::prelude::*;

use std::collections::VecDeque;

use crate::codec::{
    build_pair, pcm_bytes, pcm_frames, pcm_samples, spec_codec_code, spec_codec_from_code,
    spec_samples_per_channel, CodecError, CodecId, Decoder, Encoder,
};
use crate::session::{Config, TransportError};

verus! {

/// Errors of a codec session.
#[derive(Debug)]
pub enum CodecSessionError {
    Transport(TransportError),
    Codec(CodecError),
    /// The peer chose another codec than the one this session was built for.
    CodecMismatch { requested: CodecId, negotiated: CodecId },
}

/// The supported list after attaching a codec.
pub open spec fn spec_attached_codecs(supported: Seq<u8>, codec: CodecId) -> Seq<u8> {
    if supported.contains(spec_codec_code(codec)) {
        supported
    } else {
        seq![spec_codec_code(codec)] + supported
    }
}

/// Makes `config` request `codec` in the handshake and accept it.
pub fn attach_codec(config: Config, codec: CodecId) -> (c: Config)
    ensures
        c.codec_preferred == spec_codec_code(codec),
        c.supported_codecs@ == spec_attached_codecs(config.supported_codecs@, codec),
        c.sample_rate == config.sample_rate,
        c.channels == config.channels,
        c.frame_duration_ms == config.frame_duration_ms,
        c.max_bitrate == config.max_bitrate,
        c.capability_flags == config.capability_flags,
        c.jitter_buffer_ms == config.jitter_buffer_ms,
        c.mtu == config.mtu,
{
    let mut config = config;
    let code = codec.code();
    config.codec_preferred = code;
    let mut found = false;
    let mut i: usize = 0;
    while i < config.supported_codecs.len()
        invariant
            i <= config.supported_codecs@.len(),
            found <==> exists|j: int| 0 <= j < i && config.supported_codecs@[j] == code,
        decreases config.supported_codecs@.len() - i,
    {
        if config.supported_codecs[i] == code {
            found = true;
        }
        i += 1;
    }
    if !found {
        let ghost before = config.supported_codecs@;
        config.supported_codecs.insert(0, code);
        assert(config.supported_codecs@ =~= seq![code] + before);
    }
    config
}

/// The codec negotiated by the handshake, from the session's codec byte
/// (0 while no handshake completed).
pub fn negotiated_codec_of(code: u8) -> (c: Option<CodecId>)
    ensures
        c == (if code == 0 {
            None
        } else {
            Some(spec_codec_from_code(code))
        }),
{
    if code == 0 {
        None
    } else {
        Some(CodecId::from_code(code))
    }
}

/// After the handshake: the peer must have agreed on the codec this
/// session was built for.
pub fn check_negotiated(requested: CodecId, negotiated_code: u8) -> (r: Result<(), CodecSessionError>)
    ensures
        (r is Ok) <==> spec_codec_from_code(negotiated_code) == requested,
        r matches Err(e) ==> e == (CodecSessionError::CodecMismatch {
            requested,
            negotiated: spec_codec_from_code(negotiated_code),
        }),
{
    let negotiated = CodecId::from_code(negotiated_code);
    if negotiated != requested {
        return Err(CodecSessionError::CodecMismatch { requested, negotiated });
    }
    Ok(())
}

/// Most silent frames inserted for one gap in the sequence numbers.
pub const MAX_CONCEALED_FRAMES: u32 = 4;

/// The frames lost before `seq` when the previous frame was `prev`
/// (`u32::MAX` meaning no frame yet), counted modulo 2^32.
pub open spec fn spec_sequence_gap(prev: u32, seq: u32) -> u32 {
    if prev == u32::MAX {
        0
    } else {
        let d = seq.wrapping_sub(prev);
        if d == 0 {
            0
        } else {
            (d - 1) as u32
        }
    }
}

/// Detects gaps in the sequence of received audio frames.
#[derive(Debug, Clone, Copy)]
pub struct GapDetector {
    last_rx_seq: u32,
}

impl View for GapDetector {
    /// The last sequence number received, `u32::MAX` before the first.
    type V = u32;

    closed spec fn view(&self) -> u32 {
        self.last_rx_seq
    }
}

impl GapDetector {
    /// A detector that has received nothing.
    pub fn new() -> (g: GapDetector)
        ensures
            g@ == u32::MAX,
    {
        GapDetector { last_rx_seq: u32::MAX }
    }

    /// Records frame `seq` and returns how many frames were lost before it.
    pub fn observe(&mut self, seq: u32) -> (gap: u32)
        ensures
            gap == spec_sequence_gap(old(self)@, seq),
            final(self)@ == seq,
    {
        let prev = self.last_rx_seq;
        let gap: u32 = if prev == u32::MAX {
            0
        } else {
            seq.wrapping_sub(prev).saturating_sub(1)
        };
        self.last_rx_seq = seq;
        gap
    }
}

/// The frames to hand out for a received frame after `gap` lost ones:
/// up to four frames of `frame_len` zero samples, then the frame itself.
pub fn conceal(gap: u32, frame_len: usize, decoded: Vec<i16>) -> (frames: Vec<Vec<i16>>)
    ensures
        frames@.len() == (if gap < MAX_CONCEALED_FRAMES {
            gap
        } else {
            MAX_CONCEALED_FRAMES
        }) + 1,
        forall|i: int|
            0 <= i < frames@.len() - 1 ==> #[trigger] frames@[i]@ == Seq::new(frame_len as nat, |k: int| 0i16),
        frames@[frames@.len() - 1]@ == decoded@,
{
    let silence_count: u32 = if gap < MAX_CONCEALED_FRAMES {
        gap
    } else {
        MAX_CONCEALED_FRAMES
    };
    let mut frames: Vec<Vec<i16>> = Vec::new();
    let mut i: u32 = 0;
    while i < silence_count
        invariant
            i <= silence_count,
            frames@.len() == i,
            forall|j: int| 0 <= j < i ==> #[trigger] frames@[j]@ == Seq::new(frame_len as nat, |k: int| 0i16),
        decreases silence_count - i,
    {
        let mut silence: Vec<i16> = Vec::new();
        let mut k: usize = 0;
        while k < frame_len
            invariant
                k <= frame_len,
                silence@ == Seq::new(k as nat, |q: int| 0i16),
            decreases frame_len - k,
        {
            silence.push(0);
            k += 1;
            assert(silence@ =~= Seq::new(k as nat, |q: int| 0i16));
        }
        frames.push(silence);
        i += 1;
    }
    frames.push(decoded);
    frames
}


/// `a * b`, or `usize::MAX` where the product does not fit.
fn saturating_product(a: usize, b: usize) -> (p: usize)
    ensures
        p == (if a * b <= usize::MAX {
            a * b
        } else {
            usize::MAX as int
        }),
{
    match a.checked_mul(b) {
        Some(p) => p,
        None => usize::MAX,
    }
}

/// The silent frame of `len` samples.
pub open spec fn silence(len: nat) -> Seq<i16> {
    Seq::new(len, |k: int| 0i16)
}

/// `count` silent frames of `len` samples.
pub open spec fn silences(count: nat, len: nat) -> Seq<Seq<i16>> {
    Seq::new(count, |i: int| silence(len))
}

/// The number of silent frames inserted for a gap of `gap` lost frames.
pub open spec fn concealed_count(gap: u32) -> nat {
    if gap < MAX_CONCEALED_FRAMES {
        gap as nat
    } else {
        MAX_CONCEALED_FRAMES as nat
    }
}

/// `a * b`, or `usize::MAX` where the product does not fit.
pub open spec fn saturating(a: nat, b: nat) -> nat {
    if a * b <= usize::MAX {
        a * b
    } else {
        usize::MAX as nat
    }
}

/// The frame handed out for a decoded payload: the decoder's buffer (its
/// samples, then the zeros it left of a buffer of `room` samples) cut to
/// `produced` samples per channel.
pub open spec fn decoded_frame(buffer: Seq<i16>, produced: usize, channels: u8) -> Seq<i16> {
    let keep = saturating(produced as nat, channels as nat);
    if keep <= buffer.len() {
        buffer.take(keep as int)
    } else {
        buffer
    }
}

/// The decoder's buffer after decoding `samples` into `room` zeros.
pub open spec fn decode_buffer(samples: Seq<i16>, room: nat) -> Seq<i16> {
    samples + Seq::new((room - samples.len()) as nat, |k: int| 0i16)
}

/// The frames waiting and the frame handed out when `frame` arrives after
/// `gap` lost frames: with no gap the frame goes out at once; after a gap,
/// up to four silent frames of `frame_len` samples go ahead of it, and the
/// first of them goes out.
pub open spec fn spec_deliver(pending: Seq<Seq<i16>>, gap: u32, frame_len: nat, frame: Seq<i16>) -> (
    Seq<Seq<i16>>,
    Seq<i16>,
) {
    if gap == 0 {
        (pending, frame)
    } else {
        let items = pending + silences(concealed_count(gap), frame_len) + seq![frame];
        (items.drop_first(), items[0])
    }
}

/// The codec layer of a session: the encoder and decoder of the chosen
/// codec, the configuration the handshake is run with, and the loss
/// concealment of received frames. The caller moves the bytes: it sends
/// what `encode_samples` produces and hands every received audio frame to
/// `accept_frame`.
pub struct CodecSession {
    codec_id: CodecId,
    config: Config,
    /// The encoder and the decoder.
    codecs: (Box<dyn Encoder>, Box<dyn Decoder>),
    channels: u8,
    frame_len: usize,
    mtu: usize,
    gaps: GapDetector,
    /// Frames to hand out before the next network frame.
    plc_queue: VecDeque<Vec<i16>>,
}

impl CodecSession {
    /// The codec this session was built for.
    pub closed spec fn spec_codec(&self) -> CodecId {
        self.codec_id
    }

    /// The configuration the handshake runs with.
    pub closed spec fn spec_config(&self) -> Config {
        self.config
    }

    /// The last sequence number received (`u32::MAX` before the first).
    pub closed spec fn last_sequence(&self) -> u32 {
        self.gaps@
    }

    /// The samples of one full frame (all channels).
    pub closed spec fn frame_len(&self) -> nat {
        self.frame_len as nat
    }

    /// The room given to the encoder for one frame.
    pub closed spec fn out_room(&self) -> nat {
        if self.mtu < 1500 {
            1500
        } else {
            self.mtu as nat
        }
    }

    /// The channels of the stream.
    pub closed spec fn channels(&self) -> u8 {
        self.channels
    }

    /// The samples the session's decoder, in its present state, writes for
    /// the payload `bytes`.
    pub closed spec fn decoding(&self, bytes: Seq<u8>) -> Seq<i16> {
        self.codecs.1.decoding(bytes)
    }

    /// The samples per channel the session's decoder reports for `bytes`.
    pub closed spec fn decoded_frames(&self, bytes: Seq<u8>) -> usize {
        self.codecs.1.decoded_frames(bytes)
    }

    /// The room given to the decoder: a full frame, and at least 5760
    /// samples.
    pub closed spec fn decode_room(&self) -> nat {
        if self.frame_len < 5760 {
            5760
        } else {
            self.frame_len as nat
        }
    }

    /// The bytes the session's encoder, in its present state, writes for
    /// the frame `pcm`.
    pub closed spec fn encoding(&self, pcm: Seq<i16>) -> Seq<u8> {
        self.codecs.0.encoding(pcm)
    }

    /// The frames waiting to be handed out, oldest first.
    pub closed spec fn pending(&self) -> Seq<Seq<i16>> {
        self.plc_queue@.map_values(|f: Vec<i16>| f@)
    }

    /// Builds the codec pair for `codec` and the stream parameters of
    /// `config`, and makes the handshake ask for exactly that codec.
    pub fn new(config: Config, codec: CodecId) -> (r: Result<CodecSession, CodecSessionError>)
        ensures
            (r is Ok) <==> codec == CodecId::Pcm,
            r matches Err(e) ==> e == CodecSessionError::Codec(CodecError::Unsupported(codec)),
            r matches Ok(s) ==> {
                &&& s.spec_codec() == codec
                &&& s.spec_config().codec_preferred == spec_codec_code(codec)
                &&& s.spec_config().supported_codecs@ == spec_attached_codecs(
                    config.supported_codecs@,
                    codec,
                )
                &&& s.spec_config().sample_rate == config.sample_rate
                &&& s.spec_config().channels == config.channels
                &&& s.spec_config().frame_duration_ms == config.frame_duration_ms
                &&& s.spec_config().max_bitrate == config.max_bitrate
                &&& s.spec_config().capability_flags == config.capability_flags
                &&& s.spec_config().jitter_buffer_ms == config.jitter_buffer_ms
                &&& s.spec_config().mtu == config.mtu
                &&& s.last_sequence() == u32::MAX
                &&& s.pending().len() == 0
                &&& s.channels() == config.channels
                &&& s.frame_len() == saturating(
                    spec_samples_per_channel(config.sample_rate, config.frame_duration_ms),
                    config.channels as nat,
                )
                &&& forall|pcm: Seq<i16>| #[trigger] s.encoding(pcm) == pcm_bytes(pcm)
                &&& forall|b: Seq<u8>| #[trigger] s.decoding(b) == pcm_samples(b)
                &&& forall|b: Seq<u8>| #[trigger] s.decoded_frames(b) == pcm_frames(b, config.channels)
            },
    {
        let codecs = match build_pair(codec, config.sample_rate, config.channels, config.frame_duration_ms) {
            Ok(p) => p,
            Err(e) => {
                return Err(CodecSessionError::Codec(e));
            },
        };
        let frame_samples = codecs.0.frame_samples();
        proof {
            let (sr, fd) = (config.sample_rate, config.frame_duration_ms);
            assert((sr as nat) * (fd as nat) <= 0xFFFF_FFFFnat * 255) by (nonlinear_arith)
                requires
                    sr <= 0xFFFF_FFFFu32,
                    fd <= 255u8,
            ;
            assert(frame_samples == spec_samples_per_channel(sr, fd));
        }
        let channels = config.channels;
        let mtu = config.mtu;
        let frame_len = saturating_product(frame_samples, channels as usize);
        let config = attach_codec(config, codec);
        let ghost built = codecs;
        let s = CodecSession {
            codec_id: codec,
            config,
            codecs,
            channels,
            frame_len,
            mtu,
            gaps: GapDetector::new(),
            plc_queue: VecDeque::new(),
        };
        assert(s.pending() =~= Seq::<Seq<i16>>::empty());
        assert(s.codecs == built);
        Ok(s)
    }

    /// The codec this session was built for.
    pub fn codec(&self) -> (c: CodecId)
        ensures
            c == self.spec_codec(),
    {
        self.codec_id
    }

    /// The configuration to run the handshake with.
    pub fn config(&self) -> (c: &Config)
        ensures
            *c == self.spec_config(),
    {
        &self.config
    }

    /// After the handshake: checks that the peer agreed on this session's
    /// codec (the session's negotiated codec byte is `negotiated_code`).
    pub fn check_handshake(&self, negotiated_code: u8) -> (r: Result<(), CodecSessionError>)
        ensures
            (r is Ok) <==> spec_codec_from_code(negotiated_code) == self.spec_codec(),
            r matches Err(e) ==> e == (CodecSessionError::CodecMismatch {
                requested: self.spec_codec(),
                negotiated: spec_codec_from_code(negotiated_code),
            }),
    {
        check_negotiated(self.codec_id, negotiated_code)
    }

    /// Encodes one frame of samples into the bytes of an audio payload, in
    /// a buffer of the session's MTU (at least 1500 bytes).
    pub fn encode_samples(&mut self, samples: &[i16]) -> (r: Result<Vec<u8>, CodecSessionError>)
        ensures
            r matches Ok(bytes) ==> bytes@ == old(self).encoding(samples@) && bytes@.len() <= old(self).out_room(),
            r matches Err(e) ==> e is Codec,
            final(self).spec_codec() == old(self).spec_codec(),
            final(self).spec_config() == old(self).spec_config(),
            final(self).last_sequence() == old(self).last_sequence(),
            final(self).frame_len() == old(self).frame_len(),
            final(self).out_room() == old(self).out_room(),
            final(self).pending() == old(self).pending(),
    {
        let room: usize = if self.mtu < 1500 {
            1500
        } else {
            self.mtu
        };
        let mut out: Vec<u8> = vec![0u8; room];
        let ghost wanted = self.codecs.0.encoding(samples@);
        let n = match self.codecs.0.encode(samples, out.as_mut_slice()) {
            Ok(n) => n,
            Err(e) => {
                return Err(CodecSessionError::Codec(e));
            },
        };
        assert(out@.subrange(0, n as int) == wanted);
        out.truncate(n);
        Ok(out)
    }

    /// Hands out the oldest frame waiting from an earlier gap, if any.
    pub fn take_concealed(&mut self) -> (f: Option<Vec<i16>>)
        ensures
            old(self).pending().len() == 0 ==> f is None && final(self).pending() == old(self).pending(),
            old(self).pending().len() > 0 ==> (f matches Some(v) && v@ == old(self).pending()[0]
                && final(self).pending() == old(self).pending().drop_first()),
            final(self).spec_codec() == old(self).spec_codec(),
            final(self).spec_config() == old(self).spec_config(),
            final(self).last_sequence() == old(self).last_sequence(),
            final(self).frame_len() == old(self).frame_len(),
            final(self).out_room() == old(self).out_room(),
    {
        let f = self.plc_queue.pop_front();
        proof {
            if old(self).plc_queue@.len() > 0 {
                assert(self.pending() =~= old(self).pending().drop_first());
            }
        }
        f
    }

    /// Takes in the audio frame `sequence` with its payload: decodes it
    /// into a zeroed buffer of [`decode_room`](Self::decode_room) samples
    /// and hands the result to [`deliver`](Self::deliver) with the number
    /// of frames lost before it.
    pub fn accept_frame(&mut self, sequence: u32, payload: &[u8]) -> (r: Result<Vec<i16>, CodecSessionError>)
        ensures
            final(self).spec_codec() == old(self).spec_codec(),
            final(self).spec_config() == old(self).spec_config(),
            final(self).frame_len() == old(self).frame_len(),
            final(self).channels() == old(self).channels(),
            final(self).out_room() == old(self).out_room(),
            final(self).last_sequence() == sequence,
            r matches Err(e) ==> e is Codec && final(self).pending() == old(self).pending(),
            r matches Ok(frame) ==> (final(self).pending(), frame@) == spec_deliver(
                old(self).pending(),
                spec_sequence_gap(old(self).last_sequence(), sequence),
                old(self).frame_len(),
                decoded_frame(
                    decode_buffer(old(self).decoding(payload@), old(self).decode_room()),
                    old(self).decoded_frames(payload@),
                    old(self).channels(),
                ),
            ),
    {
        let gap = self.gaps.observe(sequence);
        let room: usize = if self.frame_len < 5760 {
            5760
        } else {
            self.frame_len
        };
        let mut pcm: Vec<i16> = vec![0i16; room];
        assert(pcm@ =~= Seq::new(room as nat, |k: int| 0i16));
        let ghost zeros = pcm@;
        let produced = match self.codecs.1.decode(payload, pcm.as_mut_slice()) {
            Ok(n) => n,
            Err(e) => {
                return Err(CodecSessionError::Codec(e));
            },
        };
        proof {
            let d = old(self).decoding(payload@);
            assert(zeros.subrange(d.len() as int, zeros.len() as int) =~= Seq::new(
                (room - d.len()) as nat,
                |k: int| 0i16,
            ));
        }
        Ok(self.deliver(gap, pcm, produced))
    }

    /// Hands out a decoded frame after `gap` lost frames: the decoder's
    /// buffer `pcm` is cut to `produced` samples per channel; with no gap it
    /// goes out at once, else up to four silent frames are queued ahead of
    /// it and the first frame of the queue goes out.
    pub fn deliver(&mut self, gap: u32, pcm: Vec<i16>, produced: usize) -> (f: Vec<i16>)
        ensures
            final(self).spec_codec() == old(self).spec_codec(),
            final(self).spec_config() == old(self).spec_config(),
            final(self).frame_len() == old(self).frame_len(),
            final(self).channels() == old(self).channels(),
            final(self).out_room() == old(self).out_room(),
            final(self).last_sequence() == old(self).last_sequence(),
            forall|b: Seq<u8>| #[trigger] final(self).decoding(b) == old(self).decoding(b),
            forall|b: Seq<u8>| #[trigger] final(self).decoded_frames(b) == old(self).decoded_frames(b),
            (final(self).pending(), f@) == spec_deliver(
                old(self).pending(),
                gap,
                old(self).frame_len(),
                decoded_frame(pcm@, produced, old(self).channels()),
            ),
    {
        let mut pcm = pcm;
        let keep = saturating_product(produced, self.channels as usize);
        pcm.truncate(keep);
        if gap == 0 {
            return pcm;
        }
        let ghost q0 = self.pending();
        let ghost frame = pcm@;
        let frames = conceal(gap, self.frame_len, pcm);
        let ghost count = concealed_count(gap);
        assert(frames@.len() == count + 1);
        let ghost s0 = *self;
        let mut i: usize = 0;
        while i < frames.len()
            invariant
                i <= frames@.len(),
                frames@.len() == count + 1,
                count == concealed_count(gap),
                self.codec_id == s0.codec_id,
                self.config == s0.config,
                self.frame_len == s0.frame_len,
                self.channels == s0.channels,
                self.mtu == s0.mtu,
                self.gaps == s0.gaps,
                self.codecs == s0.codecs,
                forall|k: int| 0 <= k < count ==> #[trigger] frames@[k]@ == silence(s0.frame_len as nat),
                frames@[count as int]@ == frame,
                self.pending() =~= q0 + (if i <= count {
                    silences(i as nat, s0.frame_len as nat)
                } else {
                    silences(count, s0.frame_len as nat) + seq![frame]
                }),
            decreases frames@.len() - i,
        {
            let ghost before = self.pending();
            let f = frames[i].clone();
            assert(f@ == frames@[i as int]@);
            self.plc_queue.push_back(f);
            i += 1;
            assert(self.pending() =~= before.push(frames@[i - 1]@));
        }
        let ghost ahead = self.pending();
        assert(ahead =~= q0 + silences(count, s0.frame_len as nat) + seq![frame]);
        let first = self.plc_queue.pop_front();
        assert(self.pending() =~= ahead.drop_first());
        match first {
            Some(f) => f,
            None => Vec::new(),
        }
    }
}

} // verus!
