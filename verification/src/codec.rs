//! The codec layer: codec identifiers and their negotiation, the
//! `Encoder`/`Decoder` traits, and the PCM codec (signed 16-bit
//! little-endian passthrough).
//!
//! This build carries the PCM codec only; Opus is not part of it, so a
//! request for Opus is answered with `CodecError::Unsupported`.

use vstd::prelude::*;

verus! {

/// Codec identifier on the wire.
#[derive(Debug, Clone, Copy, PartialEq, Eq, Structural)]
pub enum CodecId {
    /// PCM 16-bit little-endian, uncompressed.
    Pcm,
    /// Opus (RFC 6716).
    Opus,
    /// Code reserved for future extensions.
    Other(u8),
}

impl Default for CodecId {
    fn default() -> (c: CodecId)
        ensures
            c == CodecId::Pcm,
    {
        CodecId::Pcm
    }
}

/// The handshake byte of a codec.
pub open spec fn spec_codec_code(c: CodecId) -> u8 {
    match c {
        CodecId::Pcm => 0x01,
        CodecId::Opus => 0x02,
        CodecId::Other(b) => b,
    }
}

/// The codec a handshake byte names.
pub open spec fn spec_codec_from_code(code: u8) -> CodecId {
    if code == 0x01 {
        CodecId::Pcm
    } else if code == 0x02 {
        CodecId::Opus
    } else {
        CodecId::Other(code)
    }
}

/// A codec identifier as the wire produces it: reserved codes never use the
/// two assigned values.
pub open spec fn is_wire_codec(c: CodecId) -> bool {
    c matches CodecId::Other(b) ==> b != 0x01 && b != 0x02
}

/// Every byte names a codec that encodes back to it, and every wire codec
/// is recovered from its byte.
pub proof fn lemma_codec_code_roundtrip(code: u8, c: CodecId)
    ensures
        spec_codec_code(spec_codec_from_code(code)) == code,
        is_wire_codec(c) ==> spec_codec_from_code(spec_codec_code(c)) == c,
{
}

impl CodecId {
    /// The handshake byte.
    pub fn code(self) -> (b: u8)
        ensures
            b == spec_codec_code(self),
    {
        match self {
            CodecId::Pcm => 0x01,
            CodecId::Opus => 0x02,
            CodecId::Other(b) => b,
        }
    }

    /// The codec named by a handshake byte.
    pub fn from_code(code: u8) -> (c: CodecId)
        ensures
            c == spec_codec_from_code(code),
    {
        match code {
            0x01 => CodecId::Pcm,
            0x02 => CodecId::Opus,
            other => CodecId::Other(other),
        }
    }
}

/// The codecs of this build, in local order of preference.
pub open spec fn spec_supported() -> Seq<CodecId> {
    seq![CodecId::Pcm]
}

/// The codecs supported by this build, in order of preference.
pub fn supported() -> (s: &'static [CodecId])
    ensures
        s@ == spec_supported(),
{
    &[CodecId::Pcm]
}

/// The codec chosen for a client's preference: the client's choice when
/// this build supports it, else the first local codec.
pub open spec fn spec_negotiate(client_preferred: CodecId) -> CodecId {
    if spec_supported().contains(client_preferred) {
        client_preferred
    } else {
        spec_supported()[0]
    }
}

/// Errors of the codec layer.
#[derive(Debug, Clone, PartialEq, Eq)]
pub enum CodecError {
    /// The output buffer is too small.
    BufferTooSmall { needed: usize, have: usize },
    /// The codec expects frames of another size.
    FrameSizeMismatch { expected: usize, got: usize },
    /// Invalid codec parameters (sample rate, channels, frame duration, payload).
    InvalidParams(&'static str),
    /// The codec is not part of this build.
    Unsupported(CodecId),
    /// Error of a codec backend.
    Backend(String),
}

/// Picks the best locally available codec for the client's preference.
/// Never fails in this build: the local list is not empty.
pub fn negotiate(client_preferred: CodecId) -> (r: Result<CodecId, CodecError>)
    ensures
        r matches Ok(c) && c == spec_negotiate(client_preferred),
{
    let local = supported();
    let mut i: usize = 0;
    while i < local.len()
        invariant
            local@ == spec_supported(),
            i <= local@.len(),
            forall|j: int| 0 <= j < i ==> local@[j] != client_preferred,
        decreases local@.len() - i,
    {
        if local[i] == client_preferred {
            proof {
                assert(spec_supported()[i as int] == client_preferred);
            }
            return Ok(client_preferred);
        }
        i += 1;
    }
    proof {
        if spec_supported().contains(client_preferred) {
            let k = choose|k: int| 0 <= k < spec_supported().len() && spec_supported()[k] == client_preferred;
            assert(local@[k] == client_preferred);
        }
    }
    if local.len() == 0 {
        return Err(CodecError::Unsupported(client_preferred));
    }
    Ok(local[0])
}

/// Encodes signed 16-bit PCM samples into wire bytes.
pub trait Encoder: Send {
    /// The codec of this encoder.
    spec fn encoder_id(&self) -> CodecId;

    /// Samples per channel of the frame this encoder expects.
    spec fn encoder_frame(&self) -> usize;

    /// The codec identifier for the wire.
    fn id(&self) -> (c: CodecId)
        ensures
            c == self.encoder_id(),
    ;

    /// Samples per channel of the fixed frame this encoder expects.
    fn frame_samples(&self) -> (n: usize)
        ensures
            n == self.encoder_frame(),
    ;

    /// The bytes this encoder, in its present state, writes for the frame
    /// `pcm` when it accepts it.
    spec fn encoding(&self, pcm: Seq<i16>) -> Seq<u8>;

    /// Encodes `pcm` into the start of `out`, returns the bytes written:
    /// the frame's encoding, which never exceeds the room in `out`.
    fn encode(&mut self, pcm: &[i16], out: &mut [u8]) -> (r: Result<usize, CodecError>)
        ensures
            final(out)@.len() == old(out)@.len(),
            r matches Ok(n) ==> n <= old(out)@.len() && n == old(self).encoding(pcm@).len()
                && final(out)@.subrange(0, n as int) == old(self).encoding(pcm@),
    ;
}

/// Decodes wire bytes into signed 16-bit PCM samples.
pub trait Decoder: Send {
    /// The codec of this decoder.
    spec fn decoder_id(&self) -> CodecId;

    /// Samples per channel of the frame this decoder expects.
    spec fn decoder_frame(&self) -> usize;

    /// The codec identifier for the wire.
    fn id(&self) -> (c: CodecId)
        ensures
            c == self.decoder_id(),
    ;

    /// Samples per channel of the fixed frame this decoder expects.
    fn frame_samples(&self) -> (n: usize)
        ensures
            n == self.decoder_frame(),
    ;

    /// The interleaved samples this decoder, in its present state, writes
    /// for `bytes` when it accepts them.
    spec fn decoding(&self, bytes: Seq<u8>) -> Seq<i16>;

    /// The samples per channel this decoder reports for `bytes` when it
    /// accepts them.
    spec fn decoded_frames(&self, bytes: Seq<u8>) -> usize;

    /// Decodes `bytes` into the start of `pcm`, returns the samples written
    /// per channel; the rest of `pcm` is left as it was.
    fn decode(&mut self, bytes: &[u8], pcm: &mut [i16]) -> (r: Result<usize, CodecError>)
        ensures
            final(pcm)@.len() == old(pcm)@.len(),
            r matches Ok(n) ==> n == old(self).decoded_frames(bytes@) && old(self).decoding(bytes@).len()
                <= old(pcm)@.len() && final(pcm)@ == old(self).decoding(bytes@) + old(pcm)@.subrange(
                old(self).decoding(bytes@).len() as int,
                old(pcm)@.len() as int,
            ),
    ;
}

/// The little-endian bytes of interleaved samples.
pub open spec fn pcm_bytes(samples: Seq<i16>) -> Seq<u8> {
    Seq::new(
        2 * samples.len(),
        |k: int|
            if k % 2 == 0 {
                samples[k / 2] as u8
            } else {
                ((samples[k / 2] as u16) >> 8u16) as u8
            },
    )
}

/// The sample made of a little-endian byte pair.
pub open spec fn sample_of(lo: u8, hi: u8) -> i16 {
    ((((hi as u16) << 8u16) as u16) | (lo as u16)) as i16
}

/// The samples of a little-endian byte sequence of even length.
pub open spec fn pcm_samples(bytes: Seq<u8>) -> Seq<i16> {
    Seq::new(bytes.len() / 2, |i: int| sample_of(bytes[2 * i], bytes[2 * i + 1]))
}

/// Decoding encoded samples gives them back.
pub proof fn lemma_pcm_roundtrip(samples: Seq<i16>)
    ensures
        pcm_samples(pcm_bytes(samples)) == samples,
{
    let b = pcm_bytes(samples);
    assert forall|i: int| 0 <= i < samples.len() implies #[trigger] pcm_samples(b)[i] == samples[i] by {
        let x = samples[i];
        assert(b[2 * i] == x as u8);
        assert(b[2 * i + 1] == ((x as u16) >> 8u16) as u8);
        assert(sample_of(x as u8, ((x as u16) >> 8u16) as u8) == x) by (bit_vector);
    }
    assert(pcm_samples(b) =~= samples);
}

/// The samples per channel in PCM bytes: the sample count over the
/// channel count, a count of 0 taken as 1.
pub open spec fn pcm_frames(bytes: Seq<u8>, channels: u8) -> usize {
    ((bytes.len() / 2) / (if channels == 0 {
        1nat
    } else {
        channels as nat
    })) as usize
}

/// PCM passthrough codec.
#[derive(Debug, Clone, Copy)]
pub struct PcmCodec {
    sample_rate: u32,
    channels: u8,
    frame_duration_ms: u8,
}

/// Samples per channel in one frame.
pub open spec fn spec_samples_per_channel(sample_rate: u32, frame_duration_ms: u8) -> nat {
    ((sample_rate as nat) * (frame_duration_ms as nat)) / 1000
}

impl View for PcmCodec {
    /// (sample rate, channels, frame duration in ms)
    type V = (u32, u8, u8);

    closed spec fn view(&self) -> (u32, u8, u8) {
        (self.sample_rate, self.channels, self.frame_duration_ms)
    }
}

/// Interleaved samples in one frame of a PCM codec.
pub open spec fn spec_total_samples(c: (u32, u8, u8)) -> nat {
    spec_samples_per_channel(c.0, c.2) * (c.1 as nat)
}

impl PcmCodec {
    /// A PCM codec for the given stream parameters.
    pub fn new(sample_rate: u32, channels: u8, frame_duration_ms: u8) -> (c: PcmCodec)
        ensures
            c@ == (sample_rate, channels, frame_duration_ms),
    {
        PcmCodec { sample_rate, channels, frame_duration_ms }
    }

    fn samples_per_channel(&self) -> (n: u64)
        ensures
            n == spec_samples_per_channel(self.sample_rate, self.frame_duration_ms),
            (self.sample_rate as nat) * (self.frame_duration_ms as nat) <= 0xFFFF_FFFFnat * 255,
    {
        assert((self.sample_rate as nat) * (self.frame_duration_ms as nat) <= 0xFFFF_FFFFnat * 255) by (nonlinear_arith)
            requires
                self.sample_rate <= 0xFFFF_FFFFu32,
                self.frame_duration_ms <= 255u8,
        ;
        (self.sample_rate as u64 * self.frame_duration_ms as u64) / 1000
    }

    fn total_samples(&self) -> (n: u64)
        ensures
            n == spec_total_samples(self@),
            spec_samples_per_channel(self.sample_rate, self.frame_duration_ms) <= 0xFFFF_FFFFnat * 255 / 1000,
    {
        let spc = self.samples_per_channel();
        assert(spc <= 0xFFFF_FFFFnat * 255 / 1000) by (nonlinear_arith)
            requires
                spc == ((self.sample_rate as nat) * (self.frame_duration_ms as nat)) / 1000,
                (self.sample_rate as nat) * (self.frame_duration_ms as nat) <= 0xFFFF_FFFFnat * 255,
        ;
        assert(spc * (self.channels as nat) <= (0xFFFF_FFFFnat * 255 / 1000) * 255) by (nonlinear_arith)
            requires
                spc <= 0xFFFF_FFFFnat * 255 / 1000,
                self.channels <= 255u8,
        ;
        spc * self.channels as u64
    }

    fn wire_bytes(&self) -> (n: u64)
        ensures
            n == 2 * spec_total_samples(self@),
    {
        let total = self.total_samples();
        assert(total <= (0xFFFF_FFFFnat * 255 / 1000) * 255) by (nonlinear_arith)
            requires
                total == spec_samples_per_channel(self.sample_rate, self.frame_duration_ms) * (self.channels as nat),
                spec_samples_per_channel(self.sample_rate, self.frame_duration_ms) <= 0xFFFF_FFFFnat * 255 / 1000,
                self.channels <= 255u8,
        ;
        total * 2
    }

    /// Samples per channel of one frame.
    pub fn frame_samples(&self) -> (n: usize)
        ensures
            n == spec_samples_per_channel(self@.0, self@.2) as usize,
    {
        self.samples_per_channel() as usize
    }
}

impl Encoder for PcmCodec {
    open spec fn encoder_id(&self) -> CodecId {
        CodecId::Pcm
    }

    open spec fn encoder_frame(&self) -> usize {
        spec_samples_per_channel(self@.0, self@.2) as usize
    }

    /// PCM writes the little-endian bytes of the samples.
    open spec fn encoding(&self, pcm: Seq<i16>) -> Seq<u8> {
        pcm_bytes(pcm)
    }

    fn id(&self) -> CodecId {
        CodecId::Pcm
    }

    fn frame_samples(&self) -> usize {
        self.samples_per_channel() as usize
    }

    /// Encodes exactly one frame of interleaved samples as little-endian
    /// bytes at the start of `out`; the frame size is checked first, then
    /// the room in `out`.
    fn encode(&mut self, pcm: &[i16], out: &mut [u8]) -> (r: Result<usize, CodecError>)
        ensures
            final(self)@ == old(self)@,
            match r {
                Ok(n) => {
                    &&& pcm@.len() == spec_total_samples(old(self)@)
                    &&& n == 2 * pcm@.len()
                    &&& n <= old(out)@.len()
                    &&& final(out)@ == crate::wire::splice(old(out)@, 0, pcm_bytes(pcm@))
                },
                Err(e) => {
                    &&& final(out)@ == old(out)@
                    &&& if pcm@.len() != spec_total_samples(old(self)@) {
                        e == CodecError::FrameSizeMismatch {
                            expected: spec_total_samples(old(self)@) as usize,
                            got: pcm@.len() as usize,
                        }
                    } else {
                        old(out)@.len() < 2 * pcm@.len() && e == CodecError::BufferTooSmall {
                            needed: (2 * spec_total_samples(old(self)@)) as usize,
                            have: old(out)@.len() as usize,
                        }
                    }
                },
            },
    {
        let total = self.total_samples();
        let needed = self.wire_bytes();
        if pcm.len() as u64 != total {
            return Err(CodecError::FrameSizeMismatch { expected: total as usize, got: pcm.len() });
        }
        if (out.len() as u64) < needed {
            return Err(CodecError::BufferTooSmall { needed: needed as usize, have: out.len() });
        }
        let ghost o0 = out@;
        let n = pcm.len();
        let olen = out.len();
        let mut i: usize = 0;
        while i < n
            invariant
                olen == out@.len(),
                n == pcm@.len(),
                2 * n <= out@.len(),
                out@.len() == o0.len(),
                i <= n,
                forall|k: int| 0 <= k < 2 * i ==> #[trigger] out@[k] == pcm_bytes(pcm@)[k],
                forall|k: int| 2 * n <= k < o0.len() ==> #[trigger] out@[k] == o0[k],
            decreases n - i,
        {
            let sample = pcm[i];
            out[2 * i] = sample as u8;
            out[2 * i + 1] = ((sample as u16) >> 8u16) as u8;
            i += 1;
        }
        assert(out@ =~= crate::wire::splice(o0, 0, pcm_bytes(pcm@)));
        Ok(2 * n)
    }
}

impl Decoder for PcmCodec {
    open spec fn decoder_id(&self) -> CodecId {
        CodecId::Pcm
    }

    open spec fn decoder_frame(&self) -> usize {
        spec_samples_per_channel(self@.0, self@.2) as usize
    }

    /// PCM reads the little-endian samples of the bytes.
    open spec fn decoding(&self, bytes: Seq<u8>) -> Seq<i16> {
        pcm_samples(bytes)
    }

    /// The samples over the channel count (a count of 0 taken as 1).
    open spec fn decoded_frames(&self, bytes: Seq<u8>) -> usize {
        pcm_frames(bytes, self@.1)
    }

    fn id(&self) -> CodecId {
        CodecId::Pcm
    }

    fn frame_samples(&self) -> usize {
        self.samples_per_channel() as usize
    }

    /// Decodes little-endian bytes into the start of `pcm`; returns the
    /// samples written per channel. An odd byte count and a too small `pcm`
    /// are refused, in that order.
    fn decode(&mut self, bytes: &[u8], pcm: &mut [i16]) -> (r: Result<usize, CodecError>)
        ensures
            final(self)@ == old(self)@,
            match r {
                Ok(n) => {
                    &&& bytes@.len() % 2 == 0
                    &&& bytes@.len() / 2 <= old(pcm)@.len()
                    &&& final(pcm)@ == old(pcm)@.subrange(0, 0) + pcm_samples(bytes@) + old(pcm)@.subrange(
                        (bytes@.len() / 2) as int,
                        old(pcm)@.len() as int,
                    )
                    &&& n == (bytes@.len() / 2) / (if old(self)@.1 == 0 {
                        1nat
                    } else {
                        old(self)@.1 as nat
                    })
                },
                Err(e) => {
                    &&& final(pcm)@ == old(pcm)@
                    &&& if bytes@.len() % 2 != 0 {
                        e == CodecError::InvalidParams("PCM payload length not even")
                    } else {
                        old(pcm)@.len() < bytes@.len() / 2 && e == CodecError::BufferTooSmall {
                            needed: (bytes@.len() / 2) as usize,
                            have: old(pcm)@.len() as usize,
                        }
                    }
                },
            },
    {
        if bytes.len() % 2 != 0 {
            return Err(CodecError::InvalidParams("PCM payload length not even"));
        }
        let samples = bytes.len() / 2;
        if pcm.len() < samples {
            return Err(CodecError::BufferTooSmall { needed: samples, have: pcm.len() });
        }
        let ghost p0 = pcm@;
        let blen = bytes.len();
        let mut i: usize = 0;
        while i < samples
            invariant
                blen == bytes@.len(),
                samples == bytes@.len() / 2,
                bytes@.len() % 2 == 0,
                samples <= pcm@.len(),
                pcm@.len() == p0.len(),
                i <= samples,
                forall|k: int| 0 <= k < i ==> #[trigger] pcm@[k] == pcm_samples(bytes@)[k],
                forall|k: int| samples <= k < p0.len() ==> #[trigger] pcm@[k] == p0[k],
            decreases samples - i,
        {
            let lo = bytes[2 * i];
            let hi = bytes[2 * i + 1];
            pcm[i] = (((hi as u16) << 8u16) | (lo as u16)) as i16;
            i += 1;
        }
        assert(pcm@ =~= p0.subrange(0, 0) + pcm_samples(bytes@) + p0.subrange(samples as int, p0.len() as int));
        let ch: usize = if self.channels == 0 {
            1
        } else {
            self.channels as usize
        };
        Ok(samples / ch)
    }
}

/// Builds an encoder/decoder pair for a codec and stream parameters. Only
/// PCM is part of this build; any other codec is refused as unsupported.
/// A PCM pair works at the given parameters: both halves expect frames of
/// `sample_rate * frame_duration_ms / 1000` samples per channel, the
/// encoder writes the little-endian bytes of the samples and the decoder
/// reads them back, reporting samples per channel of `channels`.
pub fn build_pair(id: CodecId, sample_rate: u32, channels: u8, frame_duration_ms: u8) -> (r: Result<
    (Box<dyn Encoder>, Box<dyn Decoder>),
    CodecError,
>)
    ensures
        (r is Ok) <==> id == CodecId::Pcm,
        r matches Err(e) ==> e == CodecError::Unsupported(id),
        r matches Ok(p) ==> {
            &&& p.0.encoder_id() == CodecId::Pcm
            &&& p.1.decoder_id() == CodecId::Pcm
            &&& p.0.encoder_frame() == spec_samples_per_channel(sample_rate, frame_duration_ms) as usize
            &&& p.1.decoder_frame() == spec_samples_per_channel(sample_rate, frame_duration_ms) as usize
            &&& forall|pcm: Seq<i16>| #[trigger] p.0.encoding(pcm) == pcm_bytes(pcm)
            &&& forall|b: Seq<u8>| #[trigger] p.1.decoding(b) == pcm_samples(b)
            &&& forall|b: Seq<u8>| #[trigger] p.1.decoded_frames(b) == pcm_frames(b, channels)
        },
{
    match id {
        CodecId::Pcm => {
            let enc = PcmCodec::new(sample_rate, channels, frame_duration_ms);
            let dec = PcmCodec::new(sample_rate, channels, frame_duration_ms);
            Ok((Box::new(enc), Box::new(dec)))
        },
        CodecId::Opus => Err(CodecError::Unsupported(id)),
        CodecId::Other(_) => Err(CodecError::Unsupported(id)),
    }
}

} // verus!
