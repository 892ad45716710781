//! The logic of audio capture and playback: stream parameters, device
//! lists and choice, cutting captured samples into frames, and feeding the
//! output device from the playback queue. The audio host itself is driven
//! by the caller.

use vstd::prelude::*;

use std::collections::VecDeque;

use crate::text::same_text;

verus! {

// ── Stream parameters ──────────────────────────────────────────────────────

/// Samples per frame, all channels: `rate * frame_ms / 1000` per channel.
pub open spec fn spec_samples_per_frame(sample_rate: u32, frame_duration_ms: u8, channels: u8) -> int {
    (sample_rate as int * frame_duration_ms as int) / 1000 * channels as int
}

/// The samples of one frame of `frame_duration_ms` at `sample_rate`, for
/// `channels` interleaved channels.
pub fn frame_samples_for(sample_rate: u32, frame_duration_ms: u8, channels: u8) -> (n: usize)
    requires
        spec_samples_per_frame(sample_rate, frame_duration_ms, channels) <= usize::MAX,
    ensures
        n == spec_samples_per_frame(sample_rate, frame_duration_ms, channels),
{
    assert(sample_rate as u64 * frame_duration_ms as u64 <= 0xffff_ffff * 255) by (nonlinear_arith)
        requires
            sample_rate <= 0xffff_ffff,
            frame_duration_ms <= 255,
    ;
    let per_channel: u64 = (sample_rate as u64 * frame_duration_ms as u64) / 1000;
    assert(per_channel * channels <= 0xffff_ffff * 255 * 255) by (nonlinear_arith)
        requires
            per_channel <= 0xffff_ffff * 255,
            channels <= 255,
    ;
    (per_channel * channels as u64) as usize
}

/// Parameters shared by capture and playback.
#[derive(Debug, Clone, Copy, PartialEq, Eq, Structural)]
pub struct StreamConfig {
    pub sample_rate: u32,
    pub channels: u8,
    pub frame_duration_ms: u8,
}

impl Default for StreamConfig {
    /// 48 kHz mono in 10 ms frames.
    fn default() -> (c: StreamConfig)
        ensures
            c == (StreamConfig { sample_rate: 48_000, channels: 1, frame_duration_ms: 10 }),
    {
        StreamConfig { sample_rate: 48_000, channels: 1, frame_duration_ms: 10 }
    }
}

impl StreamConfig {
    /// Samples per frame, all channels.
    pub fn samples_per_frame(&self) -> (n: usize)
        requires
            spec_samples_per_frame(self.sample_rate, self.frame_duration_ms, self.channels) <= usize::MAX,
        ensures
            n == spec_samples_per_frame(self.sample_rate, self.frame_duration_ms, self.channels),
    {
        frame_samples_for(self.sample_rate, self.frame_duration_ms, self.channels)
    }
}

// ── Devices ────────────────────────────────────────────────────────────────

/// An audio device as listed to the user.
#[derive(Debug, Clone)]
pub struct DeviceInfo {
    pub name: String,
    pub is_default: bool,
}

/// Errors of audio input and output.
#[derive(Debug)]
pub enum IoError {
    /// No default audio host is available.
    NoHost,
    /// No device of this kind (`"input"` or `"output"`) matches.
    NoDevice { kind: &'static str },
    /// The device does not support the requested configuration.
    UnsupportedConfig(String),
    /// An error of the audio host.
    Cpal(String),
    /// The channel to the audio thread is closed.
    ChannelClosed,
}

/// The name shown for a device whose name cannot be read.
pub open spec fn shown_name(name: Option<String>) -> Seq<char> {
    match name {
        Some(n) => n@,
        None => "<unnamed>"@,
    }
}

/// Lists devices from their names (`None` where the host could not read
/// one) and the name of the host's default device: an unreadable name
/// shows as `<unnamed>`, and a device is the default when its shown name
/// is the default's name.
pub fn describe_devices(names: &Vec<Option<String>>, default_name: &Option<String>) -> (infos: Vec<
    DeviceInfo,
>)
    ensures
        infos@.len() == names@.len(),
        forall|i: int|
            0 <= i < names@.len() ==> {
                &&& #[trigger] infos@[i].name@ == shown_name(names@[i])
                &&& infos@[i].is_default == (default_name matches Some(d) && d@ == shown_name(
                    names@[i],
                ))
            },
{
    let mut infos: Vec<DeviceInfo> = Vec::new();
    let mut i: usize = 0;
    while i < names.len()
        invariant
            i <= names@.len(),
            infos@.len() == i,
            forall|k: int|
                0 <= k < i ==> {
                    &&& #[trigger] infos@[k].name@ == shown_name(names@[k])
                    &&& infos@[k].is_default == (default_name matches Some(d) && d@ == shown_name(
                        names@[k],
                    ))
                },
        decreases names@.len() - i,
    {
        let name: String = match &names[i] {
            Some(n) => n.clone(),
            None => String::from_str("<unnamed>"),
        };
        let is_default = match default_name {
            Some(d) => same_text(d.as_str(), name.as_str()),
            None => false,
        };
        infos.push(DeviceInfo { name, is_default });
        i += 1;
    }
    infos
}

/// Whether the device at `k` is listed under the name `name`.
pub open spec fn names_device(names: Seq<Option<String>>, k: int, name: Seq<char>) -> bool {
    names[k] matches Some(n) && n@ == name
}

/// The device chosen for a hint.
#[derive(Debug, Clone, Copy, PartialEq, Eq, Structural)]
pub enum DevicePick {
    /// The host's default device.
    Default,
    /// The device at this position of the host's list.
    Listed(usize),
}

/// The choice of a device for an optional name hint: no hint, or the hint
/// `default`, takes the host's default device; any other hint takes the
/// first listed device of exactly that name. `kind` names the kind of
/// device in the error.
pub fn pick_device(hint: Option<&str>, names: &Vec<Option<String>>, has_default: bool, kind: &'static str) -> (r:
    Result<DevicePick, IoError>)
    ensures
        (hint is None || (hint matches Some(h) && h@ == "default"@)) ==> match r {
            Ok(p) => has_default && p == DevicePick::Default,
            Err(e) => !has_default && e == (IoError::NoDevice { kind }),
        },
        (hint is Some && hint.unwrap()@ != "default"@) ==> match r {
            Ok(p) => p matches DevicePick::Listed(i) && i < names@.len() && names_device(
                names@,
                i as int,
                hint.unwrap()@,
            ) && forall|k: int| 0 <= k < i ==> !#[trigger] names_device(names@, k, hint.unwrap()@),
            Err(e) => e == (IoError::NoDevice { kind }) && forall|k: int|
                0 <= k < names@.len() ==> !#[trigger] names_device(names@, k, hint.unwrap()@),
        },
{
    let h = match hint {
        None => {
            if has_default {
                return Ok(DevicePick::Default);
            }
            return Err(IoError::NoDevice { kind });
        },
        Some(h) => h,
    };
    if same_text(h, "default") {
        if has_default {
            return Ok(DevicePick::Default);
        }
        return Err(IoError::NoDevice { kind });
    }
    let mut i: usize = 0;
    while i < names.len()
        invariant
            i <= names@.len(),
            hint == Some(h),
            h@ != "default"@,
            forall|k: int| 0 <= k < i ==> !#[trigger] names_device(names@, k, h@),
        decreases names@.len() - i,
    {
        let found = match &names[i] {
            Some(n) => same_text(n.as_str(), h),
            None => false,
        };
        if found {
            return Ok(DevicePick::Listed(i));
        }
        i += 1;
    }
    Err(IoError::NoDevice { kind })
}

// ── Capture ────────────────────────────────────────────────────────────────

/// The sample a 16-bit unsigned sample stands for (offset binary).
pub open spec fn u16_sample(u: u16) -> i16 {
    (u as int - 0x8000) as i16
}

/// Whether `frames` are the consecutive frames of `size` samples that open
/// `all`, and `rest` the samples after them, fewer than a frame.
pub open spec fn cut_into_frames(all: Seq<i16>, size: nat, frames: Seq<Seq<i16>>, rest: Seq<i16>) -> bool {
    &&& frames.len() * size + rest.len() == all.len()
    &&& rest.len() < size
    &&& forall|i: int| 0 <= i < frames.len() ==> #[trigger] frames[i] == all.subrange(i * size, i * size + size)
    &&& rest == all.subrange(all.len() - rest.len(), all.len() as int)
}

/// The samples of each frame.
pub open spec fn frame_views(frames: Seq<Vec<i16>>) -> Seq<Seq<i16>> {
    frames.map_values(|f: Vec<i16>| f@)
}

/// Collects captured samples into frames of a fixed size.
#[derive(Debug)]
pub struct FrameAccumulator {
    pending: Vec<i16>,
    frame_samples: usize,
}

impl View for FrameAccumulator {
    /// The samples waiting for a full frame, and the frame size.
    type V = (Seq<i16>, usize);

    closed spec fn view(&self) -> (Seq<i16>, usize) {
        (self.pending@, self.frame_samples)
    }
}

/// The effective frame size: a size of 0 hands out every sample alone.
pub open spec fn effective_frame(frame_samples: usize) -> nat {
    if frame_samples == 0 {
        1
    } else {
        frame_samples as nat
    }
}

impl FrameAccumulator {
    /// Less than a frame is ever waiting.
    pub closed spec fn wf(&self) -> bool {
        self.pending@.len() < effective_frame(self.frame_samples)
    }

    /// An accumulator of frames of `frame_samples` samples.
    pub fn new(frame_samples: usize) -> (a: FrameAccumulator)
        ensures
            a.wf(),
            a@ == (Seq::<i16>::empty(), frame_samples),
    {
        FrameAccumulator { pending: Vec::new(), frame_samples }
    }

    /// Adds one sample; hands out the frame it completes.
    fn push_one(&mut self, s: i16) -> (f: Option<Vec<i16>>)
        requires
            old(self).wf(),
        ensures
            final(self).wf(),
            final(self)@.1 == old(self)@.1,
            match f {
                Some(v) => v@ == old(self)@.0.push(s) && final(self)@.0.len() == 0
                    && old(self)@.0.len() + 1 == effective_frame(old(self)@.1),
                None => final(self)@.0 == old(self)@.0.push(s) && old(self)@.0.len() + 1 < effective_frame(
                    old(self)@.1,
                ),
            },
    {
        self.pending.push(s);
        if self.pending.len() >= self.frame_samples {
            let frame = self.pending.split_off(0);
            return Some(frame);
        }
        None
    }

    /// Adds samples one at a time, handing out every frame completed, in
    /// order.
    fn push_all(&mut self, data: &Vec<i16>) -> (frames: Vec<Vec<i16>>)
        requires
            old(self).wf(),
        ensures
            final(self).wf(),
            final(self)@.1 == old(self)@.1,
            cut_into_frames(
                old(self)@.0 + data@,
                effective_frame(old(self)@.1),
                frame_views(frames@),
                final(self)@.0,
            ),
    {
        let ghost samples = data@;
        let ghost all = self.pending@ + samples;
        let ghost size = effective_frame(self.frame_samples);
        let ghost fs = self.frame_samples;
        let mut frames: Vec<Vec<i16>> = Vec::new();
        let mut i: usize = 0;
        assert(all.subrange(0, self.pending@.len() as int) =~= self.pending@);
        assert(frames@.len() * size == 0) by (nonlinear_arith)
            requires
                frames@.len() == 0,
        ;
        while i < data.len()
            invariant
                self.wf(),
                self.frame_samples == fs,
                size == effective_frame(fs),
                size >= 1,
                all == old(self)@.0 + samples,
                data@ == samples,
                i <= data@.len(),
                frames@.len() * size + self.pending@.len() == old(self)@.0.len() + i,
                forall|k: int|
                    0 <= k < frames@.len() ==> #[trigger] frames@[k]@ == all.subrange(k * size, k * size + size),
                self.pending@ == all.subrange(
                    old(self)@.0.len() + i - self.pending@.len(),
                    old(self)@.0.len() + i,
                ),
            decreases data@.len() - i,
        {
            let ghost before = self.pending@;
            let ghost k: int = frames@.len() as int;
            let s = data[i];
            match self.push_one(s) {
                Some(f) => {
                    assert(k * size + size == (k + 1) * size) by (nonlinear_arith);
                    assert(f@ =~= all.subrange(k * size, k * size + size));
                    frames.push(f);
                },
                None => {},
            }
            i += 1;
            assert(self.pending@ =~= all.subrange(
                old(self)@.0.len() + i - self.pending@.len(),
                old(self)@.0.len() + i,
            ));
        }
        assert(self.pending@ =~= all.subrange(all.len() - self.pending@.len(), all.len() as int));
        assert(frame_views(frames@).len() == frames@.len());
        assert forall|k: int| 0 <= k < frames@.len() implies #[trigger] frame_views(frames@)[k]
            == all.subrange(k * size, k * size + size) by {}
        frames
    }

    /// Adds signed 16-bit samples; hands out the frames they complete.
    pub fn push_i16(&mut self, data: &[i16]) -> (frames: Vec<Vec<i16>>)
        requires
            old(self).wf(),
            old(self)@.1 > 0,
        ensures
            final(self).wf(),
            final(self)@.1 == old(self)@.1,
            cut_into_frames(
                old(self)@.0 + data@,
                old(self)@.1 as nat,
                frame_views(frames@),
                final(self)@.0,
            ),
    {
        let mut copy: Vec<i16> = Vec::new();
        let mut i: usize = 0;
        while i < data.len()
            invariant
                i <= data@.len(),
                copy@ == data@.subrange(0, i as int),
            decreases data@.len() - i,
        {
            copy.push(data[i]);
            i += 1;
            assert(copy@ =~= data@.subrange(0, i as int));
        }
        assert(copy@ =~= data@);
        self.push_all(&copy)
    }

    /// Adds unsigned 16-bit samples (offset binary); hands out the frames
    /// they complete.
    pub fn push_u16(&mut self, data: &[u16]) -> (frames: Vec<Vec<i16>>)
        requires
            old(self).wf(),
        ensures
            final(self).wf(),
            final(self)@.1 == old(self)@.1,
            cut_into_frames(
                old(self)@.0 + data@.map_values(|u: u16| u16_sample(u)),
                effective_frame(old(self)@.1),
                frame_views(frames@),
                final(self)@.0,
            ),
    {
        let mut converted: Vec<i16> = Vec::new();
        let mut i: usize = 0;
        while i < data.len()
            invariant
                i <= data@.len(),
                converted@ == data@.subrange(0, i as int).map_values(|u: u16| u16_sample(u)),
            decreases data@.len() - i,
        {
            let u = data[i];
            let v: i32 = u as i32 - 0x8000;
            converted.push(v as i16);
            i += 1;
            assert(converted@ =~= data@.subrange(0, i as int).map_values(|u: u16| u16_sample(u)));
        }
        assert(data@.subrange(0, data@.len() as int) =~= data@);
        self.push_all(&converted)
    }
}

// ── Playback ───────────────────────────────────────────────────────────────

/// The number of samples a pull of `want` slots takes from `queued`.
pub open spec fn pulled(want: nat, queued: nat) -> nat {
    if want < queued {
        want
    } else {
        queued
    }
}

/// Fills every slot of `data` with the next queued sample, silence (0)
/// once the queue is empty.
pub fn pull_i16(data: &mut [i16], buffer: &mut VecDeque<i16>)
    ensures
        final(data)@.len() == old(data)@.len(),
        forall|i: int|
            0 <= i < old(data)@.len() ==> #[trigger] final(data)@[i] == (if i < old(buffer)@.len() {
                old(buffer)@[i]
            } else {
                0i16
            }),
        final(buffer)@ == old(buffer)@.subrange(
            pulled(old(data)@.len(), old(buffer)@.len()) as int,
            old(buffer)@.len() as int,
        ),
{
    let ghost b0 = buffer@;
    let n = data.len();
    let mut i: usize = 0;
    while i < n
        invariant
            n == data@.len(),
            n == old(data)@.len(),
            i <= n,
            forall|k: int| 0 <= k < i ==> #[trigger] data@[k] == (if k < b0.len() {
                b0[k]
            } else {
                0i16
            }),
            buffer@ == b0.subrange(pulled(i as nat, b0.len()) as int, b0.len() as int),
        decreases n - i,
    {
        let s = match buffer.pop_front() {
            Some(s) => s,
            None => 0,
        };
        data[i] = s;
        i += 1;
    }
}

/// The unsigned 16-bit sample (offset binary) for a signed one.
pub open spec fn i16_to_u16(s: i16) -> u16 {
    (s as i32 + 0x8000) as u16
}

/// Fills every slot of `data` with the next queued sample as offset
/// binary, `0x8000` (silence) once the queue is empty.
pub fn pull_u16(data: &mut [u16], buffer: &mut VecDeque<i16>)
    ensures
        final(data)@.len() == old(data)@.len(),
        forall|i: int|
            0 <= i < old(data)@.len() ==> #[trigger] final(data)@[i] == i16_to_u16(
                if i < old(buffer)@.len() {
                    old(buffer)@[i]
                } else {
                    0i16
                },
            ),
        final(buffer)@ == old(buffer)@.subrange(
            pulled(old(data)@.len(), old(buffer)@.len()) as int,
            old(buffer)@.len() as int,
        ),
{
    let ghost b0 = buffer@;
    let n = data.len();
    let mut i: usize = 0;
    while i < n
        invariant
            n == data@.len(),
            n == old(data)@.len(),
            i <= n,
            forall|k: int| 0 <= k < i ==> #[trigger] data@[k] == i16_to_u16(
                if k < b0.len() {
                    b0[k]
                } else {
                    0i16
                },
            ),
            buffer@ == b0.subrange(pulled(i as nat, b0.len()) as int, b0.len() as int),
        decreases n - i,
    {
        let s: i16 = match buffer.pop_front() {
            Some(s) => s,
            None => 0,
        };
        data[i] = (s as i32 + 0x8000) as u16;
        i += 1;
    }
}

} // verus!
