//! Session metrics: packet and byte counters, loss and reordering over a
//! sliding window, RFC 3550 interarrival jitter and a smoothed RTT.
//!
//! Each estimator has a single producer; it is updated through `&mut self`
//! and read by value.

use vstd::prelude::*;

use crate::constants::LOSS_WINDOW_SIZE;

verus! {

// ── Counters ────────────────────────────────────────────────────────────────

/// Monotonic packet and byte counters. They wrap around at `u64::MAX`.
#[derive(Debug, Clone, Copy, PartialEq, Eq, Structural)]
pub struct Counters {
    packets_sent: u64,
    packets_received: u64,
    bytes_sent: u64,
    bytes_received: u64,
    integrity_errors: u64,
}

/// `x + y` modulo 2^64.
pub open spec fn wrap_add(x: u64, y: u64) -> u64 {
    ((x + y) % 0x1_0000_0000_0000_0000) as u64
}

impl View for Counters {
    /// (packets sent, packets received, bytes sent, bytes received, integrity errors)
    type V = (u64, u64, u64, u64, u64);

    closed spec fn view(&self) -> (u64, u64, u64, u64, u64) {
        (self.packets_sent, self.packets_received, self.bytes_sent, self.bytes_received, self.integrity_errors)
    }
}

impl Counters {
    /// All counters at zero.
    pub fn new() -> (c: Counters)
        ensures
            c@ == (0u64, 0u64, 0u64, 0u64, 0u64),
    {
        Counters { packets_sent: 0, packets_received: 0, bytes_sent: 0, bytes_received: 0, integrity_errors: 0 }
    }

    /// Counts one packet of `bytes` bytes sent.
    pub fn record_sent(&mut self, bytes: u64)
        ensures
            final(self)@ == (wrap_add(old(self)@.0, 1), old(self)@.1, wrap_add(old(self)@.2, bytes), old(self)@.3,
                old(self)@.4),
    {
        self.packets_sent = self.packets_sent.wrapping_add(1);
        self.bytes_sent = self.bytes_sent.wrapping_add(bytes);
    }

    /// Counts one packet of `bytes` bytes received.
    pub fn record_received(&mut self, bytes: u64)
        ensures
            final(self)@ == (old(self)@.0, wrap_add(old(self)@.1, 1), old(self)@.2, wrap_add(old(self)@.3, bytes),
                old(self)@.4),
    {
        self.packets_received = self.packets_received.wrapping_add(1);
        self.bytes_received = self.bytes_received.wrapping_add(bytes);
    }

    /// Counts one packet that failed its integrity checks.
    pub fn record_integrity_error(&mut self)
        ensures
            final(self)@ == (old(self)@.0, old(self)@.1, old(self)@.2, old(self)@.3, wrap_add(old(self)@.4, 1)),
    {
        self.integrity_errors = self.integrity_errors.wrapping_add(1);
    }

    pub fn packets_sent(&self) -> (n: u64)
        ensures
            n == self@.0,
    {
        self.packets_sent
    }

    pub fn packets_received(&self) -> (n: u64)
        ensures
            n == self@.1,
    {
        self.packets_received
    }

    pub fn bytes_sent(&self) -> (n: u64)
        ensures
            n == self@.2,
    {
        self.bytes_sent
    }

    pub fn bytes_received(&self) -> (n: u64)
        ensures
            n == self@.3,
    {
        self.bytes_received
    }

    pub fn integrity_errors(&self) -> (n: u64)
        ensures
            n == self@.4,
    {
        self.integrity_errors
    }
}

// ── Loss and reordering ─────────────────────────────────────────────────────

/// The state of a loss tracker.
#[derive(Debug, Clone, Copy, PartialEq, Eq, Structural)]
pub struct LossState {
    /// One bit per packet of the window; bit `k` is the packet `k` sequence
    /// numbers before the newest one, set when it was received.
    pub bitmap: u64,
    /// The newest sequence number seen.
    pub high_seq: u32,
    /// Packets recorded (wrapping).
    pub total_packets: u32,
    /// Packets that arrived older than the newest one (wrapping).
    pub reorder_count: u32,
    /// Whether any packet was recorded yet.
    pub initialised: bool,
}

/// The distance from `high` to `seq` in sequence space, as a signed 32-bit
/// value (serial-number arithmetic).
pub open spec fn seq_distance(seq: u32, high: u32) -> i32 {
    seq.wrapping_sub(high) as i32
}

/// What recording the arrival of `seq` does to a loss tracker. A newer
/// packet slides the window (by at most its width) and marks itself; an
/// older one inside the window marks its bit and counts as reordered; a
/// duplicate of the newest changes nothing but the packet count.
pub open spec fn loss_record(st: LossState, seq: u32) -> LossState {
    if !st.initialised {
        LossState { bitmap: 1, high_seq: seq, total_packets: 1, reorder_count: st.reorder_count, initialised: true }
    } else {
        let diff = seq_distance(seq, st.high_seq);
        let total = st.total_packets.wrapping_add(1);
        if diff > 0 {
            let shift = if diff as u32 >= LOSS_WINDOW_SIZE {
                LOSS_WINDOW_SIZE
            } else {
                diff as u32
            };
            let slid = if shift >= 64 {
                0u64
            } else {
                (st.bitmap << (shift as u64)) as u64
            };
            LossState {
                bitmap: slid | 1u64,
                high_seq: seq,
                total_packets: total,
                reorder_count: st.reorder_count,
                initialised: true,
            }
        } else if diff < 0 {
            let gap = (-(diff as int)) as u32;
            let bitmap = if gap < LOSS_WINDOW_SIZE {
                st.bitmap | ((1u64 << (gap as u64)) as u64)
            } else {
                st.bitmap
            };
            LossState {
                bitmap,
                high_seq: st.high_seq,
                total_packets: total,
                reorder_count: st.reorder_count.wrapping_add(1),
                initialised: true,
            }
        } else {
            LossState { total_packets: total, ..st }
        }
    }
}

/// Tracks loss within a sliding window of the last 64 packets.
#[derive(Debug)]
pub struct LossTracker {
    bitmap: u64,
    high_seq: u32,
    total_packets: u32,
    reorder_count: u32,
    initialised: bool,
}

impl View for LossTracker {
    type V = LossState;

    closed spec fn view(&self) -> LossState {
        LossState {
            bitmap: self.bitmap,
            high_seq: self.high_seq,
            total_packets: self.total_packets,
            reorder_count: self.reorder_count,
            initialised: self.initialised,
        }
    }
}

/// Once a packet was recorded, the newest packet is always marked received.
pub proof fn lemma_loss_newest_marked(st: LossState, seq: u32)
    requires
        st.initialised ==> st.bitmap & 1u64 == 1u64,
    ensures
        loss_record(st, seq).initialised,
        loss_record(st, seq).bitmap & 1u64 == 1u64,
{
    let r = loss_record(st, seq);
    let b = st.bitmap;
    if !st.initialised {
        assert(1u64 & 1u64 == 1u64) by (bit_vector);
    } else {
        let diff = seq_distance(seq, st.high_seq);
        if diff > 0 {
            assert(forall|x: u64| #[trigger] (x | 1u64) & 1u64 == 1u64) by (bit_vector);
        } else if diff < 0 {
            let gap = (-(diff as int)) as u32;
            if gap < LOSS_WINDOW_SIZE {
                assert(b & 1u64 == 1u64 ==> (b | ((1u64 << (gap as u64)) as u64)) & 1u64 == 1u64) by (bit_vector);
            }
        }
    }
}

/// The number of set bits of `b`.
pub open spec fn popcount(b: u64) -> nat
    decreases b,
{
    if b == 0 {
        0
    } else {
        (b % 2) as nat + popcount(b / 2)
    }
}

proof fn lemma_popcount_step(b: u64)
    ensures
        popcount(b) == (b & 1) as nat + popcount(b >> 1),
        b & 1 <= 1,
{
    assert(b & 1 == b % 2) by (bit_vector);
    assert(b >> 1 == b / 2) by (bit_vector);
}

impl LossTracker {
    /// A tracker that has seen nothing.
    pub fn new() -> (t: LossTracker)
        ensures
            t@ == (LossState { bitmap: 0, high_seq: 0, total_packets: 0, reorder_count: 0, initialised: false }),
    {
        LossTracker { bitmap: 0, high_seq: 0, total_packets: 0, reorder_count: 0, initialised: false }
    }

    /// Records the arrival of the packet with sequence number `sequence`.
    pub fn record(&mut self, sequence: u32)
        ensures
            final(self)@ == loss_record(old(self)@, sequence),
    {
        if !self.initialised {
            self.high_seq = sequence;
            self.bitmap = 1;
            self.total_packets = 1;
            self.initialised = true;
            return;
        }
        let high = self.high_seq;
        let diff = sequence.wrapping_sub(high) as i32;
        if diff > 0 {
            // Newer packet: slide the window, the new packet enters at bit 0.
            let shift = if (diff as u32) >= LOSS_WINDOW_SIZE {
                LOSS_WINDOW_SIZE
            } else {
                diff as u32
            };
            let mut bm = self.bitmap;
            bm = if shift >= 64 {
                0
            } else {
                bm << (shift as u64)
            };
            bm = bm | 1;
            self.bitmap = bm;
            self.high_seq = sequence;
        } else if diff < 0 {
            // Older packet (reordered): mark its bit if still in the window.
            let gap: u32 = if diff == i32::MIN {
                0x8000_0000u32
            } else {
                (-diff) as u32
            };
            if gap < LOSS_WINDOW_SIZE {
                let bit = 1u64 << (gap as u64);
                if self.bitmap & bit == 0 {
                    self.bitmap = self.bitmap | bit;
                } else {
                    proof {
                        let b = self.bitmap;
                        let g = gap as u64;
                        assert(b & bit != 0u64 ==> (b | bit) == b) by (bit_vector)
                            requires
                                bit == 1u64 << g,
                                g < 64,
                        ;
                    }
                }
            }
            self.reorder_count = self.reorder_count.wrapping_add(1);
        }
        self.total_packets = self.total_packets.wrapping_add(1);
    }

    /// The window bitmap (bit `k` set: the packet `k` before the newest arrived).
    pub fn window_bitmap(&self) -> (b: u64)
        ensures
            b == self@.bitmap,
    {
        self.bitmap
    }

    /// Packets recorded so far (wrapping).
    pub fn total_packets(&self) -> (n: u32)
        ensures
            n == self@.total_packets,
    {
        self.total_packets
    }

    /// Reordered packets recorded so far (wrapping).
    pub fn reorder_count(&self) -> (n: u32)
        ensures
            n == self@.reorder_count,
    {
        self.reorder_count
    }

    /// The packets of the current window that did not arrive (0 before the
    /// first packet): the window size less the packets marked received.
    pub fn lost_in_window(&self) -> (n: u32)
        ensures
            n == (if self@.initialised {
                LOSS_WINDOW_SIZE - popcount(self@.bitmap)
            } else {
                0
            }),
    {
        if !self.initialised {
            return 0;
        }
        let mut b = self.bitmap;
        assert(b <= (0xffff_ffff_ffff_ffffu64 >> 0u64)) by (bit_vector);
        let mut count: u32 = 0;
        let mut i: u32 = 0;
        while i < 64
            invariant
                i <= 64,
                count <= i,
                count + popcount(b) == popcount(self.bitmap),
                b <= (0xffff_ffff_ffff_ffffu64 >> (i as u64)),
            decreases 64 - i,
        {
            proof {
                lemma_popcount_step(b);
                let iu = i as u64;
                assert(b <= (0xffff_ffff_ffff_ffffu64 >> iu) ==> (b >> 1u64) <= (0xffff_ffff_ffff_ffffu64
                    >> ((iu + 1) as u64))) by (bit_vector)
                    requires
                        iu < 64,
                ;
            }
            count = count + (b & 1) as u32;
            b = b >> 1;
            i += 1;
        }
        assert((0xffff_ffff_ffff_ffffu64 >> 64u64) == 0u64) by (bit_vector);
        assert(popcount(b) == 0);
        LOSS_WINDOW_SIZE - count
    }

    /// Whether any packet was recorded.
    pub fn is_initialised(&self) -> (b: bool)
        ensures
            b == self@.initialised,
    {
        self.initialised
    }
}

// ── Jitter (RFC 3550 §A.8) ──────────────────────────────────────────────────

/// The sentinel of "no previous transit time".
pub open spec fn no_transit() -> i64 {
    i64::MIN
}

/// One step of the RFC 3550 filter `J += (|D| - J) / 16`, on integers.
pub open spec fn jitter_filter(j: u64, d: u64) -> u64 {
    if d > j {
        (j + (d - j) / 16) as u64
    } else {
        (j - (j - d) / 16) as u64
    }
}

/// `x - y` wrapped into `i64`.
pub open spec fn wrap_sub_i64(x: i64, y: i64) -> i64 {
    x.wrapping_sub(y)
}

/// The absolute value of an `i64`, as `u64`.
pub open spec fn abs_u64(x: i64) -> u64 {
    if x < 0 {
        (-(x as int)) as u64
    } else {
        x as u64
    }
}

/// What recording a packet sent at `send_us` and received at `recv_us`
/// does to (jitter, previous transit time).
pub open spec fn jitter_record(jitter: u32, prev: i64, send_us: u64, recv_us: u64) -> (u32, i64) {
    let transit = wrap_sub_i64(recv_us as i64, send_us as i64);
    if prev == no_transit() {
        (jitter, transit)
    } else {
        let d = abs_u64(wrap_sub_i64(transit, prev));
        let next = jitter_filter(jitter as u64, d);
        (if next > u32::MAX {
            u32::MAX
        } else {
            next as u32
        }, transit)
    }
}

/// The filter moves the estimate toward the new deviation, never past it.
pub proof fn lemma_jitter_filter_between(j: u64, d: u64)
    ensures
        j <= d ==> j <= jitter_filter(j, d) <= d,
        d <= j ==> d <= jitter_filter(j, d) <= j,
{
}

/// One filter step moves the estimate toward the new deviation by one
/// sixteenth of the difference, rounded toward zero: sixteen times the
/// move is at most the difference and less than the difference plus 16.
pub proof fn lemma_jitter_filter_sixteenth(j: u64, d: u64)
    ensures
        j <= d ==> {
            let step = jitter_filter(j, d) - j;
            &&& 0 <= step
            &&& 16 * step <= d - j < 16 * step + 16
        },
        d <= j ==> {
            let step = j - jitter_filter(j, d);
            &&& 0 <= step
            &&& 16 * step <= j - d < 16 * step + 16
        },
{
}

/// Recording a packet after a first one moves the estimate by one
/// sixteenth of the way toward the deviation of its transit time from the
/// previous one (rounded toward zero, capped at `u32::MAX`), and keeps
/// its transit time as the next reference.
pub proof fn lemma_jitter_record_sixteenth(jitter: u32, prev: i64, send_us: u64, recv_us: u64)
    requires
        prev != no_transit(),
    ensures
        ({
            let transit = wrap_sub_i64(recv_us as i64, send_us as i64);
            let d = abs_u64(wrap_sub_i64(transit, prev));
            let next = jitter_record(jitter, prev, send_us, recv_us).0;
            &&& jitter_record(jitter, prev, send_us, recv_us).1 == transit
            &&& jitter <= d ==> jitter <= next && (next == u32::MAX || 16 * (next - jitter) <= d - jitter < 16 * (
                next - jitter) + 16)
            &&& d <= jitter ==> next <= jitter && 16 * (jitter - next) <= jitter - d < 16 * (jitter - next) + 16
        }),
{
    let transit = wrap_sub_i64(recv_us as i64, send_us as i64);
    let d = abs_u64(wrap_sub_i64(transit, prev));
    lemma_jitter_filter_sixteenth(jitter as u64, d);
}

/// Interarrival jitter estimator, in microseconds.
#[derive(Debug)]
pub struct JitterEstimator {
    jitter_us: u32,
    prev_diff_us: i64,
}

impl View for JitterEstimator {
    /// (jitter in microseconds, previous transit time or `i64::MIN`)
    type V = (u32, i64);

    closed spec fn view(&self) -> (u32, i64) {
        (self.jitter_us, self.prev_diff_us)
    }
}

impl JitterEstimator {
    /// No sample yet, zero jitter.
    pub fn new() -> (e: JitterEstimator)
        ensures
            e@ == (0u32, no_transit()),
    {
        JitterEstimator { jitter_us: 0, prev_diff_us: i64::MIN }
    }

    /// Records a packet: `send_ts_us` is the sender's header timestamp,
    /// `recv_ts_us` the local arrival time.
    pub fn record(&mut self, send_ts_us: u64, recv_ts_us: u64)
        ensures
            final(self)@ == jitter_record(old(self)@.0, old(self)@.1, send_ts_us, recv_ts_us),
    {
        let current_diff = (recv_ts_us as i64).wrapping_sub(send_ts_us as i64);
        let prev = self.prev_diff_us;
        if prev == i64::MIN {
            self.prev_diff_us = current_diff;
            return;
        }
        let delta = current_diff.wrapping_sub(prev);
        let d: u64 = if delta == i64::MIN {
            0x8000_0000_0000_0000u64
        } else if delta < 0 {
            (-delta) as u64
        } else {
            delta as u64
        };
        let j = self.jitter_us as u64;
        let new_j = if d > j {
            j + (d - j) / 16
        } else {
            j - (j - d) / 16
        };
        let clamped = if new_j > u32::MAX as u64 {
            u32::MAX
        } else {
            new_j as u32
        };
        self.jitter_us = clamped;
        self.prev_diff_us = current_diff;
    }

    /// The current jitter in microseconds.
    pub fn current_us(&self) -> (j: u32)
        ensures
            j == self@.0,
    {
        self.jitter_us
    }
}

// ── RTT (EWMA, α = 1/8) ─────────────────────────────────────────────────────

/// One EWMA step with α = 1/8, as TCP does: `prev + (sample - prev) / 8`,
/// rounding the correction toward zero.
pub open spec fn rtt_ewma(prev: u32, sample: u32) -> u32 {
    if sample > prev {
        (prev + (sample - prev) / 8) as u32
    } else {
        (prev - (prev - sample) / 8) as u32
    }
}

/// What recording a sample does: the first sample is taken as is, later
/// ones are smoothed. `u32::MAX` stands for "no sample".
pub open spec fn rtt_record(prev: u32, sample: u32) -> u32 {
    if prev == u32::MAX {
        sample
    } else {
        rtt_ewma(prev, sample)
    }
}

/// The smoothed value lies between the previous estimate and the sample.
pub proof fn lemma_rtt_ewma_between(prev: u32, sample: u32)
    ensures
        prev <= sample ==> prev <= rtt_ewma(prev, sample) <= sample,
        sample <= prev ==> sample <= rtt_ewma(prev, sample) <= prev,
{
}

/// Round-trip-time estimator, in microseconds.
#[derive(Debug)]
pub struct RttEstimator {
    rtt_us: u32,
}

impl View for RttEstimator {
    /// The estimate in microseconds, `u32::MAX` while there is no sample.
    type V = u32;

    closed spec fn view(&self) -> u32 {
        self.rtt_us
    }
}

impl RttEstimator {
    /// No sample yet.
    pub fn new() -> (e: RttEstimator)
        ensures
            e@ == u32::MAX,
    {
        RttEstimator { rtt_us: u32::MAX }
    }

    /// Adds a sample: the time between a heartbeat and its acknowledgement.
    pub fn record(&mut self, sample_us: u32)
        ensures
            final(self)@ == rtt_record(old(self)@, sample_us),
    {
        let prev = self.rtt_us;
        let new = if prev == u32::MAX {
            sample_us
        } else {
            let prev64 = prev as u64;
            let sample64 = sample_us as u64;
            let smoothed = if sample64 > prev64 {
                let d = sample64 - prev64;
                prev64 + d / 8
            } else {
                let d = prev64 - sample64;
                prev64 - d / 8
            };
            smoothed as u32
        };
        self.rtt_us = new;
    }

    /// The estimate in microseconds, or `None` before the first sample.
    pub fn current_us(&self) -> (r: Option<u32>)
        ensures
            r == (if self@ == u32::MAX {
                None
            } else {
                Some(self@)
            }),
    {
        if self.rtt_us == u32::MAX {
            None
        } else {
            Some(self.rtt_us)
        }
    }
}

// ── Aggregate ───────────────────────────────────────────────────────────────

/// All estimators of one session.
#[derive(Debug)]
pub struct Metrics {
    pub rtt: RttEstimator,
    pub jitter: JitterEstimator,
    pub loss: LossTracker,
    pub counters: Counters,
}

impl Metrics {
    /// Every estimator in its initial state.
    pub fn new() -> (m: Metrics)
        ensures
            m.rtt@ == u32::MAX,
            m.jitter@ == (0u32, no_transit()),
            m.loss@ == (LossState { bitmap: 0, high_seq: 0, total_packets: 0, reorder_count: 0, initialised: false }),
            m.counters@ == (0u64, 0u64, 0u64, 0u64, 0u64),
    {
        Metrics { rtt: RttEstimator::new(), jitter: JitterEstimator::new(), loss: LossTracker::new(), counters: Counters::new() }
    }
}

} // verus!
