//! The receive buffer of a session: audio frames held in sequence order
//! until the player takes them.

use vstd::prelude::*;

verus! {

/// A received audio frame.
#[derive(Debug, Clone)]
pub struct Frame {
    pub sequence: u32,
    pub timestamp: u64,
    pub payload: Vec<u8>,
}

/// Whether the frames are in strictly increasing sequence order.
pub open spec fn in_order(frames: Seq<Frame>) -> bool {
    forall|i: int, j: int| 0 <= i < j < frames.len() ==> frames[i].sequence < frames[j].sequence
}

/// Whether a frame of sequence `seq` is held.
pub open spec fn holds_sequence(frames: Seq<Frame>, seq: u32) -> bool {
    exists|i: int| 0 <= i < frames.len() && frames[i].sequence == seq
}

/// A bounded buffer of frames kept in sequence order.
#[derive(Debug)]
pub struct JitterBuffer {
    frames: Vec<Frame>,
    capacity: usize,
}

impl View for JitterBuffer {
    /// The frames held, in sequence order.
    type V = Seq<Frame>;

    closed spec fn view(&self) -> Seq<Frame> {
        self.frames@
    }
}

impl JitterBuffer {
    /// The most frames held at once.
    pub closed spec fn spec_capacity(&self) -> nat {
        self.capacity as nat
    }

    /// The frames are in order and within the capacity.
    pub closed spec fn wf(&self) -> bool {
        &&& in_order(self.frames@)
        &&& self.frames@.len() <= self.capacity
    }

    /// An empty buffer of `capacity` frames.
    pub fn new(capacity: usize) -> (b: JitterBuffer)
        ensures
            b.wf(),
            b@ == Seq::<Frame>::empty(),
            b.spec_capacity() == capacity,
    {
        JitterBuffer { frames: Vec::new(), capacity }
    }

    /// The frames held.
    pub fn len(&self) -> (n: usize)
        ensures
            n == self@.len(),
    {
        self.frames.len()
    }

    /// The most frames held at once.
    pub fn capacity(&self) -> (n: usize)
        ensures
            n == self.spec_capacity(),
    {
        self.capacity
    }

    /// Takes in a frame at its place in sequence order. A full buffer, or
    /// one that already holds a frame of that sequence, refuses it and
    /// stays as it was.
    pub fn push(&mut self, frame: Frame) -> (accepted: bool)
        requires
            old(self).wf(),
        ensures
            final(self).wf(),
            final(self).spec_capacity() == old(self).spec_capacity(),
            accepted <==> (old(self)@.len() < old(self).spec_capacity() && !holds_sequence(
                old(self)@,
                frame.sequence,
            )),
            !accepted ==> final(self)@ == old(self)@,
            accepted ==> exists|k: int|
                0 <= k <= old(self)@.len() && final(self)@ == old(self)@.insert(k, frame),
    {
        if self.frames.len() >= self.capacity {
            return false;
        }
        let seq = frame.sequence;
        let mut k: usize = 0;
        while k < self.frames.len() && self.frames[k].sequence < seq
            invariant
                k <= self.frames@.len(),
                forall|i: int| 0 <= i < k ==> self.frames@[i].sequence < seq,
            decreases self.frames@.len() - k,
        {
            k += 1;
        }
        if k < self.frames.len() && self.frames[k].sequence == seq {
            return false;
        }
        proof {
            assert forall|i: int| 0 <= i < self.frames@.len() implies self.frames@[i].sequence != seq by {
                if i >= k as int {
                    if i > k as int {
                        assert(self.frames@[k as int].sequence < self.frames@[i].sequence);
                    }
                }
            }
        }
        let ghost before = self.frames@;
        self.frames.insert(k, frame);
        proof {
            let after = self.frames@;
            assert(after =~= before.insert(k as int, frame));
            assert forall|i: int, j: int| 0 <= i < j < after.len() implies after[i].sequence
                < after[j].sequence by {
                if j < k {
                } else if i < k && j == k {
                } else if i < k {
                    assert(after[j] == before[j - 1]);
                    assert(before[k as int].sequence >= seq);
                    if j - 1 > k as int {
                        assert(before[k as int].sequence < before[j - 1].sequence);
                    }
                } else if i == k {
                    assert(after[j] == before[j - 1]);
                    assert(before[j - 1].sequence != seq);
                    if k < before.len() {
                        assert(before[k as int].sequence >= seq);
                        if j - 1 > k as int {
                            assert(before[k as int].sequence < before[j - 1].sequence);
                        }
                    }
                } else {
                    assert(after[i] == before[i - 1]);
                    assert(after[j] == before[j - 1]);
                }
            }
            assert(before == old(self)@);
            assert(self.frames@ == old(self)@.insert(k as int, frame));
        }
        true
    }

    /// Takes out the frame of the lowest sequence, if any.
    pub fn pop(&mut self) -> (f: Option<Frame>)
        requires
            old(self).wf(),
        ensures
            final(self).wf(),
            final(self).spec_capacity() == old(self).spec_capacity(),
            old(self)@.len() == 0 ==> f is None && final(self)@ == old(self)@,
            old(self)@.len() > 0 ==> f == Some(old(self)@[0]) && final(self)@ == old(self)@.drop_first(),
    {
        if self.frames.len() == 0 {
            return None;
        }
        let f = self.frames.remove(0);
        assert(self.frames@ =~= old(self)@.drop_first());
        Some(f)
    }
}

} // verus!
