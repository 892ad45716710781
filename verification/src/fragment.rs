//! Fragmentation and reassembly of frames larger than the largest payload.
//!
//! Each fragment travels as `MessageType::AudioFragment` with a 4-byte
//! sub-header at the start of the payload:
//!
//! ```text
//! [ fragment_index (u16 BE) ][ total_fragments (u16 BE) ][ fragment payload... ]
//! ```

use vstd::prelude::*;

use crate::constants::{FRAGMENT_SUBHEADER_SIZE, MAX_FRAGMENTS};
use crate::error::Error;
use crate::wire::{append_bytes, be_u16, get_u16, get_u16_at, lemma_u16_roundtrip, put_u16, splice};

verus! {

/// The fragmentation sub-header.
#[derive(Debug, Clone, Copy, PartialEq, Eq, Structural)]
pub struct FragmentHeader {
    pub index: u16,
    pub total: u16,
}

/// The sub-header read from the start of `s`, or why it is refused: too
/// short, a fragment count of zero or above the maximum, or an index not
/// below the count.
pub open spec fn parse_fragment_header(s: Seq<u8>) -> Result<FragmentHeader, Error> {
    if s.len() < FRAGMENT_SUBHEADER_SIZE {
        Err(Error::MalformedPayload)
    } else {
        let index = get_u16(s, 0);
        let total = get_u16(s, 2);
        if total == 0 || total > MAX_FRAGMENTS {
            Err(Error::TooManyFragments)
        } else if index >= total {
            Err(Error::FragmentOutOfRange)
        } else {
            Ok(FragmentHeader { index, total })
        }
    }
}

/// Decoding the encoding of a valid sub-header, whatever follows it, gives it back.
pub proof fn lemma_fragment_header_roundtrip(h: FragmentHeader, rest: Seq<u8>)
    requires
        0 < h.total <= MAX_FRAGMENTS,
        h.index < h.total,
    ensures
        parse_fragment_header(be_u16(h.index) + be_u16(h.total) + rest) == Ok::<FragmentHeader, Error>(h),
{
    let s = be_u16(h.index) + be_u16(h.total) + rest;
    lemma_u16_roundtrip(h.index);
    lemma_u16_roundtrip(h.total);
    assert(s[0] == be_u16(h.index)[0] && s[1] == be_u16(h.index)[1]);
    assert(s[2] == be_u16(h.total)[0] && s[3] == be_u16(h.total)[1]);
}

impl FragmentHeader {
    pub const SIZE: usize = FRAGMENT_SUBHEADER_SIZE;

    /// Writes the 4-byte sub-header at the start of `buf`.
    pub fn encode(&self, buf: &mut [u8]) -> (r: Result<(), Error>)
        ensures
            match r {
                Ok(()) => old(buf)@.len() >= 4 && final(buf)@ == splice(
                    old(buf)@,
                    0,
                    be_u16(self.index) + be_u16(self.total),
                ),
                Err(e) => old(buf)@.len() < 4 && e == Error::BufferTooSmall && final(buf)@ == old(buf)@,
            },
    {
        if buf.len() < Self::SIZE {
            return Err(Error::BufferTooSmall);
        }
        let ghost b0 = buf@;
        put_u16(buf, 0, self.index);
        put_u16(buf, 2, self.total);
        assert(buf@ =~= splice(b0, 0, be_u16(self.index) + be_u16(self.total)));
        Ok(())
    }

    /// Reads and validates the sub-header at the start of `buf`.
    pub fn decode(buf: &[u8]) -> (r: Result<FragmentHeader, Error>)
        ensures
            r == parse_fragment_header(buf@),
    {
        if buf.len() < Self::SIZE {
            return Err(Error::MalformedPayload);
        }
        let index = get_u16_at(buf, 0);
        let total = get_u16_at(buf, 2);
        if total == 0 || total > MAX_FRAGMENTS {
            return Err(Error::TooManyFragments);
        }
        if index >= total {
            return Err(Error::FragmentOutOfRange);
        }
        Ok(FragmentHeader { index, total })
    }
}

/// The number of filled slots.
pub open spec fn filled(slots: Seq<Option<Seq<u8>>>) -> nat
    decreases slots.len(),
{
    if slots.len() == 0 {
        0
    } else {
        filled(slots.drop_last()) + if slots.last() is Some {
            1nat
        } else {
            0nat
        }
    }
}

/// The contents of the filled slots, joined in slot order.
pub open spec fn joined(slots: Seq<Option<Seq<u8>>>) -> Seq<u8>
    decreases slots.len(),
{
    if slots.len() == 0 {
        Seq::empty()
    } else {
        joined(slots.drop_last()) + match slots.last() {
            Some(b) => b,
            None => Seq::empty(),
        }
    }
}

proof fn lemma_filled_bound(slots: Seq<Option<Seq<u8>>>)
    ensures
        filled(slots) <= slots.len(),
        filled(slots) == slots.len() ==> forall|i: int| 0 <= i < slots.len() ==> #[trigger] slots[i] is Some,
    decreases slots.len(),
{
    if slots.len() > 0 {
        lemma_filled_bound(slots.drop_last());
        if filled(slots) == slots.len() {
            assert forall|i: int| 0 <= i < slots.len() implies #[trigger] slots[i] is Some by {
                if i < slots.len() - 1 {
                    assert(slots.drop_last()[i] == slots[i]);
                }
            }
        }
    }
}

proof fn lemma_filled_update(slots: Seq<Option<Seq<u8>>>, i: int, b: Seq<u8>)
    requires
        0 <= i < slots.len(),
        slots[i] is None,
    ensures
        filled(slots.update(i, Some(b))) == filled(slots) + 1,
    decreases slots.len(),
{
    let u = slots.update(i, Some(b));
    if i == slots.len() - 1 {
        assert(u.drop_last() =~= slots.drop_last());
    } else {
        lemma_filled_update(slots.drop_last(), i, b);
        assert(u.drop_last() =~= slots.drop_last().update(i, Some(b)));
    }
}

proof fn lemma_joined_prefix(slots: Seq<Option<Seq<u8>>>, k: int)
    requires
        0 <= k < slots.len(),
    ensures
        joined(slots.take(k + 1)) == joined(slots.take(k)) + match slots[k] {
            Some(b) => b,
            None => Seq::empty(),
        },
{
    assert(slots.take(k + 1).drop_last() =~= slots.take(k));
}

/// Fragments may arrive in any order: storing two different fragments
/// gives the same slots whichever is stored first, and so the same
/// reassembled frame.
pub proof fn lemma_fragment_order_irrelevant(
    slots: Seq<Option<Seq<u8>>>,
    i: int,
    a: Seq<u8>,
    j: int,
    b: Seq<u8>,
)
    requires
        0 <= i < slots.len(),
        0 <= j < slots.len(),
        i != j,
    ensures
        slots.update(i, Some(a)).update(j, Some(b)) == slots.update(j, Some(b)).update(i, Some(a)),
        joined(slots.update(i, Some(a)).update(j, Some(b))) == joined(slots.update(j, Some(b)).update(i, Some(a))),
{
    assert(slots.update(i, Some(a)).update(j, Some(b)) =~= slots.update(j, Some(b)).update(i, Some(a)));
}

/// The slots of a fresh reassembler for `total` fragments: all empty.
pub open spec fn empty_slots(total: nat) -> Seq<Option<Seq<u8>>> {
    Seq::new(total, |i: int| None::<Seq<u8>>)
}

/// The slots after storing fragment `index`: an index out of range, or one
/// already filled, changes nothing.
pub open spec fn insert_slot(slots: Seq<Option<Seq<u8>>>, index: int, payload: Seq<u8>) -> Seq<Option<Seq<u8>>> {
    if 0 <= index < slots.len() && slots[index] is None {
        slots.update(index, Some(payload))
    } else {
        slots
    }
}

/// The slots after storing each fragment of `ops` (index, content) in turn.
pub open spec fn insert_all(slots: Seq<Option<Seq<u8>>>, ops: Seq<(int, Seq<u8>)>) -> Seq<Option<Seq<u8>>>
    decreases ops.len(),
{
    if ops.len() == 0 {
        slots
    } else {
        insert_slot(insert_all(slots, ops.drop_last()), ops.last().0, ops.last().1)
    }
}

/// Whether some fragment of `ops` has index `i`.
pub open spec fn stored(ops: Seq<(int, Seq<u8>)>, i: int) -> bool {
    exists|k: int| 0 <= k < ops.len() && #[trigger] ops[k].0 == i
}

proof fn lemma_filled_all_some(slots: Seq<Option<Seq<u8>>>)
    requires
        forall|i: int| 0 <= i < slots.len() ==> #[trigger] slots[i] is Some,
    ensures
        filled(slots) == slots.len(),
    decreases slots.len(),
{
    if slots.len() > 0 {
        assert forall|i: int| 0 <= i < slots.drop_last().len() implies #[trigger] slots.drop_last()[i] is Some by {
            assert(slots.drop_last()[i] == slots[i]);
        }
        lemma_filled_all_some(slots.drop_last());
    }
}

/// Storing fragments into fresh slots fills exactly the indices stored.
proof fn lemma_insert_all_filled(total: nat, ops: Seq<(int, Seq<u8>)>)
    ensures
        insert_all(empty_slots(total), ops).len() == total,
        forall|i: int| 0 <= i < total ==> (#[trigger] insert_all(empty_slots(total), ops)[i] is Some <==> stored(ops, i)),
    decreases ops.len(),
{
    if ops.len() > 0 {
        let prev_ops = ops.drop_last();
        lemma_insert_all_filled(total, prev_ops);
        let prev = insert_all(empty_slots(total), prev_ops);
        let last = ops.last();
        assert forall|i: int| 0 <= i < total implies (#[trigger] insert_all(empty_slots(total), ops)[i] is Some
            <==> stored(ops, i)) by {
            if stored(prev_ops, i) {
                let k = choose|k: int| 0 <= k < prev_ops.len() && #[trigger] prev_ops[k].0 == i;
                assert(ops[k].0 == i);
            }
            if stored(ops, i) {
                let k = choose|k: int| 0 <= k < ops.len() && #[trigger] ops[k].0 == i;
                if k < ops.len() - 1 {
                    assert(prev_ops[k].0 == i);
                }
            }
            if last.0 == i {
                assert(ops[ops.len() - 1].0 == i);
            }
        }
    }
}

/// Storing fragments with distinct in-range indices puts each at its index
/// and leaves the other slots empty.
proof fn lemma_insert_all_distinct(total: nat, ops: Seq<(int, Seq<u8>)>)
    requires
        forall|k: int| 0 <= k < ops.len() ==> 0 <= #[trigger] ops[k].0 < total,
        forall|k1: int, k2: int| 0 <= k1 < k2 < ops.len() ==> #[trigger] ops[k1].0 != #[trigger] ops[k2].0,
    ensures
        insert_all(empty_slots(total), ops).len() == total,
        forall|k: int| 0 <= k < ops.len() ==> insert_all(empty_slots(total), ops)[#[trigger] ops[k].0] == Some(
            ops[k].1,
        ),
    decreases ops.len(),
{
    lemma_insert_all_filled(total, ops);
    if ops.len() > 0 {
        let prev_ops = ops.drop_last();
        let n = ops.len() - 1;
        assert forall|k1: int, k2: int| 0 <= k1 < k2 < prev_ops.len() implies #[trigger] prev_ops[k1].0
            != #[trigger] prev_ops[k2].0 by {
            assert(ops[k1].0 != ops[k2].0);
        }
        assert forall|k: int| 0 <= k < prev_ops.len() implies 0 <= #[trigger] prev_ops[k].0 < total by {
            assert(ops[k].0 == prev_ops[k].0);
        }
        lemma_insert_all_distinct(total, prev_ops);
        lemma_insert_all_filled(total, prev_ops);
        let prev = insert_all(empty_slots(total), prev_ops);
        let j = ops[n].0;
        assert(!stored(prev_ops, j)) by {
            if stored(prev_ops, j) {
                let k = choose|k: int| 0 <= k < prev_ops.len() && #[trigger] prev_ops[k].0 == j;
                assert(ops[k].0 != ops[n].0);
            }
        }
        assert(prev[j] is None);
        assert forall|k: int| 0 <= k < ops.len() implies insert_all(empty_slots(total), ops)[#[trigger] ops[k].0]
            == Some(ops[k].1) by {
            if k < n {
                assert(prev_ops[k] == ops[k]);
                assert(ops[k].0 != ops[n].0);
            }
        }
    }
}

proof fn lemma_joined_all_some(payloads: Seq<Seq<u8>>)
    ensures
        joined(payloads.map_values(|p: Seq<u8>| Some(p))) == payloads.flatten_alt(),
    decreases payloads.len(),
{
    if payloads.len() > 0 {
        let wrapped = payloads.map_values(|p: Seq<u8>| Some(p));
        assert(wrapped.drop_last() =~= payloads.drop_last().map_values(|p: Seq<u8>| Some(p)));
        lemma_joined_all_some(payloads.drop_last());
    }
}

/// A reassembler is complete exactly when every index has been stored,
/// whatever the order of the fragments and whatever was refused on the way.
pub proof fn lemma_complete_iff_every_index(total: nat, ops: Seq<(int, Seq<u8>)>)
    ensures
        (forall|i: int| 0 <= i < total ==> #[trigger] insert_all(empty_slots(total), ops)[i] is Some) <==> (forall|
            i: int,
        |
            0 <= i < total ==> #[trigger] stored(ops, i)),
        filled(insert_all(empty_slots(total), ops)) == total <==> (forall|i: int|
            0 <= i < total ==> #[trigger] stored(ops, i)),
{
    lemma_insert_all_filled(total, ops);
    let slots = insert_all(empty_slots(total), ops);
    lemma_filled_bound(slots);
    if forall|i: int| 0 <= i < total ==> #[trigger] stored(ops, i) {
        assert forall|i: int| 0 <= i < slots.len() implies #[trigger] slots[i] is Some by {
            assert(stored(ops, i));
        }
        lemma_filled_all_some(slots);
    }
    if forall|i: int| 0 <= i < total ==> #[trigger] slots[i] is Some {
        assert forall|i: int| 0 <= i < total implies #[trigger] stored(ops, i) by {
            assert(slots[i] is Some);
        }
    }
}

/// When each index is stored once, in any order, every slot holds the
/// fragment of its index, and the reassembled frame is the fragments
/// joined in index order.
pub proof fn lemma_finish_in_index_order(payloads: Seq<Seq<u8>>, order: Seq<int>)
    requires
        order.len() == payloads.len(),
        order.no_duplicates(),
        forall|k: int| 0 <= k < order.len() ==> 0 <= #[trigger] order[k] < payloads.len(),
        forall|i: int| 0 <= i < payloads.len() ==> #[trigger] order.contains(i),
    ensures
        insert_all(
            empty_slots(payloads.len()),
            Seq::new(order.len(), |k: int| (order[k], payloads[order[k]])),
        ) == payloads.map_values(|p: Seq<u8>| Some(p)),
        joined(payloads.map_values(|p: Seq<u8>| Some(p))) == payloads.flatten(),
{
    let n = payloads.len();
    let ops = Seq::new(order.len(), |k: int| (order[k], payloads[order[k]]));
    assert forall|k: int| 0 <= k < ops.len() implies 0 <= #[trigger] ops[k].0 < n by {
        assert(ops[k].0 == order[k]);
    }
    assert forall|k1: int, k2: int| 0 <= k1 < k2 < ops.len() implies #[trigger] ops[k1].0 != #[trigger] ops[k2].0 by {
        assert(order[k1] != order[k2]);
    }
    lemma_insert_all_distinct(n, ops);
    let slots = insert_all(empty_slots(n), ops);
    assert forall|i: int| 0 <= i < n implies #[trigger] slots[i] == Some(payloads[i]) by {
        assert(order.contains(i));
        let k = choose|k: int| 0 <= k < order.len() && order[k] == i;
        assert(ops[k].0 == i);
    }
    assert(slots =~= payloads.map_values(|p: Seq<u8>| Some(p)));
    lemma_joined_all_some(payloads);
    payloads.lemma_flatten_and_flatten_alt_are_equivalent();
}

/// Reassembles one fragmented frame; keeps the fragments until every one of
/// them arrived.
#[derive(Debug)]
pub struct FragmentReassembler {
    expected_total: u16,
    buffers: Vec<Option<Vec<u8>>>,
    received: u16,
}

impl FragmentReassembler {
    /// The slots, by fragment index: the fragment stored there, if any.
    pub closed spec fn slots(&self) -> Seq<Option<Seq<u8>>> {
        self.buffers@.map_values(|o: Option<Vec<u8>>| match o {
            Some(v) => Some(v@),
            None => None,
        })
    }

    /// The number of fragments the frame was split into.
    pub closed spec fn total(&self) -> nat {
        self.expected_total as nat
    }

    /// The number of fragments received so far.
    pub closed spec fn count(&self) -> nat {
        self.received as nat
    }

    /// One slot per expected fragment, the expected count within bounds, and
    /// the received count equal to the number of filled slots.
    pub closed spec fn wf(&self) -> bool {
        &&& self.buffers@.len() == self.expected_total
        &&& 0 < self.expected_total <= MAX_FRAGMENTS
        &&& self.received as nat == filled(self.slots())
    }

    /// A reassembler expecting `total` fragments; refuses zero or more than
    /// the maximum.
    pub fn new(total: u16) -> (r: Result<FragmentReassembler, Error>)
        ensures
            match r {
                Ok(f) => 0 < total <= MAX_FRAGMENTS && f.wf() && f.total() == total && f.count() == 0
                    && f.slots() == empty_slots(total as nat),
                Err(e) => (total == 0 || total > MAX_FRAGMENTS) && e == Error::TooManyFragments,
            },
    {
        if total == 0 || total > MAX_FRAGMENTS {
            return Err(Error::TooManyFragments);
        }
        let mut buffers: Vec<Option<Vec<u8>>> = Vec::with_capacity(total as usize);
        let mut i: u16 = 0;
        while i < total
            invariant
                i <= total,
                buffers@.len() == i,
                forall|j: int| 0 <= j < i ==> #[trigger] buffers@[j] is None,
            decreases total - i,
        {
            buffers.push(None);
            i += 1;
        }
        let f = FragmentReassembler { expected_total: total, buffers, received: 0 };
        proof {
            assert(f.slots() =~= Seq::new(total as nat, |i: int| None::<Seq<u8>>));
            lemma_filled_zero(f.slots());
        }
        Ok(f)
    }

    /// Stores fragment `index` (its content, without the sub-header). An
    /// index out of range or already filled is refused and nothing changes.
    pub fn insert(&mut self, index: u16, payload: &[u8]) -> (r: Result<(), Error>)
        requires
            old(self).wf(),
        ensures
            final(self).wf(),
            final(self).total() == old(self).total(),
            final(self).slots() == insert_slot(old(self).slots(), index as int, payload@),
            match r {
                Ok(()) => index < old(self).total() && old(self).slots()[index as int] is None
                    && final(self).slots() == old(self).slots().update(index as int, Some(payload@))
                    && final(self).count() == old(self).count() + 1,
                Err(e) => final(self).slots() == old(self).slots() && final(self).count() == old(self).count()
                    && if index >= old(self).total() {
                    e == Error::FragmentOutOfRange
                } else {
                    old(self).slots()[index as int] is Some && e == Error::DuplicateFragment
                },
            },
    {
        if index >= self.expected_total {
            return Err(Error::FragmentOutOfRange);
        }
        let idx = index as usize;
        if self.buffers[idx].is_some() {
            return Err(Error::DuplicateFragment);
        }
        let ghost before = self.slots();
        let content = vstd::slice::slice_to_vec(payload);
        self.buffers.set(idx, Some(content));
        proof {
            assert(self.slots() =~= before.update(index as int, Some(payload@)));
            lemma_filled_update(before, index as int, payload@);
            lemma_filled_bound(self.slots());
        }
        self.received = self.received + 1;
        Ok(())
    }

    /// Whether every fragment arrived.
    pub fn is_complete(&self) -> (b: bool)
        requires
            self.wf(),
        ensures
            b <==> self.count() == self.total(),
            b <==> forall|i: int| 0 <= i < self.total() ==> #[trigger] self.slots()[i] is Some,
    {
        proof {
            lemma_filled_bound(self.slots());
            if forall|i: int| 0 <= i < self.total() ==> #[trigger] self.slots()[i] is Some {
                lemma_filled_all_some(self.slots());
            }
        }
        self.received == self.expected_total
    }

    /// Consumes the reassembler and returns the fragments joined in index
    /// order; refuses while a fragment is missing.
    pub fn finish(self) -> (r: Result<Vec<u8>, Error>)
        requires
            self.wf(),
        ensures
            match r {
                Ok(out) => self.count() == self.total() && out@ == joined(self.slots()),
                Err(e) => self.count() != self.total() && e == Error::IncompleteReassembly,
            },
    {
        if !self.is_complete() {
            return Err(Error::IncompleteReassembly);
        }
        let mut out: Vec<u8> = Vec::new();
        let n = self.buffers.len();
        let mut i: usize = 0;
        while i < n
            invariant
                n == self.buffers@.len(),
                self.slots().len() == n,
                i <= n,
                out@ == joined(self.slots().take(i as int)),
            decreases n - i,
        {
            proof {
                lemma_joined_prefix(self.slots(), i as int);
            }
            match &self.buffers[i] {
                Some(b) => {
                    append_bytes(&mut out, b.as_slice());
                },
                None => {},
            }
            i += 1;
        }
        assert(self.slots().take(n as int) =~= self.slots());
        Ok(out)
    }
}

proof fn lemma_filled_zero(slots: Seq<Option<Seq<u8>>>)
    requires
        forall|i: int| 0 <= i < slots.len() ==> #[trigger] slots[i] is None,
    ensures
        filled(slots) == 0,
    decreases slots.len(),
{
    if slots.len() > 0 {
        assert forall|i: int| 0 <= i < slots.drop_last().len() implies #[trigger] slots.drop_last()[i] is None by {
            assert(slots.drop_last()[i] == slots[i]);
        }
        lemma_filled_zero(slots.drop_last());
    }
}

} // verus!
