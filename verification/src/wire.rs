//! Big-endian integers on the wire, and the byte-sequence vocabulary that the
//! encoders and decoders are specified with.

use vstd::prelude::*;

verus! {

/// The two big-endian bytes of `x`.
pub open spec fn be_u16(x: u16) -> Seq<u8> {
    seq![(x >> 8u16) as u8, x as u8]
}

/// The four big-endian bytes of `x`.
pub open spec fn be_u32(x: u32) -> Seq<u8> {
    seq![(x >> 24u32) as u8, (x >> 16u32) as u8, (x >> 8u32) as u8, x as u8]
}

/// The eight big-endian bytes of `x`.
pub open spec fn be_u64(x: u64) -> Seq<u8> {
    seq![
        (x >> 56u64) as u8,
        (x >> 48u64) as u8,
        (x >> 40u64) as u8,
        (x >> 32u64) as u8,
        (x >> 24u64) as u8,
        (x >> 16u64) as u8,
        (x >> 8u64) as u8,
        x as u8,
    ]
}

/// The big-endian `u16` made of two bytes.
pub open spec fn u16_of(b0: u8, b1: u8) -> u16 {
    (((b0 as u16) << 8u16) | (b1 as u16)) as u16
}

/// The big-endian `u32` made of four bytes.
pub open spec fn u32_of(b0: u8, b1: u8, b2: u8, b3: u8) -> u32 {
    (((b0 as u32) << 24u32) | ((b1 as u32) << 16u32) | ((b2 as u32) << 8u32) | (b3 as u32)) as u32
}

/// The big-endian `u64` made of eight bytes.
pub open spec fn u64_of(b0: u8, b1: u8, b2: u8, b3: u8, b4: u8, b5: u8, b6: u8, b7: u8) -> u64 {
    (((b0 as u64) << 56u64) | ((b1 as u64) << 48u64) | ((b2 as u64) << 40u64) | ((b3 as u64)
        << 32u64) | ((b4 as u64) << 24u64) | ((b5 as u64) << 16u64) | ((b6 as u64) << 8u64) | (b7 as u64)) as u64
}

/// The big-endian `u16` stored at `off` in `s`.
pub open spec fn get_u16(s: Seq<u8>, off: int) -> u16 {
    u16_of(s[off], s[off + 1])
}

/// The big-endian `u32` stored at `off` in `s`.
pub open spec fn get_u32(s: Seq<u8>, off: int) -> u32 {
    u32_of(s[off], s[off + 1], s[off + 2], s[off + 3])
}

/// The big-endian `u64` stored at `off` in `s`.
pub open spec fn get_u64(s: Seq<u8>, off: int) -> u64 {
    u64_of(
        s[off],
        s[off + 1],
        s[off + 2],
        s[off + 3],
        s[off + 4],
        s[off + 5],
        s[off + 6],
        s[off + 7],
    )
}

/// `s` with `piece` written over it from position `off`.
pub open spec fn splice(s: Seq<u8>, off: int, piece: Seq<u8>) -> Seq<u8> {
    s.subrange(0, off) + piece + s.subrange(off + piece.len(), s.len() as int)
}

/// Reading back the two bytes of `x` gives `x`.
pub proof fn lemma_u16_roundtrip(x: u16)
    ensures
        u16_of((x >> 8u16) as u8, x as u8) == x,
{
    assert(u16_of((x >> 8u16) as u8, x as u8) == x) by (bit_vector);
}

/// Reading back the four bytes of `x` gives `x`.
pub proof fn lemma_u32_roundtrip(x: u32)
    ensures
        u32_of((x >> 24u32) as u8, (x >> 16u32) as u8, (x >> 8u32) as u8, x as u8) == x,
{
    assert(u32_of((x >> 24u32) as u8, (x >> 16u32) as u8, (x >> 8u32) as u8, x as u8) == x)
        by (bit_vector);
}

/// Reading back the eight bytes of `x` gives `x`.
pub proof fn lemma_u64_roundtrip(x: u64)
    ensures
        u64_of(
            (x >> 56u64) as u8,
            (x >> 48u64) as u8,
            (x >> 40u64) as u8,
            (x >> 32u64) as u8,
            (x >> 24u64) as u8,
            (x >> 16u64) as u8,
            (x >> 8u64) as u8,
            x as u8,
        ) == x,
{
    assert(u64_of(
        (x >> 56u64) as u8,
        (x >> 48u64) as u8,
        (x >> 40u64) as u8,
        (x >> 32u64) as u8,
        (x >> 24u64) as u8,
        (x >> 16u64) as u8,
        (x >> 8u64) as u8,
        x as u8,
    ) == x) by (bit_vector);
}

/// Writes `piece` into `buf` from position `off`.
pub fn put_bytes(buf: &mut [u8], off: usize, piece: &[u8])
    requires
        off + piece@.len() <= old(buf)@.len(),
    ensures
        final(buf)@ == splice(old(buf)@, off as int, piece@),
{
    let blen = buf.len();
    let mut i: usize = 0;
    while i < piece.len()
        invariant
            blen == buf@.len(),
            off + piece@.len() <= buf@.len(),
            buf@.len() == old(buf)@.len(),
            i <= piece@.len(),
            buf@ == splice(old(buf)@, off as int, piece@.take(i as int)),
        decreases piece@.len() - i,
    {
        buf[off + i] = piece[i];
        i += 1;
        assert(buf@ =~= splice(old(buf)@, off as int, piece@.take(i as int)));
    }
    assert(piece@.take(piece@.len() as int) =~= piece@);
}

/// Writes the big-endian bytes of `v` at `off`.
pub fn put_u16(buf: &mut [u8], off: usize, v: u16)
    requires
        off + 2 <= old(buf)@.len(),
    ensures
        final(buf)@ == splice(old(buf)@, off as int, be_u16(v)),
{
    buf[off] = (v >> 8u16) as u8;
    buf[off + 1] = v as u8;
    assert(buf@ =~= splice(old(buf)@, off as int, be_u16(v)));
}

/// Writes the big-endian bytes of `v` at `off`.
pub fn put_u32(buf: &mut [u8], off: usize, v: u32)
    requires
        off + 4 <= old(buf)@.len(),
    ensures
        final(buf)@ == splice(old(buf)@, off as int, be_u32(v)),
{
    buf[off] = (v >> 24u32) as u8;
    buf[off + 1] = (v >> 16u32) as u8;
    buf[off + 2] = (v >> 8u32) as u8;
    buf[off + 3] = v as u8;
    assert(buf@ =~= splice(old(buf)@, off as int, be_u32(v)));
}

/// Writes the big-endian bytes of `v` at `off`.
pub fn put_u64(buf: &mut [u8], off: usize, v: u64)
    requires
        off + 8 <= old(buf)@.len(),
    ensures
        final(buf)@ == splice(old(buf)@, off as int, be_u64(v)),
{
    buf[off] = (v >> 56u64) as u8;
    buf[off + 1] = (v >> 48u64) as u8;
    buf[off + 2] = (v >> 40u64) as u8;
    buf[off + 3] = (v >> 32u64) as u8;
    buf[off + 4] = (v >> 24u64) as u8;
    buf[off + 5] = (v >> 16u64) as u8;
    buf[off + 6] = (v >> 8u64) as u8;
    buf[off + 7] = v as u8;
    assert(buf@ =~= splice(old(buf)@, off as int, be_u64(v)));
}

/// Reads the big-endian `u16` at `off`.
pub fn get_u16_at(buf: &[u8], off: usize) -> (v: u16)
    requires
        off + 2 <= buf@.len(),
    ensures
        v == get_u16(buf@, off as int),
{
    ((buf[off] as u16) << 8u16) | (buf[off + 1] as u16)
}

/// Reads the big-endian `u32` at `off`.
pub fn get_u32_at(buf: &[u8], off: usize) -> (v: u32)
    requires
        off + 4 <= buf@.len(),
    ensures
        v == get_u32(buf@, off as int),
{
    ((buf[off] as u32) << 24u32) | ((buf[off + 1] as u32) << 16u32) | ((buf[off + 2] as u32)
        << 8u32) | (buf[off + 3] as u32)
}

/// Reads the big-endian `u64` at `off`.
pub fn get_u64_at(buf: &[u8], off: usize) -> (v: u64)
    requires
        off + 8 <= buf@.len(),
    ensures
        v == get_u64(buf@, off as int),
{
    ((buf[off] as u64) << 56u64) | ((buf[off + 1] as u64) << 48u64) | ((buf[off + 2] as u64)
        << 40u64) | ((buf[off + 3] as u64) << 32u64) | ((buf[off + 4] as u64) << 24u64) | ((buf[off
        + 5] as u64) << 16u64) | ((buf[off + 6] as u64) << 8u64) | (buf[off + 7] as u64)
}

} // verus!

verus! {

/// Appends the bytes of `src` to `out`.
pub fn append_bytes(out: &mut Vec<u8>, src: &[u8])
    ensures
        final(out)@ == old(out)@ + src@,
{
    let mut i: usize = 0;
    while i < src.len()
        invariant
            i <= src@.len(),
            out@ == old(out)@ + src@.take(i as int),
        decreases src@.len() - i,
    {
        out.push(src[i]);
        i += 1;
        assert(out@ =~= old(out)@ + src@.take(i as int));
    }
    assert(src@.take(src@.len() as int) =~= src@);
}

} // verus!
