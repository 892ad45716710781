//! CRC-16/CCITT-FALSE (polynomial `0x1021`, initial value `0xFFFF`, no
//! final XOR). The canonical check value is `crc16_ccitt_false(b"123456789") == 0x29B1`.
//!
//! The mathematical definition is the bit-serial polynomial division
//! (`crc_update`); the executable code uses a 256-entry lookup table and is
//! proved equal to it byte by byte.

use vstd::prelude::*;

verus! {

/// The generator polynomial.
pub const POLY: u16 = 0x1021;

/// The initial register value.
pub const INIT: u16 = 0xFFFF;

/// One step of the bit-serial division: shift left, and fold the polynomial
/// in when the bit shifted out was set.
pub open spec fn crc_shift(x: u16) -> u16 {
    if x & 0x8000u16 != 0 {
        ((x << 1u16) ^ 0x1021u16) as u16
    } else {
        (x << 1u16) as u16
    }
}

/// `n` consecutive steps of [`crc_shift`].
pub open spec fn crc_shift_n(x: u16, n: nat) -> u16
    decreases n,
{
    if n == 0 {
        x
    } else {
        crc_shift(crc_shift_n(x, (n - 1) as nat))
    }
}

/// Eight steps of [`crc_shift`], written out.
pub open spec fn crc_shift8(x: u16) -> u16 {
    crc_shift(crc_shift(crc_shift(crc_shift(crc_shift(crc_shift(crc_shift(crc_shift(x))))))))
}

/// Feeds one byte into the CRC register, most significant bit first.
pub open spec fn crc_update(crc: u16, b: u8) -> u16 {
    crc_shift8(crc ^ (((b as u16) << 8u16) as u16))
}

/// The register after feeding `data` byte by byte, starting from `crc`.
pub open spec fn crc_fold(crc: u16, data: Seq<u8>) -> u16
    decreases data.len(),
{
    if data.len() == 0 {
        crc
    } else {
        crc_update(crc_fold(crc, data.drop_last()), data.last())
    }
}

/// CRC-16/CCITT-FALSE of `data`.
pub open spec fn spec_crc16(data: Seq<u8>) -> u16 {
    crc_fold(INIT, data)
}

/// The lookup-table entry for index `i`: the register contribution of one
/// byte `i` fed into a zero register.
pub open spec fn table_entry(i: u8) -> u16 {
    crc_shift8((((i as u16) << 8u16) as u16))
}

/// A lookup table as built by [`build_table`].
pub open spec fn is_crc_table(t: Seq<u16>) -> bool {
    &&& t.len() == 256
    &&& forall|i: int| 0 <= i < 256 ==> #[trigger] t[i] == table_entry(i as u8)
}

proof fn lemma_shift_n_8(x: u16)
    ensures
        crc_shift_n(x, 8) == crc_shift8(x),
{
    reveal_with_fuel(crc_shift_n, 9);
}

/// The table-driven step equals the bit-serial step: the high byte of the
/// register and the input byte are combined first, and the low byte of the
/// register is shifted out linearly.
proof fn lemma_table_step(crc: u16, b: u8)
    ensures
        crc_update(crc, b) == ((crc << 8u16) as u16) ^ table_entry((((crc >> 8u16) as u8) ^ b) as u8),
{
    assert(crc_shift8(crc ^ (((b as u16) << 8u16) as u16)) == ((crc << 8u16) as u16) ^ crc_shift8(
        (((((((crc >> 8u16) as u8) ^ b) as u8) as u16) << 8u16) as u16),
    )) by (bit_vector);
}

/// Feeding two pieces one after the other is feeding their concatenation.
pub proof fn lemma_crc_fold_append(crc: u16, a: Seq<u8>, b: Seq<u8>)
    ensures
        crc_fold(crc, a + b) == crc_fold(crc_fold(crc, a), b),
    decreases b.len(),
{
    if b.len() == 0 {
        assert(a + b =~= a);
    } else {
        lemma_crc_fold_append(crc, a, b.drop_last());
        assert((a + b).drop_last() =~= a + b.drop_last());
        assert((a + b).last() == b.last());
    }
}

/// The byte-wise exclusive or of two sequences of the same length.
pub open spec fn xor_bytes(a: Seq<u8>, b: Seq<u8>) -> Seq<u8> {
    Seq::new(a.len(), |i: int| a[i] ^ b[i])
}

proof fn lemma_shift_n_linear(x: u16, y: u16, n: nat)
    ensures
        crc_shift_n(x ^ y, n) == crc_shift_n(x, n) ^ crc_shift_n(y, n),
    decreases n,
{
    if n > 0 {
        lemma_shift_n_linear(x, y, (n - 1) as nat);
        let a = crc_shift_n(x, (n - 1) as nat);
        let b = crc_shift_n(y, (n - 1) as nat);
        assert(crc_shift(a ^ b) == crc_shift(a) ^ crc_shift(b)) by (bit_vector);
    }
}

proof fn lemma_shift_n_kernel(x: u16, n: nat)
    ensures
        (crc_shift_n(x, n) == 0) == (x == 0),
    decreases n,
{
    if n > 0 {
        lemma_shift_n_kernel(x, (n - 1) as nat);
        let a = crc_shift_n(x, (n - 1) as nat);
        assert((crc_shift(a) == 0) == (a == 0)) by (bit_vector);
    }
}

/// One byte step is linear in the register and the byte together.
proof fn lemma_update_linear(r1: u16, r2: u16, x: u8, y: u8)
    ensures
        crc_update(r1, x) ^ crc_update(r2, y) == crc_update(r1 ^ r2, x ^ y),
{
    let u = r1 ^ (((x as u16) << 8u16) as u16);
    let v = r2 ^ (((y as u16) << 8u16) as u16);
    assert((r1 ^ r2) ^ ((((x ^ y) as u16) << 8u16) as u16) == u ^ v) by (bit_vector)
        requires
            u == r1 ^ (((x as u16) << 8u16) as u16),
            v == r2 ^ (((y as u16) << 8u16) as u16),
    ;
    lemma_shift_n_linear(u, v, 8);
    lemma_shift_n_8(u);
    lemma_shift_n_8(v);
    lemma_shift_n_8(u ^ v);
}

/// A byte step is zero exactly when the register and the byte combine to zero.
proof fn lemma_update_kernel(r: u16, x: u8)
    ensures
        (crc_update(r, x) == 0) == (r ^ (((x as u16) << 8u16) as u16) == 0),
{
    let u = r ^ (((x as u16) << 8u16) as u16);
    lemma_shift_n_kernel(u, 8);
    lemma_shift_n_8(u);
}

/// The register is linear: feeding `a` from `c1` and `b` from `c2`, then
/// combining, is feeding their byte-wise combination from `c1 ^ c2`.
proof fn lemma_crc_fold_linear(c1: u16, c2: u16, a: Seq<u8>, b: Seq<u8>)
    requires
        a.len() == b.len(),
    ensures
        crc_fold(c1, a) ^ crc_fold(c2, b) == crc_fold(c1 ^ c2, xor_bytes(a, b)),
    decreases a.len(),
{
    if a.len() > 0 {
        lemma_crc_fold_linear(c1, c2, a.drop_last(), b.drop_last());
        assert(xor_bytes(a, b).drop_last() =~= xor_bytes(a.drop_last(), b.drop_last()));
        lemma_update_linear(crc_fold(c1, a.drop_last()), crc_fold(c2, b.drop_last()), a.last(), b.last());
    }
}

/// Zero bytes keep a zero register at zero and a non-zero register non-zero.
proof fn lemma_crc_fold_zeros(c: u16, z: Seq<u8>)
    requires
        forall|i: int| 0 <= i < z.len() ==> #[trigger] z[i] == 0,
    ensures
        (crc_fold(c, z) == 0) == (c == 0),
    decreases z.len(),
{
    if z.len() > 0 {
        assert forall|i: int| 0 <= i < z.drop_last().len() implies #[trigger] z.drop_last()[i] == 0 by {
            assert(z.drop_last()[i] == z[i]);
        }
        lemma_crc_fold_zeros(c, z.drop_last());
        let r = crc_fold(c, z.drop_last());
        assert(z.last() == 0);
        lemma_update_kernel(r, 0u8);
        assert(r ^ (((0u8 as u16) << 8u16) as u16) == r) by (bit_vector);
    }
}

/// A non-zero byte fed into a zero register leaves a non-zero low byte.
proof fn lemma_table_low_byte(e: u8)
    ensures
        e != 0 ==> crc_shift8((((e as u16) << 8u16) as u16)) & 0xffu16 != 0,
{
    assert(e != 0 ==> crc_shift8((((e as u16) << 8u16) as u16)) & 0xffu16 != 0) by (bit_vector);
}

/// CRC-16/CCITT-FALSE detects every error confined to two consecutive
/// bytes, and so every single-byte error and every byte-aligned burst of up
/// to 16 bits: two messages of the same length that differ, but nowhere
/// outside positions `p` and `p + 1`, have different checksums.
pub proof fn lemma_crc_detects_two_byte_errors(a: Seq<u8>, b: Seq<u8>, p: int)
    requires
        a.len() == b.len(),
        0 <= p < a.len(),
        forall|i: int| 0 <= i < a.len() && i != p && i != p + 1 ==> a[i] == b[i],
        a != b,
    ensures
        spec_crc16(a) != spec_crc16(b),
{
    let n = a.len();
    let e = xor_bytes(a, b);
    lemma_crc_fold_linear(INIT, INIT, a, b);
    assert(INIT ^ INIT == 0u16) by (bit_vector);
    let q: int = if p + 2 <= n {
        p + 2
    } else {
        n as int
    };
    let head = e.take(p);
    let w = e.subrange(p, q);
    let tail = e.subrange(q, n as int);
    assert(e =~= head + w + tail);
    assert forall|i: int| 0 <= i < head.len() implies #[trigger] head[i] == 0 by {
        assert(a[i] == b[i]);
        let x = a[i];
        assert(x ^ x == 0u8) by (bit_vector);
    }
    assert forall|i: int| 0 <= i < tail.len() implies #[trigger] tail[i] == 0 by {
        assert(a[q + i] == b[q + i]);
        let x = a[q + i];
        assert(x ^ x == 0u8) by (bit_vector);
    }
    lemma_crc_fold_zeros(0, head);
    lemma_crc_fold_append(0, head + w, tail);
    lemma_crc_fold_append(0, head, w);
    let r = crc_fold(0, w);
    // Some byte of the window differs.
    let k = choose|k: int| 0 <= k < n && a[k] != b[k];
    assert(exists|k: int| 0 <= k < n && a[k] != b[k]) by {
        if forall|k: int| 0 <= k < n ==> a[k] == b[k] {
            assert(a =~= b);
        }
    }
    assert(p <= k < q);
    assert(e[k] != 0) by {
        let x = a[k];
        let y = b[k];
        assert(x != y ==> x ^ y != 0u8) by (bit_vector);
    }
    let e0 = w[0];
    assert(0u16 ^ (((e0 as u16) << 8u16) as u16) == (((e0 as u16) << 8u16) as u16)) by (bit_vector);
    let r1 = crc_update(0u16, e0);
    lemma_shift_n_8((((e0 as u16) << 8u16) as u16));
    assert(w[k - p] == e[k]);
    if q == p + 1 {
        assert(w.drop_last() =~= Seq::<u8>::empty());
        assert(crc_fold(0u16, w.drop_last()) == 0u16);
        assert(w.last() == e0);
        assert(r == crc_update(0u16, e0));
        assert(e0 != 0);
        lemma_update_kernel(0u16, e0);
        assert(e0 != 0 ==> (((e0 as u16) << 8u16) as u16) != 0) by (bit_vector);
    } else {
        let e1 = w[1];
        let w1 = w.drop_last();
        assert(w1 =~= seq![e0]);
        assert(w1.drop_last() =~= Seq::<u8>::empty());
        assert(crc_fold(0u16, w1.drop_last()) == 0u16);
        assert(w1.last() == e0);
        assert(crc_fold(0u16, w1) == r1);
        assert(w.last() == e1);
        assert(r == crc_update(r1, e1));
        assert(e0 != 0 || e1 != 0);
        lemma_update_kernel(r1, e1);
        if e0 != 0 {
            lemma_table_low_byte(e0);
            assert(r1 & 0xffu16 != 0 ==> r1 ^ (((e1 as u16) << 8u16) as u16) != 0) by (bit_vector);
        } else {
            lemma_update_kernel(0u16, e0);
            assert(e0 == 0 ==> (((e0 as u16) << 8u16) as u16) == 0) by (bit_vector);
            assert(e1 != 0 ==> 0u16 ^ (((e1 as u16) << 8u16) as u16) != 0) by (bit_vector);
        }
    }
    assert(r != 0);
    lemma_crc_fold_zeros(r, tail);
    assert(crc_fold(0u16, head) == 0u16);
    assert(crc_fold(0u16, head + w) == r);
    assert(crc_fold(0u16, e) != 0u16);
    let ca = crc_fold(INIT, a);
    let cb = crc_fold(INIT, b);
    assert(ca ^ cb != 0u16);
    assert(ca == cb ==> ca ^ cb == 0u16) by (bit_vector);
}

/// Three error bytes read as one 24-bit pattern, the first most significant.
pub open spec fn error_pattern(e0: u8, e1: u8, e2: u8) -> u32 {
    ((e0 as u32) << 16u32) | ((e1 as u32) << 8u32) | (e2 as u32)
}

/// Whether the set bits of `e` all lie in the 16 bits that start `s` bits up.
pub open spec fn fits_at(e: u32, s: u32) -> bool {
    (e >> s) < 0x10000u32 && ((e >> s) << s) == e
}

/// The register before the last step of feeding three error bytes into a
/// zero register is not zero when the error is not zero and spans at most
/// 16 bits.
proof fn lemma_burst_register(e0: u8, e1: u8, e2: u8, s: u32)
    requires
        s <= 8,
        fits_at(error_pattern(e0, e1, e2), s),
        error_pattern(e0, e1, e2) != 0,
    ensures
        crc_update(crc_update(0u16, e0), e1) ^ (((e2 as u16) << 8u16) as u16) != 0,
{
    let x0 = (((e0 as u16) << 8u16) as u16);
    assert(0u16 ^ x0 == x0) by (bit_vector);
    let r1 = crc_shift8(x0);
    let y = r1 ^ (((e1 as u16) << 8u16) as u16);
    let r2 = crc_shift8(y);
    let e = error_pattern(e0, e1, e2);
    assert(r2 ^ (((e2 as u16) << 8u16) as u16) != 0) by (bit_vector)
        requires
            x0 == (((e0 as u16) << 8u16) as u16),
            r1 == crc_shift8(x0),
            y == r1 ^ (((e1 as u16) << 8u16) as u16),
            r2 == crc_shift8(y),
            e == ((e0 as u32) << 16u32) | ((e1 as u32) << 8u32) | (e2 as u32),
            s <= 8,
            (e >> s) < 0x10000u32,
            ((e >> s) << s) == e,
            e != 0,
    ;
}

/// CRC-16/CCITT-FALSE detects every burst error of up to 16 bits, aligned
/// to a byte or not: two messages of the same length that differ nowhere
/// outside the three bytes from `p`, and whose difference there, read as a
/// 24-bit pattern, has all its set bits within the 16 bits that start `s`
/// bits up, have different checksums. (A burst within the last two bytes is
/// covered by [`lemma_crc_detects_two_byte_errors`].)
pub proof fn lemma_crc_detects_bursts(a: Seq<u8>, b: Seq<u8>, p: int, s: u32)
    requires
        a.len() == b.len(),
        0 <= p,
        p + 3 <= a.len(),
        forall|i: int| 0 <= i < a.len() && (i < p || i >= p + 3) ==> a[i] == b[i],
        s <= 8,
        fits_at(error_pattern(a[p] ^ b[p], a[p + 1] ^ b[p + 1], a[p + 2] ^ b[p + 2]), s),
        a != b,
    ensures
        spec_crc16(a) != spec_crc16(b),
{
    let n = a.len();
    let e = xor_bytes(a, b);
    lemma_crc_fold_linear(INIT, INIT, a, b);
    assert(INIT ^ INIT == 0u16) by (bit_vector);
    let q = p + 3;
    let head = e.take(p);
    let w = e.subrange(p, q);
    let tail = e.subrange(q, n as int);
    assert(e =~= head + w + tail);
    assert forall|i: int| 0 <= i < head.len() implies #[trigger] head[i] == 0 by {
        assert(a[i] == b[i]);
        let x = a[i];
        assert(x ^ x == 0u8) by (bit_vector);
    }
    assert forall|i: int| 0 <= i < tail.len() implies #[trigger] tail[i] == 0 by {
        assert(a[q + i] == b[q + i]);
        let x = a[q + i];
        assert(x ^ x == 0u8) by (bit_vector);
    }
    lemma_crc_fold_zeros(0, head);
    lemma_crc_fold_append(0, head + w, tail);
    lemma_crc_fold_append(0, head, w);
    assert(exists|k: int| 0 <= k < n && a[k] != b[k]) by {
        if forall|k: int| 0 <= k < n ==> a[k] == b[k] {
            assert(a =~= b);
        }
    }
    let k = choose|k: int| 0 <= k < n && a[k] != b[k];
    assert(p <= k < q);
    assert(e[k] != 0) by {
        let x = a[k];
        let y = b[k];
        assert(x != y ==> x ^ y != 0u8) by (bit_vector);
    }
    let e0 = w[0];
    let e1 = w[1];
    let e2 = w[2];
    assert(w[k - p] == e[k]);
    assert(e0 != 0 || e1 != 0 || e2 != 0);
    assert(e0 != 0 || e1 != 0 || e2 != 0 ==> error_pattern(e0, e1, e2) != 0) by (bit_vector);
    lemma_burst_register(e0, e1, e2, s);
    let r2 = crc_update(crc_update(0u16, e0), e1);
    lemma_update_kernel(r2, e2);
    let w2 = w.drop_last();
    let w1 = w2.drop_last();
    assert(w2 =~= seq![e0, e1]);
    assert(w1 =~= seq![e0]);
    assert(w1.drop_last() =~= Seq::<u8>::empty());
    assert(crc_fold(0u16, w1.drop_last()) == 0u16);
    assert(crc_fold(0u16, w1) == crc_update(0u16, e0));
    assert(crc_fold(0u16, w2) == r2);
    let r = crc_fold(0u16, w);
    assert(r == crc_update(r2, e2));
    assert(r != 0);
    lemma_crc_fold_zeros(r, tail);
    assert(crc_fold(0u16, head) == 0u16);
    assert(crc_fold(0u16, head + w) == r);
    assert(crc_fold(0u16, e) != 0u16);
    let ca = crc_fold(INIT, a);
    let cb = crc_fold(INIT, b);
    assert(ca ^ cb != 0u16);
    assert(ca == cb ==> ca ^ cb == 0u16) by (bit_vector);
}

/// Builds the 256-entry lookup table of CRC-16/CCITT-FALSE.
pub fn build_table() -> (table: Vec<u16>)
    ensures
        is_crc_table(table@),
{
    let mut table: Vec<u16> = Vec::with_capacity(256);
    let mut i: usize = 0;
    while i < 256
        invariant
            i <= 256,
            table@.len() == i,
            forall|j: int| 0 <= j < i ==> #[trigger] table@[j] == table_entry(j as u8),
        decreases 256 - i,
    {
        let start: u16 = (i as u16) << 8u16;
        let mut crc: u16 = start;
        let mut bit: usize = 0;
        while bit < 8
            invariant
                bit <= 8,
                crc == crc_shift_n(start, bit as nat),
            decreases 8 - bit,
        {
            crc = if crc & 0x8000u16 != 0 {
                (crc << 1u16) ^ POLY
            } else {
                crc << 1u16
            };
            bit += 1;
        }
        proof {
            lemma_shift_n_8(start);
            assert(start == (((i as u8) as u16) << 8u16) as u16) by (bit_vector)
                requires
                    start == ((i as u16) << 8u16) as u16,
                    i < 256,
            ;
        }
        table.push(crc);
        i += 1;
    }
    table
}

/// Continues a CRC computation: feeds `data` into the register `crc`.
pub fn crc16_continue(crc: u16, table: &Vec<u16>, data: &[u8]) -> (out: u16)
    requires
        is_crc_table(table@),
    ensures
        out == crc_fold(crc, data@),
{
    let mut reg: u16 = crc;
    let mut i: usize = 0;
    while i < data.len()
        invariant
            is_crc_table(table@),
            i <= data@.len(),
            reg == crc_fold(crc, data@.take(i as int)),
        decreases data@.len() - i,
    {
        let byte = data[i];
        let idx = (((reg >> 8u16) as u8) ^ byte) as usize;
        proof {
            lemma_table_step(reg, byte);
            assert(data@.take(i + 1).drop_last() =~= data@.take(i as int));
            assert(data@.take(i + 1).last() == byte);
        }
        reg = (reg << 8u16) ^ table[idx];
        i += 1;
    }
    assert(data@.take(data@.len() as int) =~= data@);
    reg
}

/// The table-driven CRC of `data`.
fn crc16_table(data: &[u8]) -> (crc: u16)
    ensures
        crc == spec_crc16(data@),
{
    let table = build_table();
    crc16_continue(INIT, &table, data)
}

/// CRC-16/CCITT-FALSE of `data`.
pub fn crc16_ccitt_false(data: &[u8]) -> (crc: u16)
    ensures
        crc == spec_crc16(data@),
{
    crc16_table(data)
}

/// CRC-16/CCITT-FALSE of two segments taken in order, without joining them:
/// the same value as the CRC of their concatenation.
pub fn crc16_two_segments(segment_a: &[u8], segment_b: &[u8]) -> (crc: u16)
    ensures
        crc == spec_crc16(segment_a@ + segment_b@),
{
    let table = build_table();
    let mid = crc16_continue(INIT, &table, segment_a);
    let out = crc16_continue(mid, &table, segment_b);
    proof {
        lemma_crc_fold_append(INIT, segment_a@, segment_b@);
    }
    out
}

} // verus!
