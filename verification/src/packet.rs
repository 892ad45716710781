//! Whole packets: assembly into a caller buffer and zero-copy decoding.
//!
//! ```text
//! [ header (24 bytes) ][ payload (N bytes) ][ payload_len (2) ][ checksum (2) ]
//! ```
//!
//! `payload_len` and `checksum` (both big-endian) sit at the end of the
//! packet so that the header keeps `timestamp` naturally aligned. The
//! checksum is CRC-16/CCITT-FALSE over header, payload and `payload_len`.

use vstd::prelude::*;

use crate::checksum::{build_table, crc16_continue, crc16_two_segments, crc_fold, lemma_crc_fold_append, INIT};
use crate::constants::{
    CHECKSUM_TAIL_OFFSET, HEADER_SIZE, MAX_PAYLOAD_SIZE, PAYLOAD_LEN_TAIL_OFFSET, PROTOCOL_VERSION,
};
use crate::error::Error;
use crate::header::{header_bytes, lemma_header_roundtrip, parse_header, PacketHeader};
use crate::wire::{be_u16, get_u16, get_u16_at, lemma_u16_roundtrip, put_bytes, put_u16, splice};

verus! {

/// Header, payload and `payload_len`: the bytes the checksum covers.
pub open spec fn packet_body(h: PacketHeader, payload: Seq<u8>) -> Seq<u8> {
    header_bytes(h) + payload + be_u16(payload.len() as u16)
}

/// The complete encoding of a packet.
pub open spec fn packet_bytes(h: PacketHeader, payload: Seq<u8>) -> Seq<u8> {
    packet_body(h, payload) + be_u16(crc_fold(INIT, packet_body(h, payload)))
}

/// The header and payload that `s` encodes, or why it is refused. The
/// checks go from cheap to costly: length, magic, version, length field,
/// payload bound, checksum.
pub open spec fn parse_packet(s: Seq<u8>) -> Result<(PacketHeader, Seq<u8>), Error> {
    if s.len() < HEADER_SIZE + 4 {
        Err(Error::TooShort)
    } else {
        match parse_header(s) {
            Err(e) => Err(e),
            Ok(h) => {
                let pl = get_u16(s, s.len() - PAYLOAD_LEN_TAIL_OFFSET);
                if HEADER_SIZE + pl + 4 != s.len() {
                    Err(Error::LengthMismatch)
                } else if pl > MAX_PAYLOAD_SIZE {
                    Err(Error::PayloadTooLarge)
                } else {
                    let payload = s.subrange(HEADER_SIZE as int, HEADER_SIZE + pl);
                    let stored = get_u16(s, s.len() - CHECKSUM_TAIL_OFFSET);
                    let computed = crc_fold(INIT, s.subrange(0, HEADER_SIZE as int) + payload + be_u16(pl));
                    if stored != computed {
                        Err(Error::BadChecksum)
                    } else {
                        Ok((h, payload))
                    }
                }
            },
        }
    }
}

/// Decoding what the builder encodes gives back the header and the payload,
/// for every header of this protocol version and every payload within the
/// size bound.
pub proof fn lemma_packet_roundtrip(h: PacketHeader, payload: Seq<u8>)
    requires
        h.version == PROTOCOL_VERSION,
        payload.len() <= MAX_PAYLOAD_SIZE,
    ensures
        parse_packet(packet_bytes(h, payload)) == Ok::<(PacketHeader, Seq<u8>), Error>((h, payload)),
{
    let pl = payload.len() as u16;
    let body = packet_body(h, payload);
    let crc = crc_fold(INIT, body);
    let s = packet_bytes(h, payload);
    assert(header_bytes(h).len() == 24);
    assert(s =~= header_bytes(h) + (payload + be_u16(pl) + be_u16(crc)));
    lemma_header_roundtrip(h, payload + be_u16(pl) + be_u16(crc));
    lemma_u16_roundtrip(pl);
    lemma_u16_roundtrip(crc);
    assert(s.len() == 28 + payload.len());
    assert(s[s.len() - 4] == (pl >> 8u16) as u8 && s[s.len() - 3] == pl as u8);
    assert(s[s.len() - 2] == (crc >> 8u16) as u8 && s[s.len() - 1] == crc as u8);
    assert(s.subrange(HEADER_SIZE as int, HEADER_SIZE + pl) =~= payload);
    assert(s.subrange(0, HEADER_SIZE as int) =~= header_bytes(h));
}

/// A packet decoded without copying: the payload borrows the input buffer.
#[derive(Debug)]
pub struct PacketView<'a> {
    header: PacketHeader,
    payload: &'a [u8],
}

impl<'a> View for PacketView<'a> {
    type V = (PacketHeader, Seq<u8>);

    closed spec fn view(&self) -> (PacketHeader, Seq<u8>) {
        (self.header, self.payload@)
    }
}

/// Short name for a decoded packet.
pub type Packet<'a> = PacketView<'a>;

impl<'a> PacketView<'a> {
    /// The decoded header.
    pub fn header(&self) -> (h: &PacketHeader)
        ensures
            *h == self@.0,
    {
        &self.header
    }

    /// The payload, a sub-slice of the decoded buffer.
    pub fn payload(&self) -> (p: &'a [u8])
        ensures
            p@ == self@.1,
    {
        self.payload
    }

    /// The `msg_type` byte of the header.
    pub fn msg_type(&self) -> (t: u8)
        ensures
            t == self@.0.msg_type,
    {
        self.header.msg_type
    }

    /// Decodes a packet from a buffer received off the wire, without copying.
    pub fn decode(buf: &'a [u8]) -> (r: Result<PacketView<'a>, Error>)
        ensures
            match r {
                Ok(v) => parse_packet(buf@) == Ok::<(PacketHeader, Seq<u8>), Error>(v@),
                Err(e) => parse_packet(buf@) == Err::<(PacketHeader, Seq<u8>), Error>(e),
            },
    {
        let total_len = buf.len();
        if total_len < HEADER_SIZE + 4 {
            return Err(Error::TooShort);
        }
        let header = match PacketHeader::decode(buf) {
            Ok(h) => h,
            Err(e) => return Err(e),
        };
        let payload_len_offset = total_len - PAYLOAD_LEN_TAIL_OFFSET;
        let checksum_offset = total_len - CHECKSUM_TAIL_OFFSET;
        let payload_len = get_u16_at(buf, payload_len_offset);
        let expected_len = HEADER_SIZE + payload_len as usize + 4;
        if expected_len != total_len {
            return Err(Error::LengthMismatch);
        }
        if payload_len as usize > MAX_PAYLOAD_SIZE {
            return Err(Error::PayloadTooLarge);
        }
        let payload = vstd::slice::slice_subrange(buf, HEADER_SIZE, HEADER_SIZE + payload_len as usize);
        let stored_checksum = get_u16_at(buf, checksum_offset);
        let computed = compute_checksum(
            vstd::slice::slice_subrange(buf, 0, HEADER_SIZE),
            payload,
            payload_len,
        );
        if stored_checksum != computed {
            return Err(Error::BadChecksum);
        }
        Ok(PacketView { header, payload })
    }
}

/// The canonical checksum: header, then payload, then `payload_len`.
fn compute_checksum(header: &[u8], payload: &[u8], payload_len: u16) -> (crc: u16)
    ensures
        crc == crc_fold(INIT, header@ + payload@ + be_u16(payload_len)),
{
    let table = build_table();
    let mut crc: u16 = INIT;
    crc = crc_step(crc, &table, header);
    crc = crc_step(crc, &table, payload);
    let len_bytes: [u8; 2] = [(payload_len >> 8u16) as u8, payload_len as u8];
    assert(len_bytes@ =~= be_u16(payload_len));
    crc = crc_step(crc, &table, vstd::array::array_as_slice(&len_bytes));
    proof {
        lemma_crc_fold_append(INIT, header@, payload@);
        lemma_crc_fold_append(INIT, header@ + payload@, be_u16(payload_len));
    }
    crc
}

/// Feeds `data` into the CRC register `crc`.
fn crc_step(crc: u16, table: &Vec<u16>, data: &[u8]) -> (out: u16)
    requires
        crate::checksum::is_crc_table(table@),
    ensures
        out == crc_fold(crc, data@),
{
    crc16_continue(crc, table, data)
}

/// Encodes a packet into a caller buffer.
#[derive(Debug, Clone, Copy)]
pub struct PacketBuilder<'a> {
    pub header: PacketHeader,
    pub payload: &'a [u8],
}

impl<'a> PacketBuilder<'a> {
    /// A builder for `header` and `payload`.
    pub fn new(header: PacketHeader, payload: &'a [u8]) -> (b: PacketBuilder<'a>)
        ensures
            b.header == header,
            b.payload@ == payload@,
    {
        PacketBuilder { header, payload }
    }

    /// Writes the packet at the start of `out` and returns its length. The
    /// payload bound is checked first, then the buffer size; on error `out`
    /// is untouched, and on success the bytes after the packet are too.
    pub fn encode(&self, out: &mut [u8]) -> (r: Result<usize, Error>)
        ensures
            match r {
                Ok(n) => {
                    &&& self.payload@.len() <= MAX_PAYLOAD_SIZE
                    &&& n == HEADER_SIZE + self.payload@.len() + 4
                    &&& n <= old(out)@.len()
                    &&& final(out)@ == splice(old(out)@, 0, packet_bytes(self.header, self.payload@))
                },
                Err(e) => {
                    &&& final(out)@ == old(out)@
                    &&& (self.payload@.len() > MAX_PAYLOAD_SIZE || old(out)@.len() < HEADER_SIZE
                        + self.payload@.len() + 4)
                    &&& (e == Error::PayloadTooLarge <==> self.payload@.len() > MAX_PAYLOAD_SIZE)
                    &&& (e == Error::BufferTooSmall <==> (self.payload@.len() <= MAX_PAYLOAD_SIZE
                        && old(out)@.len() < HEADER_SIZE + self.payload@.len() + 4))
                },
            },
    {
        let payload_len = self.payload.len();
        if payload_len > MAX_PAYLOAD_SIZE {
            return Err(Error::PayloadTooLarge);
        }
        let total = HEADER_SIZE + payload_len + 4;
        if out.len() < total {
            return Err(Error::BufferTooSmall);
        }
        let ghost o0 = out@;
        let _ = self.header.encode(out);
        let ghost o1 = out@;
        put_bytes(out, HEADER_SIZE, self.payload);
        let ghost o2 = out@;
        let payload_len_u16 = payload_len as u16;
        let payload_len_offset = total - PAYLOAD_LEN_TAIL_OFFSET;
        put_u16(out, payload_len_offset, payload_len_u16);
        let ghost o3 = out@;
        assert(o3.subrange(0, HEADER_SIZE as int) =~= header_bytes(self.header));
        let table = build_table();
        let head_crc = crc16_two_segments(vstd::slice::slice_subrange(&*out, 0, HEADER_SIZE), self.payload);
        let len_bytes: [u8; 2] = [(payload_len_u16 >> 8u16) as u8, payload_len_u16 as u8];
        assert(len_bytes@ =~= be_u16(payload_len_u16));
        let checksum = crc_step(head_crc, &table, vstd::array::array_as_slice(&len_bytes));
        proof {
            lemma_crc_fold_append(INIT, header_bytes(self.header) + self.payload@, be_u16(payload_len_u16));
            assert(packet_body(self.header, self.payload@) =~= header_bytes(self.header) + self.payload@
                + be_u16(payload_len_u16));
        }
        let checksum_offset = total - CHECKSUM_TAIL_OFFSET;
        put_u16(out, checksum_offset, checksum);
        assert(out@ =~= splice(o0, 0, packet_bytes(self.header, self.payload@)));
        Ok(total)
    }
}

} // verus!
