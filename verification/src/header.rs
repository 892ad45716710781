//! The fixed 24-byte packet header.
//!
//! ```text
//! offset  size  field
//!      0     2  magic "GS" (0x47 0x53)
//!      2     1  version
//!      3     1  flags
//!      4     1  msg_type
//!      5     3  reserved (written as zero, ignored on read)
//!      8     4  session_id  (big-endian)
//!     12     4  sequence    (big-endian)
//!     16     8  timestamp   (big-endian, microseconds, naturally aligned)
//! ```

use vstd::prelude::*;

use crate::constants::{HEADER_SIZE, MAGIC, PROTOCOL_VERSION};
use crate::error::Error;
use crate::wire::{
    be_u32, be_u64, get_u16, get_u16_at, get_u32, get_u32_at, get_u64, get_u64_at, lemma_u32_roundtrip,
    lemma_u64_roundtrip, put_u32, put_u64, splice, u16_of,
};

verus! {

/// Header flag bits. No bit has a meaning defined by the protocol yet; the
/// byte is carried through unchanged.
#[derive(Debug, Clone, Copy, PartialEq, Eq, Structural)]
pub struct Flags(pub u8);

impl Flags {
    /// No flag set.
    pub fn empty() -> (f: Flags)
        ensures
            f.0 == 0,
    {
        Flags(0)
    }

    /// Flags with exactly the bits of `bits`, known or not.
    pub fn from_bits_retain(bits: u8) -> (f: Flags)
        ensures
            f.0 == bits,
    {
        Flags(bits)
    }

    /// The raw flag byte.
    pub fn bits(&self) -> (b: u8)
        ensures
            b == self.0,
    {
        self.0
    }
}

/// The decoded packet header.
#[derive(Debug, Clone, Copy, PartialEq, Eq, Structural)]
pub struct PacketHeader {
    pub version: u8,
    pub flags: Flags,
    pub msg_type: u8,
    pub session_id: u32,
    pub sequence: u32,
    pub timestamp: u64,
}

/// The 24 bytes that encode `h`.
pub open spec fn header_bytes(h: PacketHeader) -> Seq<u8> {
    seq![0x47u8, 0x53u8, h.version, h.flags.0, h.msg_type, 0u8, 0u8, 0u8] + be_u32(h.session_id)
        + be_u32(h.sequence) + be_u64(h.timestamp)
}

/// The header read from the start of `s`, or why it cannot be read.
pub open spec fn parse_header(s: Seq<u8>) -> Result<PacketHeader, Error> {
    if s.len() < HEADER_SIZE {
        Err(Error::TooShort)
    } else if get_u16(s, 0) != MAGIC {
        Err(Error::BadMagic)
    } else if s[2] != PROTOCOL_VERSION {
        Err(Error::UnsupportedVersion)
    } else {
        Ok(
            PacketHeader {
                version: s[2],
                flags: Flags(s[3]),
                msg_type: s[4],
                session_id: get_u32(s, 8),
                sequence: get_u32(s, 12),
                timestamp: get_u64(s, 16),
            },
        )
    }
}

/// Reading back the bytes of a header of this protocol version, whatever
/// follows them, gives the header.
pub proof fn lemma_header_roundtrip(h: PacketHeader, rest: Seq<u8>)
    requires
        h.version == PROTOCOL_VERSION,
    ensures
        parse_header(header_bytes(h) + rest) == Ok::<PacketHeader, Error>(h),
{
    let s = header_bytes(h) + rest;
    assert(header_bytes(h).len() == 24);
    assert(u16_of(0x47u8, 0x53u8) == 0x4753u16) by (bit_vector);
    lemma_u32_roundtrip(h.session_id);
    lemma_u32_roundtrip(h.sequence);
    lemma_u64_roundtrip(h.timestamp);
    assert(s[0] == 0x47u8 && s[1] == 0x53u8 && s[2] == h.version && s[3] == h.flags.0 && s[4]
        == h.msg_type);
    assert(s[8] == (h.session_id >> 24u32) as u8 && s[9] == (h.session_id >> 16u32) as u8 && s[10]
        == (h.session_id >> 8u32) as u8 && s[11] == h.session_id as u8);
    assert(s[12] == (h.sequence >> 24u32) as u8 && s[13] == (h.sequence >> 16u32) as u8 && s[14]
        == (h.sequence >> 8u32) as u8 && s[15] == h.sequence as u8);
    assert(s[16] == (h.timestamp >> 56u64) as u8 && s[17] == (h.timestamp >> 48u64) as u8 && s[18]
        == (h.timestamp >> 40u64) as u8 && s[19] == (h.timestamp >> 32u64) as u8);
    assert(s[20] == (h.timestamp >> 24u64) as u8 && s[21] == (h.timestamp >> 16u64) as u8 && s[22]
        == (h.timestamp >> 8u64) as u8 && s[23] == h.timestamp as u8);
}

impl PacketHeader {
    /// Size of the encoded header.
    pub const SIZE: usize = 24;

    /// A header of the current protocol version with no flags set.
    pub fn new(msg_type: u8, session_id: u32, sequence: u32, timestamp: u64) -> (h: PacketHeader)
        ensures
            h == (PacketHeader {
                version: PROTOCOL_VERSION,
                flags: Flags(0),
                msg_type,
                session_id,
                sequence,
                timestamp,
            }),
    {
        PacketHeader {
            version: PROTOCOL_VERSION,
            flags: Flags::empty(),
            msg_type,
            session_id,
            sequence,
            timestamp,
        }
    }

    /// Writes the 24 header bytes at the start of `buf`; the rest of `buf`
    /// is left as it was.
    pub fn encode(&self, buf: &mut [u8]) -> (r: Result<(), Error>)
        ensures
            match r {
                Ok(()) => old(buf)@.len() >= HEADER_SIZE && final(buf)@ == splice(
                    old(buf)@,
                    0,
                    header_bytes(*self),
                ),
                Err(e) => old(buf)@.len() < HEADER_SIZE && e == Error::BufferTooSmall
                    && final(buf)@ == old(buf)@,
            },
    {
        if buf.len() < HEADER_SIZE {
            return Err(Error::BufferTooSmall);
        }
        let ghost b0 = buf@;
        buf[0] = 0x47u8;
        buf[1] = 0x53u8;
        buf[2] = self.version;
        buf[3] = self.flags.0;
        buf[4] = self.msg_type;
        buf[5] = 0;
        buf[6] = 0;
        buf[7] = 0;
        let ghost b1 = buf@;
        put_u32(buf, 8, self.session_id);
        put_u32(buf, 12, self.sequence);
        put_u64(buf, 16, self.timestamp);
        assert(buf@ =~= splice(b0, 0, header_bytes(*self)));
        Ok(())
    }

    /// Reads a header from the start of `buf`. Checks, in order: length,
    /// magic, version.
    pub fn decode(buf: &[u8]) -> (r: Result<PacketHeader, Error>)
        ensures
            r == parse_header(buf@),
    {
        if buf.len() < HEADER_SIZE {
            return Err(Error::TooShort);
        }
        if get_u16_at(buf, 0) != MAGIC {
            return Err(Error::BadMagic);
        }
        if buf[2] != PROTOCOL_VERSION {
            return Err(Error::UnsupportedVersion);
        }
        Ok(
            PacketHeader {
                version: buf[2],
                flags: Flags(buf[3]),
                msg_type: buf[4],
                session_id: get_u32_at(buf, 8),
                sequence: get_u32_at(buf, 12),
                timestamp: get_u64_at(buf, 16),
            },
        )
    }
}

} // verus!
