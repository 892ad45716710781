//! Errors of the wire protocol: packet framing, payloads and fragmentation.

use vstd::prelude::*;

verus! {

/// Why a packet, payload or fragment was refused.
#[derive(Debug, Clone, Copy, PartialEq, Eq, Structural)]
pub enum Error {
    /// The buffer is shorter than the smallest packet.
    TooShort,
    /// The header does not start with the protocol magic.
    BadMagic,
    /// The header carries a protocol version this build does not speak.
    UnsupportedVersion,
    /// The `payload_len` field does not match the buffer length.
    LengthMismatch,
    /// The payload exceeds the largest payload a packet may carry.
    PayloadTooLarge,
    /// The stored checksum differs from the computed one.
    BadChecksum,
    /// The output buffer cannot hold the encoding.
    BufferTooSmall,
    /// The `msg_type` byte names no known message.
    UnknownMessageType(u8),
    /// A structured payload is too short or holds an invalid code.
    MalformedPayload,
    /// A fragment count is zero or above the allowed maximum.
    TooManyFragments,
    /// A fragment index is not below the fragment count.
    FragmentOutOfRange,
    /// The same fragment index arrived twice.
    DuplicateFragment,
    /// Reassembly was finished before every fragment arrived.
    IncompleteReassembly,
}

} // verus!
