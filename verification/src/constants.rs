//! Protocol constants shared by the wire format and the session layer.

use vstd::prelude::*;

verus! {

/// Wire protocol version carried in every packet header.
pub const PROTOCOL_VERSION: u8 = 1;

/// Magic marker at the start of every packet header (`"GS"`).
pub const MAGIC: u16 = 0x4753;

/// Size of the fixed packet header in bytes.
pub const HEADER_SIZE: usize = 24;

/// Largest payload a single packet carries.
pub const MAX_PAYLOAD_SIZE: usize = 1200;

/// Distance of the `payload_len` field from the end of a packet.
pub const PAYLOAD_LEN_TAIL_OFFSET: usize = 4;

/// Distance of the `checksum` field from the end of a packet.
pub const CHECKSUM_TAIL_OFFSET: usize = 2;

/// Number of packets covered by the loss-tracking window (one bit each).
pub const LOSS_WINDOW_SIZE: u32 = 64;

/// Size of the fragmentation sub-header at the start of a fragment payload.
pub const FRAGMENT_SUBHEADER_SIZE: usize = 4;

/// Largest number of fragments one frame may be split into.
pub const MAX_FRAGMENTS: u16 = 64;

/// Default sample rate in Hz.
pub const DEFAULT_SAMPLE_RATE: u32 = 48_000;

/// Default audio frame duration in milliseconds.
pub const DEFAULT_FRAME_DURATION_MS: u8 = 20;

/// Default bitrate ceiling in bits per second.
pub const DEFAULT_MAX_BITRATE: u32 = 64_000;

/// Default jitter-buffer depth in milliseconds.
pub const DEFAULT_JITTER_BUFFER_MS: u16 = 60;

/// Default effective MTU in bytes.
pub const DEFAULT_MTU: usize = 1500;

/// Time allowed for a whole handshake, in milliseconds.
pub const HANDSHAKE_TIMEOUT_MS: u64 = 5_000;

/// Base delay of the handshake retry backoff, in milliseconds.
pub const HANDSHAKE_RETRY_BASE_MS: u64 = 100;

/// Interval between heartbeats on an idle session, in milliseconds.
pub const HEARTBEAT_INTERVAL_MS: u64 = 1_000;

/// Silence after which the peer is considered gone, in milliseconds.
pub const HEARTBEAT_TIMEOUT_MS: u64 = 5_000;

} // verus!
