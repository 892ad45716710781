//! Gravital Talk: the wire protocol, push-to-talk floor control and the
//! audio-session logic of a real-time voice transport, with their contracts.

pub mod checksum;
pub mod cli;
pub mod codec;
pub mod codec_session;
pub mod constants;
pub mod error;
pub mod floor;
pub mod fragment;
pub mod frame_buffer;
pub mod header;
pub mod identity;
pub mod io;
pub mod lifecycle;
pub mod message;
pub mod metrics;
pub mod packet;
pub mod relay;
pub mod sdk;
pub mod session;
pub mod text;
pub mod wire;
