//! Point-to-point signaling for WebRTC session descriptions and ICE candidates.
//!
//! The crate holds the wire codec, the per-connection handler state machine and
//! the per-node behaviour that routes requests and surfaces events. Stream I/O
//! is left to the caller: the handler says what to write and is told what was
//! read.

pub mod message;
pub mod codec;
pub mod decoder;
pub mod laws;
pub mod handler;
pub mod behaviour;

pub use crate::behaviour::{Behaviour, Event, FromSwarm, HandlerRequest, PeerId};
pub use crate::codec::{decode, decode_frame, encode};
pub use crate::decoder::FrameDecoder;
pub use crate::handler::{
    ConnectionEvent, FailureCause, Handler, HandlerEvent, HandlerOutEvent, PollOutcome,
    ReadOutcome, SignalingConfig, SubstreamState, WriteOutcome, PROTOCOL_NAME,
};
pub use crate::message::{MessageType, SignalingError, SignalingMessage};
