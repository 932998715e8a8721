//! A bit-exact codec for the frames of a compact publish/subscribe protocol
//! for wireless sensor nodes and their gateways (MQTT-SN style).
//!
//! Every frame is `length:u8 type:u8 payload`, the length counting the whole
//! frame. Decoding takes one complete frame from the start of a buffer and
//! gives back the message and the number of bytes it took; encoding writes
//! one complete frame at the start of a buffer and gives back its size. No
//! call allocates, and a failed encode leaves the buffer as it was.
//!
//! The encoders' and decoders' contracts are stated over the `*_frame` and
//! `parse_*` spec functions; `laws` proves round trip, length, truncation,
//! unknown-tag and capacity properties over them.

pub mod cursor;
pub mod error;
pub mod flags;
pub mod forwarded;
pub mod frame;
pub mod laws;
pub mod message;
pub mod messages;
pub mod return_code;
pub mod text;

pub use error::CodecError;
pub use flags::Flags;
pub use forwarded::{ForwardedMessage, MaybeForwardedMessage};
pub use message::Message;
pub use messages::{
    ConnAck, Connect, GwInfo, PingReq, PingResp, PubAck, Publish, RegAck, Register, SearchGw,
};
pub use return_code::{RejectedReason, ReturnCode};
pub use text::{ClientId, PublishData, TopicName, WirelessNodeId};
