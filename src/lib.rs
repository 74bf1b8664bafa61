//! Client side of a mining-pool protocol: the message codec and the
//! connection state machine.

pub mod binary;
pub mod buffer;
pub mod bytes_util;
pub mod client;
pub mod codec;
pub mod hybrid;
pub mod le;
pub mod message;
