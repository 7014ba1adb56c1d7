//! Multiplexing in which a receiver can be sent in a message too.

pub mod channel;
pub mod channel_identification;
pub mod counted;
pub mod error;
pub mod laws;
pub mod protocol;
pub mod receiver;
pub mod sender;
pub mod subchannel_lifecycle;
