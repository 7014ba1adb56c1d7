//! Multiplexing in which the receiver of a subchannel keeps track of its
//! senders, by messages and by probing, and the senders learn when their
//! receiver is gone.

pub mod channel;
pub mod error;
pub mod laws;
pub mod protocol;
pub mod receiver;
pub mod sender;
pub mod sending;
