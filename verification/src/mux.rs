//! Subchannels multiplexed over IPC channels.

pub mod captures;
pub mod channel;
pub mod connecting;
pub mod demux;
pub mod encoding;
pub mod error;
pub mod handling;
pub mod history;
pub mod ipc_channel_sub_sender;
pub mod ipc_handles;
pub mod laws;
pub mod mailbox;
pub mod polling;
pub mod protocol;
pub mod receiver;
pub mod receiving;
pub mod round_trips;
pub mod sender;
pub mod sender_id;
pub mod sending;
pub mod shared_memory;
pub mod sorting;
pub mod subchannel_endpoint;
pub mod subchannel_lifecycle;
pub mod subchannel_router;
pub mod text;
pub mod uuids;
