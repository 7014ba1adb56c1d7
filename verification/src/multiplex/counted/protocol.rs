//! The messages that cross the IPC channels under subchannels whose senders are
//! counted.

use crate::mux::protocol::{ClientId, IpcSenderAndOrId, ResponseSender, SubChannelId};
use crate::mux::uuids::Uuid;
use vstd::prelude::*;

verus! {

/// A message from the sending to the receiving end of a multiplexing channel.
#[derive(Debug)]
pub enum MultiMessage {
    /// Registers a client with the sender for responses to it.
    Connect(ResponseSender, ClientId),
    /// Carries a message of a subchannel: its bytes, the IPC senders of the
    /// subsenders in it and the source it comes from.
    Data(SubChannelId, Vec<u8>, Vec<IpcSenderAndOrId>, Uuid),
    /// Announces a subchannel to the one-shot server of the given name.
    SubChannelId(SubChannelId, String),
    /// A subsender for subchannel `scid` is being sent from source `from` over
    /// subchannel `via`, whose IPC sender is `via_chan`.
    Sending { scid: SubChannelId, from: Uuid, via: SubChannelId, via_chan: IpcSenderAndOrId },
    /// A subsender for subchannel `scid`, sent from source `from` over
    /// subchannel `via`, has arrived at a source.
    Received { scid: SubChannelId, from: Uuid, via: SubChannelId, new_source: Uuid },
    /// All copies of a subsender at the given source have been dropped.
    Disconnect(SubChannelId, Uuid),
    /// Finds out whether the channel is alive, by being sent.
    Probe,
}

impl MultiMessage {
    /// The subchannel that the handling of the message concerns, if it can fail
    /// and concerns only one.
    pub fn about(&self) -> (about: Option<SubChannelId>)
        ensures
            about == (match *self {
                MultiMessage::Data(scid, _, _, _) => Some(scid),
                MultiMessage::Sending { scid, .. } => Some(scid),
                _ => None::<SubChannelId>,
            }),
    {
        match self {
            MultiMessage::Data(scid, _, _, _) => Some(*scid),
            MultiMessage::Sending { scid, .. } => Some(*scid),
            _ => None,
        }
    }
}

} // verus!
