//! The messages that cross the IPC channels under subchannels whose receivers
//! can be sent.

use crate::mux::protocol::{IpcSenderAndOrId, ResponseSender, SubChannelId};
use vstd::prelude::*;

verus! {

/// Identifies a client of one receiving end. The first client is number one.
pub type ClientId = u64;

/// The receiving end of an IPC channel, as a handle that the program around the
/// library has given it.
#[derive(PartialEq, Eq, Structural, Debug)]
pub struct ForwardReceiver {
    pub handle: u64,
}

/// A message from the sending to the receiving end of a multiplexing channel.
#[derive(Debug)]
pub enum MultiMessage {
    /// Asks for a client id, with the sender for the answer.
    Connect(ResponseSender),
    /// Carries a message of a subchannel: its bytes, and the IPC senders of the
    /// subsenders and the IPC receivers of the subreceivers in it.
    Data(SubChannelId, Vec<u8>, Vec<IpcSenderAndOrId>, Vec<IpcReceiverAndOrId>),
    /// Announces a subchannel to the one-shot server of the given name.
    SubChannelId(SubChannelId, String),
    /// Nothing more will be sent over a subchannel.
    Disconnect(SubChannelId),
}

/// An IPC receiver: itself, with a UUID that identifies it, or just the UUID if
/// it has already been sent.
#[derive(Debug)]
pub enum IpcReceiverAndOrId {
    IpcReceiver(ForwardReceiver, String),
    IpcReceiverId(String),
}

/// The mathematical counterpart of [`IpcReceiverAndOrId`].
pub enum IpcReceiverAndOrIdView {
    IpcReceiver(ForwardReceiver, Seq<char>),
    IpcReceiverId(Seq<char>),
}

impl View for IpcReceiverAndOrId {
    type V = IpcReceiverAndOrIdView;

    open spec fn view(&self) -> IpcReceiverAndOrIdView {
        match *self {
            IpcReceiverAndOrId::IpcReceiver(receiver, id) => IpcReceiverAndOrIdView::IpcReceiver(
                receiver,
                id@,
            ),
            IpcReceiverAndOrId::IpcReceiverId(id) => IpcReceiverAndOrIdView::IpcReceiverId(id@),
        }
    }
}

/// A message from the receiving back to the sending end of a multiplexing
/// channel.
#[derive(Clone, Copy, PartialEq, Eq, Structural, Debug)]
pub enum MultiResponse {
    /// The id of a client that has connected.
    ClientId(ClientId),
    /// The id of a subchannel.
    SubChannel(SubChannelId),
}

/// What a message holds of a subreceiver that is sent in it.
#[derive(Debug)]
pub struct SubChannelReceiverIds {
    pub sub_channel_id: SubChannelId,
    pub ipc_receiver_uuid: String,
}

} // verus!
