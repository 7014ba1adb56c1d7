//! The messages that cross the IPC channels under subchannels.

use crate::mux::ipc_handles::{OpaqueIpcReceiver, OpaqueIpcSender};
use crate::mux::sender_id::ForwardSender;
use crate::mux::uuids::{hyphenated, is_random_uuid, new_uuid, outside_parse_uuid, parsed_uuid, uuid_text, Uuid};
use ipc_channel::ipc::IpcSharedMemory;
use std::sync::Arc;
use vstd::prelude::*;

verus! {

/// Identifies a sending process, or one connection of it.
#[derive(Clone, Copy, PartialEq, Eq, Structural, Debug, Hash)]
pub struct ClientId(pub Uuid);

/// Identifies a subchannel.
#[derive(Clone, Copy, PartialEq, Eq, Structural, Debug, Hash)]
pub struct SubChannelId(pub Uuid);

/// The id of no subchannel, which stands for "not via any subchannel".
pub const EMPTY_SUBCHANNEL_ID: Uuid = 0x11111111_10b1_428f_9447_cb680e5fe0c8;

/// The source at which a subchannel was created.
pub const ORIGIN: Uuid = 0x00000000_10b1_428f_9447_cb680e5fe0c8;

impl ClientId {
    /// A random id.
    pub fn new() -> (id: ClientId)
        ensures
            is_random_uuid(id.0),
    {
        ClientId(new_uuid())
    }
}

impl Default for ClientId {
    fn default() -> (id: ClientId)
        ensures
            is_random_uuid(id.0),
    {
        ClientId::new()
    }
}

impl SubChannelId {
    /// A random id.
    pub fn new() -> (id: SubChannelId)
        ensures
            is_random_uuid(id.0),
    {
        SubChannelId(new_uuid())
    }

    /// The id as text.
    pub fn to_string(&self) -> (text: String)
        ensures
            text@ == hyphenated(self.0),
    {
        uuid_text(self.0)
    }

    /// The text by which a message carries the id.
    pub fn serialize(&self) -> (text: String)
        ensures
            text@ == hyphenated(self.0),
            (parsed_uuid(text@) == Ok::<Uuid, Seq<char>>(self.0)),
    {
        uuid_text(self.0)
    }

    /// Reads an id that a message carries as text.
    pub fn deserialize(content: &str) -> (id: Result<SubChannelId, String>)
        ensures
            (match id {
                Ok(id) => parsed_uuid(content@) matches Ok(named) && named == id.0,
                Err(e) => parsed_uuid(content@) matches Err(reason) && e@ == reason,
            }),
    {
        match outside_parse_uuid(content) {
            Ok(uuid) => Ok(SubChannelId(uuid)),
            Err(e) => Err(e),
        }
    }
}

impl Default for SubChannelId {
    fn default() -> (id: SubChannelId)
        ensures
            is_random_uuid(id.0),
    {
        SubChannelId::new()
    }
}

/// What a message holds of a subsender that is sent in it.
#[derive(Debug)]
pub struct SubChannelSenderIds {
    pub sub_channel_id: SubChannelId,
    pub ipc_sender_uuid: String,
}

impl SubChannelSenderIds {
    pub fn new(sub_channel_id: SubChannelId, ipc_sender_uuid: String) -> (ids: Self)
        ensures
            ids == (SubChannelSenderIds { sub_channel_id, ipc_sender_uuid }),
    {
        SubChannelSenderIds { sub_channel_id, ipc_sender_uuid }
    }

    pub fn sub_channel_id(&self) -> (id: SubChannelId)
        ensures
            id == self.sub_channel_id,
    {
        self.sub_channel_id
    }
}

/// The sending end of a response channel, as a handle that the program around
/// the library has given it.
#[derive(Clone, Copy, PartialEq, Eq, Structural, Debug)]
pub struct ResponseSender {
    pub handle: u64,
}

/// The receiving end of a response channel, as a handle that the program around
/// the library has given it.
#[derive(Clone, Copy, PartialEq, Eq, Structural, Debug)]
pub struct ResponseReceiver {
    pub handle: u64,
}

/// What is sent beside the bytes of a message.
#[derive(Debug)]
pub struct Attachments {
    pub shmems: Vec<IpcSharedMemory>,
    pub ipc_senders: Vec<OpaqueIpcSender>,
    pub ipc_receivers: Vec<OpaqueIpcReceiver>,
}

/// A message from the sending to the receiving end of a multiplexing channel.
#[derive(Debug)]
pub enum MultiMessage {
    /// Registers a client with the sender for responses to it.
    Connect(ResponseSender, ClientId),
    /// Carries a message of a subchannel: its bytes, the subsenders in it and
    /// what is sent beside it.
    Data(SubChannelId, Vec<u8>, Vec<(SubChannelId, IpcSenderAndOrId)>, Attachments),
    /// Announces a subchannel to the one-shot server of the given name.
    SubChannelId(SubChannelId, String),
    /// A subsender for subchannel `scid` is being sent over subchannel `via`,
    /// whose IPC sender is `via_chan`.
    Sending { scid: SubChannelId, via: SubChannelId, via_chan: IpcSenderAndOrId },
    /// A subsender for subchannel `scid` is being sent over a raw IPC channel;
    /// `keepalive` is disconnected once its recipient is gone.
    SendingViaIpcChannel { scid: SubChannelId, keepalive: OpaqueIpcReceiver },
    /// A subsender for subchannel `scid`, sent over subchannel `via`, was lost.
    ReceiveFailed { scid: SubChannelId, via: SubChannelId },
    /// A subsender for subchannel `scid`, sent over subchannel `via`, has
    /// arrived at a source.
    Received { scid: SubChannelId, via: SubChannelId, new_source: Uuid },
    /// All copies of a subsender at the given source have been dropped.
    Disconnect(SubChannelId, Uuid),
}

/// An IPC sender: itself, the first time, with a UUID that identifies it, and
/// just the UUID later.
#[derive(Debug)]
pub enum IpcSenderAndOrId {
    IpcSender(Arc<ForwardSender>, String),
    IpcSenderId(String),
}

/// The mathematical counterpart of [`IpcSenderAndOrId`].
pub enum IpcSenderAndOrIdView {
    IpcSender(u64, Seq<char>),
    IpcSenderId(Seq<char>),
}

impl View for IpcSenderAndOrId {
    type V = IpcSenderAndOrIdView;

    open spec fn view(&self) -> IpcSenderAndOrIdView {
        match *self {
            IpcSenderAndOrId::IpcSender(sender, id) => IpcSenderAndOrIdView::IpcSender(
                sender.handle,
                id@,
            ),
            IpcSenderAndOrId::IpcSenderId(id) => IpcSenderAndOrIdView::IpcSenderId(id@),
        }
    }
}

/// A message from the receiving back to the sending end of a multiplexing
/// channel.
#[derive(Clone, Copy, PartialEq, Eq, Structural, Debug)]
pub enum MultiResponse {
    /// The receiver of the given subchannel has disconnected.
    SubReceiverDisconnected(SubChannelId),
}

} // verus!
