//! Wrappers for transmitting IPC senders and IPC receivers over subchannels.
//!
//! A wrapped handle travels beside the message, as a shared memory region does:
//! the message gets an index and the operating system passes the handle.

use crate::mux::captures::{available, unavailable_text, unclaimed, Arrived, Captured};
use crate::mux::error::{MuxError, MuxErrorView};
use std::marker::PhantomData;
use vstd::prelude::*;
use vstd::string::*;

verus! {

/// The sending end of an IPC channel, whatever its message type, as a handle
/// that the program around the library has given it.
#[derive(Clone, Copy, PartialEq, Eq, Structural, Debug)]
pub struct OpaqueIpcSender {
    pub handle: u64,
}

/// The receiving end of an IPC channel, whatever its message type, as a handle
/// that the program around the library has given it.
#[derive(PartialEq, Eq, Structural, Debug)]
pub struct OpaqueIpcReceiver {
    pub handle: u64,
}

/// The senders captured while a message is encoded.
pub type CapturedSenders = Captured<OpaqueIpcSender>;

/// The receivers captured while a message is encoded.
pub type CapturedReceivers = Captured<OpaqueIpcReceiver>;

/// The senders that arrived with a message.
pub type ArrivedSenders = Arrived<OpaqueIpcSender>;

/// The receivers that arrived with a message.
pub type ArrivedReceivers = Arrived<OpaqueIpcReceiver>;

/// An IPC sender of messages of type `T` that can be sent over a subchannel.
pub struct IpcSender<T> {
    sender: OpaqueIpcSender,
    phantom: PhantomData<T>,
}

impl<T> View for IpcSender<T> {
    type V = OpaqueIpcSender;

    closed spec fn view(&self) -> OpaqueIpcSender {
        self.sender
    }
}

impl<T> Clone for IpcSender<T> {
    fn clone(&self) -> (same: IpcSender<T>)
        ensures
            same@ == self@,
    {
        IpcSender { sender: self.sender, phantom: PhantomData }
    }
}

impl<T> From<OpaqueIpcSender> for IpcSender<T> {
    fn from(sender: OpaqueIpcSender) -> (wrapped: IpcSender<T>)
        ensures
            wrapped@ == sender,
    {
        IpcSender { sender, phantom: PhantomData }
    }
}

impl<T> vstd::std_specs::convert::FromSpecImpl<OpaqueIpcSender> for IpcSender<T> {
    open spec fn obeys_from_spec() -> bool {
        false
    }

    open spec fn from_spec(sender: OpaqueIpcSender) -> IpcSender<T> {
        arbitrary()
    }
}

impl<T> IpcSender<T> {
    /// Recovers the underlying IPC sender.
    pub fn into_inner(self) -> (sender: OpaqueIpcSender)
        ensures
            sender == self@,
    {
        self.sender
    }

    /// Puts the sender beside the message that is being encoded. The message
    /// itself gets the returned index.
    pub fn serialize(&self, senders: &mut CapturedSenders) -> (index: usize)
        ensures
            index == old(senders)@.len(),
            final(senders)@ == old(senders)@.push(self@),
    {
        senders.capture(self.sender)
    }

    /// Takes the sender that an index in a message stands for.
    pub fn deserialize(index: usize, senders: &mut ArrivedSenders) -> (sender: Result<
        IpcSender<T>,
        String,
    >)
        ensures
            (match sender {
                Ok(sender) => {
                    &&& available(old(senders)@, index as int)
                    &&& old(senders)@[index as int] == Some(sender@)
                    &&& final(senders)@ == old(senders)@.update(index as int, None)
                },
                Err(reason) => {
                    &&& !available(old(senders)@, index as int)
                    &&& reason@ == unavailable_text(
                        "IpcSender"@,
                        index as nat,
                        old(senders)@.len(),
                        "senders"@,
                    )
                    &&& final(senders)@ == old(senders)@
                },
            }),
    {
        match senders.claim(index, "IpcSender", "senders") {
            Ok(sender) => Ok(IpcSender { sender, phantom: PhantomData }),
            Err(reason) => Err(reason),
        }
    }
}

/// An IPC receiver of messages of type `T` that can be sent over a subchannel,
/// once.
pub struct IpcReceiver<T> {
    receiver: Option<OpaqueIpcReceiver>,
    phantom: PhantomData<T>,
}

impl<T> View for IpcReceiver<T> {
    type V = Option<OpaqueIpcReceiver>;

    /// The receiver, until it is sent.
    closed spec fn view(&self) -> Option<OpaqueIpcReceiver> {
        self.receiver
    }
}

impl<T> From<OpaqueIpcReceiver> for IpcReceiver<T> {
    fn from(receiver: OpaqueIpcReceiver) -> (wrapped: IpcReceiver<T>)
        ensures
            wrapped@ == Some(receiver),
    {
        IpcReceiver { receiver: Some(receiver), phantom: PhantomData }
    }
}

impl<T> vstd::std_specs::convert::FromSpecImpl<OpaqueIpcReceiver> for IpcReceiver<T> {
    open spec fn obeys_from_spec() -> bool {
        false
    }

    open spec fn from_spec(receiver: OpaqueIpcReceiver) -> IpcReceiver<T> {
        arbitrary()
    }
}

impl<T> IpcReceiver<T> {
    /// Recovers the underlying IPC receiver, unless it has already been sent.
    pub fn into_inner(self) -> (receiver: Result<OpaqueIpcReceiver, MuxError>)
        ensures
            (match receiver {
                Ok(receiver) => self@ == Some(receiver),
                Err(e) => self@ is None && e@ == MuxErrorView::InternalError(
                    "IpcReceiver already serialized"@,
                ),
            }),
    {
        match self.receiver {
            Some(receiver) => Ok(receiver),
            None => Err(
                MuxError::InternalError(String::from_str("IpcReceiver already serialized")),
            ),
        }
    }

    /// Puts the receiver beside the message that is being encoded, unless it
    /// has already been sent. The message itself gets the returned index.
    pub fn serialize(&mut self, receivers: &mut CapturedReceivers) -> (index: Result<usize, String>)
        ensures
            final(self)@ is None,
            (match index {
                Ok(index) => {
                    &&& old(self)@ is Some
                    &&& index == old(receivers)@.len()
                    &&& final(receivers)@ == old(receivers)@.push(old(self)@->0)
                },
                Err(reason) => {
                    &&& old(self)@ is None
                    &&& reason@ == "IpcReceiver already serialized"@
                    &&& final(receivers)@ == old(receivers)@
                },
            }),
    {
        match self.receiver.take() {
            Some(receiver) => Ok(receivers.capture(receiver)),
            None => Err(String::from_str("IpcReceiver already serialized")),
        }
    }

    /// Takes the receiver that an index in a message stands for.
    pub fn deserialize(index: usize, receivers: &mut ArrivedReceivers) -> (receiver: Result<
        IpcReceiver<T>,
        String,
    >)
        ensures
            (match receiver {
                Ok(receiver) => {
                    &&& available(old(receivers)@, index as int)
                    &&& old(receivers)@[index as int] == receiver@
                    &&& final(receivers)@ == old(receivers)@.update(index as int, None)
                },
                Err(reason) => {
                    &&& !available(old(receivers)@, index as int)
                    &&& reason@ == unavailable_text(
                        "IpcReceiver"@,
                        index as nat,
                        old(receivers)@.len(),
                        "receivers"@,
                    )
                    &&& final(receivers)@ == old(receivers)@
                },
            }),
    {
        match receivers.claim(index, "IpcReceiver", "receivers") {
            Ok(receiver) => Ok(IpcReceiver { receiver: Some(receiver), phantom: PhantomData }),
            Err(reason) => Err(reason),
        }
    }
}

/// Forgets the senders captured for an earlier message.
pub fn clear_ipc_sender_serialization_context(senders: &mut CapturedSenders)
    ensures
        final(senders)@ == Seq::<OpaqueIpcSender>::empty(),
{
    senders.clear();
}

/// Forgets the receivers captured for an earlier message.
pub fn clear_ipc_receiver_serialization_context(receivers: &mut CapturedReceivers)
    ensures
        final(receivers)@ == Seq::<OpaqueIpcReceiver>::empty(),
{
    receivers.clear();
}

/// Takes the senders to be sent along with a message.
pub fn take_ipc_senders_for_send(senders: &mut CapturedSenders) -> (taken: Vec<OpaqueIpcSender>)
    ensures
        taken@ == old(senders)@,
        final(senders)@ == Seq::<OpaqueIpcSender>::empty(),
{
    senders.take()
}

/// Takes the receivers to be sent along with a message.
pub fn take_ipc_receivers_for_send(receivers: &mut CapturedReceivers) -> (taken: Vec<
    OpaqueIpcReceiver,
>)
    ensures
        taken@ == old(receivers)@,
        final(receivers)@ == Seq::<OpaqueIpcReceiver>::empty(),
{
    receivers.take()
}

/// Sets the senders that arrived with a message.
pub fn set_ipc_senders_for_recv(senders: &mut ArrivedSenders, arrived: Vec<OpaqueIpcSender>)
    ensures
        final(senders)@ == unclaimed(arrived@),
{
    senders.set(arrived);
}

/// Sets the receivers that arrived with a message.
pub fn set_ipc_receivers_for_recv(
    receivers: &mut ArrivedReceivers,
    arrived: Vec<OpaqueIpcReceiver>,
)
    ensures
        final(receivers)@ == unclaimed(arrived@),
{
    receivers.set(arrived);
}

/// Forgets the senders that arrived with an earlier message.
pub fn clear_ipc_sender_deserialization_context(senders: &mut ArrivedSenders)
    ensures
        final(senders)@ == Seq::<Option<OpaqueIpcSender>>::empty(),
{
    senders.clear();
}

/// Forgets the receivers that arrived with an earlier message.
pub fn clear_ipc_receiver_deserialization_context(receivers: &mut ArrivedReceivers)
    ensures
        final(receivers)@ == Seq::<Option<OpaqueIpcReceiver>>::empty(),
{
    receivers.clear();
}

} // verus!
