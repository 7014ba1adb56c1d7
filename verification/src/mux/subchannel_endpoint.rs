//! The ends of subchannels, by what they carry: messages of one type, messages
//! of a type that is not known here, and byte strings.

use crate::mux::demux::{releases, Effect, ResolvedMessage};
use crate::mux::encoding::{
    begins_with_encoding, decode_bytes, encode_bytes, encoded, serialization_error, truncated,
};
use crate::mux::error::MuxError;
use crate::mux::protocol::{MultiMessage, SubChannelId, ORIGIN};
use crate::mux::receiver::{DeserializationContext, SubChannelReceiver};
use crate::mux::sender::{
    notifies, sources_after, MultiSender, MultiSenderId, Outgoing, ResponseEvent, SendPlan,
    SerializationContext, SourceTable, SubChannelDisconnector, SubChannelSender,
};
use crate::mux::uuids::is_random_uuid;
use std::marker::PhantomData;
use vstd::prelude::*;

verus! {

/// The sending end of a subchannel for messages of type `T`.
pub struct SubSender<T> {
    pub sub_channel_sender: SubChannelSender,
    pub phantom: PhantomData<T>,
}

/// The plan for sending a message: it goes to the subchannel of the sender with
/// the given bytes, the notifications go out for the subsenders in it, and
/// everything that was kept beside it goes along.
pub open spec fn sends(
    plan: SendPlan,
    sender: SubChannelSender,
    payload: Vec<u8>,
    before: SerializationContext,
    sources: Map<u64, Set<u64>>,
) -> bool {
    &&& plan.data.to == sender.ipc_sender
    &&& match plan.data.message {
        MultiMessage::Data(scid, bytes, senders, attachments) => {
            &&& scid == sender.sub_channel_id
            &&& bytes == payload
            &&& senders@.len() == before.senders@.len()
            &&& plan.notifications@.len() == senders@.len()
            &&& forall|i: int|
                #![trigger senders@[i]]
                0 <= i < senders@.len() ==> notifies(
                    plan.notifications@[i],
                    senders@[i],
                    sender,
                    sources,
                    before.senders@,
                    i,
                )
            &&& attachments.shmems@ == before.regions@
            &&& attachments.ipc_senders@ == before.ipc_senders@
            &&& attachments.ipc_receivers@ == before.ipc_receivers@
        },
        _ => false,
    }
}

impl<T> SubSender<T> {
    /// The sending end for messages of type `T` of a subchannel.
    pub fn from_sender(sub_channel_sender: SubChannelSender) -> (sender: Self)
        ensures
            sender.sub_channel_sender == sub_channel_sender,
    {
        SubSender { sub_channel_sender, phantom: PhantomData }
    }

    /// The sending end of a new subchannel over the channel to a one-shot
    /// server, and the message that announces the subchannel there.
    pub fn connect(channel: &MultiSender, id: MultiSenderId, name: String) -> (connected: (
        Self,
        Outgoing,
    ))
        ensures
            is_random_uuid(connected.0.sub_channel_sender.sub_channel_id.0),
            *connected.0.sub_channel_sender.ipc_sender == channel@.ipc_sender,
            connected.0.sub_channel_sender.ipc_sender_uuid == channel@.uuid,
            connected.0.sub_channel_sender.sender_id == channel@.sender_id,
            connected.0.sub_channel_sender.multi_sender == id,
            *connected.0.sub_channel_sender.disconnector == (SubChannelDisconnector {
                sub_channel_id: connected.0.sub_channel_sender.sub_channel_id,
                ipc_sender: connected.0.sub_channel_sender.ipc_sender,
                source: ORIGIN,
                multi_sender: id,
            }),
            *connected.1.to == channel@.ipc_sender,
            connected.1.message == MultiMessage::SubChannelId(
                connected.0.sub_channel_sender.sub_channel_id,
                name,
            ),
    {
        let sender = SubChannelSender::new(channel, id);
        let announcement = channel.notify_sub_channel(sender.sub_channel_id(), name);
        (SubSender::from_sender(sender), announcement)
    }

    /// What it takes to send a message, which has been encoded after getting
    /// ready with [`SubChannelSender::prepare`].
    pub fn send(
        &self,
        payload: Vec<u8>,
        context: &mut SerializationContext,
        sources: &mut SourceTable,
    ) -> (plan: SendPlan)
        requires
            old(sources).wf(),
        ensures
            final(sources).wf(),
            final(sources).exhausted() == old(sources).exhausted(),
            final(sources)@ == sources_after(
                old(sources)@,
                self.sub_channel_sender,
                old(context).senders@,
            ),
            final(context).is_clear(),
            sends(plan, self.sub_channel_sender, payload, *old(context), old(sources)@),
    {
        self.sub_channel_sender.send(payload, context, sources)
    }

    /// The same end with the message type forgotten.
    pub fn to_opaque(self) -> (sender: OpaqueSubSender)
        ensures
            sender.sub_channel_sender == self.sub_channel_sender,
    {
        OpaqueSubSender { sub_channel_sender: self.sub_channel_sender }
    }
}

impl<T> Clone for SubSender<T> {
    fn clone(&self) -> (same: Self)
        ensures
            same.sub_channel_sender == self.sub_channel_sender,
    {
        SubSender { sub_channel_sender: self.sub_channel_sender.clone(), phantom: PhantomData }
    }
}

/// The sending end of a subchannel whose message type is not known here.
pub struct OpaqueSubSender {
    pub sub_channel_sender: SubChannelSender,
}

impl OpaqueSubSender {
    /// The same end for messages of type `T`.
    pub fn to<T>(self) -> (sender: SubSender<T>)
        ensures
            sender.sub_channel_sender == self.sub_channel_sender,
    {
        SubSender::from_sender(self.sub_channel_sender)
    }

    /// The same end for byte strings.
    pub fn to_bytes(self) -> (sender: BytesSubSender)
        ensures
            sender.sub_channel_sender == self.sub_channel_sender,
    {
        BytesSubSender { sub_channel_sender: self.sub_channel_sender }
    }
}

/// The sending end of a subchannel for byte strings.
pub struct BytesSubSender {
    pub sub_channel_sender: SubChannelSender,
}

impl BytesSubSender {
    /// The sending end for byte strings of a subchannel.
    pub fn from_sender(sub_channel_sender: SubChannelSender) -> (sender: Self)
        ensures
            sender.sub_channel_sender == sub_channel_sender,
    {
        BytesSubSender { sub_channel_sender }
    }

    /// What it takes to send a byte string, given what was read from the
    /// response channel. It is refused if the receiver has disconnected.
    pub fn send(
        &self,
        data: &[u8],
        channel: &mut MultiSender,
        events: &Vec<ResponseEvent>,
        context: &mut SerializationContext,
        sources: &mut SourceTable,
    ) -> (plan: Result<SendPlan, MuxError>)
        requires
            old(sources).wf(),
        ensures
            final(sources).wf(),
            final(sources).exhausted() == old(sources).exhausted(),
            final(sources)@ == old(sources)@,
            final(channel)@ == old(channel)@.drained(events@),
            (match plan {
                Ok(plan) => {
                    &&& final(channel)@.receiver_connected(self.sub_channel_sender.sub_channel_id)
                    &&& plan.notifications@.len() == 0
                    &&& plan.data.to == self.sub_channel_sender.ipc_sender
                    &&& plan.data.message matches MultiMessage::Data(
                        scid,
                        payload,
                        senders,
                        attachments,
                    )
                    &&& scid == self.sub_channel_sender.sub_channel_id
                    &&& payload@ == encoded(data@)
                    &&& senders@.len() == 0
                    &&& attachments.shmems@.len() == 0
                    &&& attachments.ipc_senders@.len() == 0
                    &&& attachments.ipc_receivers@.len() == 0
                },
                Err(e) => {
                    &&& !final(channel)@.receiver_connected(self.sub_channel_sender.sub_channel_id)
                    &&& e == MuxError::Disconnected
                },
            }),
    {
        match self.sub_channel_sender.prepare(channel, events, context) {
            Ok(()) => {},
            Err(e) => {
                return Err(e);
            },
        }
        let mut copy: Vec<u8> = Vec::new();
        copy.extend_from_slice(data);
        match encode_bytes(&copy) {
            Ok(payload) => {
                let ghost prepared = *context;
                assert(prepared.senders@ =~= Seq::empty());
                Ok(self.sub_channel_sender.send(payload, context, sources))
            },
            Err(e) => Err(e),
        }
    }

    /// The same end with the message type forgotten.
    pub fn to_opaque(self) -> (sender: OpaqueSubSender)
        ensures
            sender.sub_channel_sender == self.sub_channel_sender,
    {
        OpaqueSubSender { sub_channel_sender: self.sub_channel_sender }
    }
}

impl Clone for BytesSubSender {
    fn clone(&self) -> (same: Self)
        ensures
            same.sub_channel_sender == self.sub_channel_sender,
    {
        BytesSubSender { sub_channel_sender: self.sub_channel_sender.clone() }
    }
}

/// The receiving end of a subchannel for messages of type `T`.
pub struct SubReceiver<T> {
    pub sub_channel_receiver: SubChannelReceiver,
    pub phantom: PhantomData<T>,
}

impl<T> SubReceiver<T> {
    /// The receiving end for messages of type `T` of a subchannel.
    pub fn from_receiver(sub_channel_receiver: SubChannelReceiver) -> (receiver: Self)
        ensures
            receiver.sub_channel_receiver == sub_channel_receiver,
    {
        SubReceiver { sub_channel_receiver, phantom: PhantomData }
    }

    /// The same end with the message type forgotten.
    pub fn to_opaque(self) -> (receiver: OpaqueSubReceiver)
        ensures
            receiver.sub_channel_receiver == self.sub_channel_receiver,
    {
        OpaqueSubReceiver { sub_channel_receiver: self.sub_channel_receiver }
    }
}

/// The receiving end of a subchannel whose message type is not known here.
pub struct OpaqueSubReceiver {
    pub sub_channel_receiver: SubChannelReceiver,
}

impl OpaqueSubReceiver {
    /// The same end for messages of type `T`.
    pub fn to<T>(self) -> (receiver: SubReceiver<T>)
        ensures
            receiver.sub_channel_receiver == self.sub_channel_receiver,
    {
        SubReceiver::from_receiver(self.sub_channel_receiver)
    }

    /// The same end for byte strings.
    pub fn to_bytes(self) -> (receiver: BytesSubReceiver)
        ensures
            receiver.sub_channel_receiver == self.sub_channel_receiver,
    {
        BytesSubReceiver { sub_channel_receiver: self.sub_channel_receiver }
    }
}

/// The receiving end of a subchannel for byte strings.
pub struct BytesSubReceiver {
    pub sub_channel_receiver: SubChannelReceiver,
}

impl BytesSubReceiver {
    /// The receiving end for byte strings of a subchannel.
    pub fn from_receiver(sub_channel_receiver: SubChannelReceiver) -> (receiver: Self)
        ensures
            receiver.sub_channel_receiver == sub_channel_receiver,
    {
        BytesSubReceiver { sub_channel_receiver }
    }

    /// Decodes a message that has been received. What came beside it is let go
    /// of.
    pub fn decode(message: ResolvedMessage, context: &mut DeserializationContext) -> (decoded: (
        Result<Vec<u8>, MuxError>,
        Vec<Effect>,
    ))
        ensures
            final(context).is_clear(),
            decoded.1@ == releases(old(context).senders@ + message.senders@),
            forall|bytes: Seq<u8>| #[trigger]
                begins_with_encoding(message.payload@, bytes) ==> decoded.0 is Ok
                    && decoded.0->Ok_0@ == bytes,
            truncated(message.payload@) ==> decoded.0 is Err,
            decoded.0 is Err ==> decoded.0->Err_0@ == serialization_error(),
    {
        let ghost former = context.senders@;
        let (payload, effects) = message.begin_deserialize(context);
        let decoded = decode_bytes(&payload);
        let mut effects = effects;
        let mut more: Vec<Effect> = ResolvedMessage::end_deserialize(context);
        effects.append(&mut more);
        assert(effects@ =~= releases(former + message.senders@));
        (decoded, effects)
    }

    /// The same end with the message type forgotten.
    pub fn to_opaque(self) -> (receiver: OpaqueSubReceiver)
        ensures
            receiver.sub_channel_receiver == self.sub_channel_receiver,
    {
        OpaqueSubReceiver { sub_channel_receiver: self.sub_channel_receiver }
    }
}

} // verus!
