//! The sending side of multiplexing channels whose receivers can be sent.

use crate::multiplex::error::{MultiplexError, MultiplexErrorView};
use crate::multiplex::protocol::{
    ClientId, ForwardReceiver, IpcReceiverAndOrId, IpcReceiverAndOrIdView, MultiMessage,
    MultiResponse,
};
use crate::multiplex::receiver::ReceptionContext;
use crate::mux::error::IpcError;
use crate::mux::protocol::{IpcSenderAndOrId, ResponseSender, SubChannelId, SubChannelSenderIds};
use crate::mux::sender::{
    ipc_sender_and_or_uuid, name_given, names_sender, sources_with, SourceId, SourceTable,
};
use crate::mux::sender_id::ForwardSender;
use crate::mux::text::join;
use crate::mux::uuids::{
    hyphenated, is_random_uuid, new_uuid, parse_uuid, parsed_uuid, uuid_text, Uuid,
};
use std::sync::Arc;
use vstd::prelude::*;
use vstd::string::*;

verus! {

/// A message to be sent over an IPC channel.
#[derive(Debug)]
pub struct Outgoing {
    pub to: Arc<ForwardSender>,
    pub message: MultiMessage,
}

/// What is kept beside a message that is being encoded.
pub struct TransmissionContext {
    /// The IPC senders of the subsenders in the message, with their UUIDs.
    pub senders: Vec<(Uuid, Arc<ForwardSender>)>,
    /// The IPC receivers of the subreceivers in this message and those before
    /// it, with their UUIDs. One that has been sent is no longer here.
    pub receivers: Vec<(Uuid, Option<ForwardReceiver>)>,
}

impl TransmissionContext {
    /// Nothing is kept.
    pub fn new() -> (context: TransmissionContext)
        ensures
            context.senders@.len() == 0,
            context.receivers@.len() == 0,
    {
        TransmissionContext { senders: Vec::new(), receivers: Vec::new() }
    }
}

/// The sending end of a multiplexed channel.
pub struct MultiSender {
    pub client_id: ClientId,
    pub ipc_sender: Arc<ForwardSender>,
    pub uuid: Uuid,
    pub sender_id: SourceId,
}

impl MultiSender {
    /// The sending end under which a client is known by the given id, with a
    /// new UUID and a source of its own.
    pub fn new(client_id: ClientId, ipc_sender: Arc<ForwardSender>, sources: &mut SourceTable) -> (sender:
        MultiSender)
        requires
            old(sources).wf(),
            !old(sources).exhausted(),
        ensures
            final(sources).wf(),
            !old(sources)@.contains_key(sender.sender_id),
            final(sources)@ == old(sources)@.insert(sender.sender_id, Set::empty()),
            sender.client_id == client_id,
            sender.ipc_sender == ipc_sender,
            is_random_uuid(sender.uuid),
    {
        let sender_id: SourceId = sources.open();
        MultiSender { client_id, ipc_sender, uuid: new_uuid(), sender_id }
    }

    /// The message that asks for a client id.
    pub fn connect_message(sender: &Arc<ForwardSender>, response_sender: ResponseSender) -> (outgoing:
        Outgoing)
        ensures
            outgoing == (Outgoing {
                to: *sender,
                message: MultiMessage::Connect(response_sender),
            }),
    {
        Outgoing { to: Arc::clone(sender), message: MultiMessage::Connect(response_sender) }
    }

    /// The sending end of an IPC channel to a one-shot server, given what came
    /// of asking for a client id.
    pub fn connect(
        sender: Arc<ForwardSender>,
        response: Result<MultiResponse, IpcError>,
        sources: &mut SourceTable,
    ) -> (connected: Result<MultiSender, MultiplexError>)
        requires
            old(sources).wf(),
            !old(sources).exhausted(),
        ensures
            final(sources).wf(),
            (match connected {
                Ok(connected) => {
                    &&& response matches Ok(MultiResponse::ClientId(client_id))
                    &&& connected.client_id == client_id
                    &&& connected.ipc_sender == sender
                    &&& is_random_uuid(connected.uuid)
                    &&& !old(sources)@.contains_key(connected.sender_id)
                    &&& final(sources)@ == old(sources)@.insert(connected.sender_id, Set::empty())
                },
                Err(e) => {
                    &&& final(sources)@ == old(sources)@
                    &&& match response {
                        Ok(MultiResponse::ClientId(_)) => false,
                        Ok(MultiResponse::SubChannel(scid)) => e@
                            == MultiplexErrorView::InternalError(
                            "unexpected multi response SubChannel(SubChannelId("@ + hyphenated(
                                scid.0,
                            ) + "))"@,
                        ),
                        Err(reason) => e == MultiplexError::IpcError(reason),
                    }
                },
            }),
    {
        match response {
            Ok(MultiResponse::ClientId(client_id)) => Ok(
                MultiSender::new(client_id, sender, sources),
            ),
            Ok(MultiResponse::SubChannel(scid)) => {
                let id_text = uuid_text(scid.0);
                let text = join(
                    "unexpected multi response SubChannel(SubChannelId(",
                    id_text.as_str(),
                );
                Err(MultiplexError::InternalError(join(text.as_str(), "))")))
            },
            Err(e) => Err(MultiplexError::from(e)),
        }
    }

    /// The message that announces a subchannel to a one-shot server.
    pub fn notify_sub_channel(&self, sub_channel_id: SubChannelId, name: String) -> (outgoing:
        Outgoing)
        ensures
            outgoing == (Outgoing {
                to: self.ipc_sender,
                message: MultiMessage::SubChannelId(sub_channel_id, name),
            }),
    {
        Outgoing {
            to: Arc::clone(&self.ipc_sender),
            message: MultiMessage::SubChannelId(sub_channel_id, name),
        }
    }
}

/// The sources after one of them has sent several IPC senders.
pub open spec fn sources_after(
    sources: Map<SourceId, Set<u64>>,
    source: SourceId,
    senders: Seq<(Uuid, Arc<ForwardSender>)>,
) -> Map<SourceId, Set<u64>>
    decreases senders.len(),
{
    if senders.len() == 0 {
        sources
    } else {
        sources_with(
            sources_after(sources, source, senders.drop_last()),
            source,
            senders.last().1.handle,
        )
    }
}

/// How a message names the given IPC senders, given which of them have been sent
/// before: those are named by just their UUIDs, and all others by themselves
/// too.
pub fn names_given(senders: &Vec<(Uuid, Arc<ForwardSender>)>, sent: &Vec<bool>) -> (named: Vec<
    IpcSenderAndOrId,
>)
    requires
        sent@.len() == senders@.len(),
    ensures
        named@.len() == senders@.len(),
        forall|i: int|
            #![trigger named@[i]]
            0 <= i < named@.len() ==> named@[i]@ == name_given(
                sent@[i],
                senders@[i].1.handle,
                senders@[i].0,
            ),
{
    let mut named: Vec<IpcSenderAndOrId> = Vec::new();
    let mut i: usize = 0;
    while i < senders.len()
        invariant
            i <= senders.len(),
            sent@.len() == senders@.len(),
            named@.len() == i,
            forall|j: int|
                #![trigger named@[j]]
                0 <= j < i ==> named@[j]@ == name_given(
                    sent@[j],
                    senders@[j].1.handle,
                    senders@[j].0,
                ),
        decreases senders.len() - i,
    {
        named.push(ipc_sender_and_or_uuid(sent[i], &senders[i].1, senders[i].0));
        i += 1;
    }
    named
}

/// How a message names the IPC senders of the subsenders in it.
pub(crate) fn name_senders(
    source: SourceId,
    senders: &Vec<(Uuid, Arc<ForwardSender>)>,
    sources: &mut SourceTable,
) -> (named: Vec<IpcSenderAndOrId>)
    requires
        old(sources).wf(),
    ensures
        final(sources).wf(),
        final(sources).exhausted() == old(sources).exhausted(),
        final(sources)@ == sources_after(old(sources)@, source, senders@),
        named@.len() == senders@.len(),
        forall|i: int|
            #![trigger named@[i]]
            0 <= i < named@.len() ==> names_sender(
                named@[i]@,
                senders@[i].1.handle,
                senders@[i].0,
                sources_after(old(sources)@, source, senders@.take(i)),
                source,
            ),
{
    let mut sent: Vec<bool> = Vec::new();
    assert(senders@.take(0) =~= Seq::empty());
    let mut i: usize = 0;
    while i < senders.len()
        invariant
            i <= senders.len(),
            sources.wf(),
            sources.exhausted() == old(sources).exhausted(),
            sources@ == sources_after(old(sources)@, source, senders@.take(i as int)),
            sent@.len() == i,
            forall|j: int|
                #![trigger sent@[j]]
                0 <= j < i && sent@[j] ==> {
                    let before = sources_after(old(sources)@, source, senders@.take(j));
                    before.contains_key(source) && before[source].contains(senders@[j].1.handle)
                },
        decreases senders.len() - i,
    {
        let already_sent: bool = sources.insert(source, &senders[i].1);
        sent.push(already_sent);
        proof {
            let now = senders@.take(i + 1);
            assert(now.drop_last() =~= senders@.take(i as int));
            assert(now.last() == senders@[i as int]);
        }
        i += 1;
    }
    assert(senders@.take(senders@.len() as int) =~= senders@);
    names_given(senders, &sent)
}

/// How a message names an IPC receiver: by itself and its UUID, or by just the
/// UUID if it has been sent.
pub open spec fn names_receiver(kept: (Uuid, Option<ForwardReceiver>)) -> IpcReceiverAndOrIdView {
    match kept.1 {
        Some(receiver) => IpcReceiverAndOrIdView::IpcReceiver(receiver, hyphenated(kept.0)),
        None => IpcReceiverAndOrIdView::IpcReceiverId(hyphenated(kept.0)),
    }
}

/// The sending end of a subchannel.
#[derive(Debug)]
pub struct SubChannelSender {
    pub sub_channel_id: SubChannelId,
    pub ipc_sender: Arc<ForwardSender>,
    pub ipc_sender_uuid: Uuid,
    pub sender_id: SourceId,
}

impl Clone for SubChannelSender {
    fn clone(&self) -> (same: SubChannelSender)
        ensures
            same == *self,
    {
        SubChannelSender {
            sub_channel_id: self.sub_channel_id,
            ipc_sender: Arc::clone(&self.ipc_sender),
            ipc_sender_uuid: self.ipc_sender_uuid,
            sender_id: self.sender_id,
        }
    }
}

impl SubChannelSender {
    /// The sending end of a new subchannel of the given channel.
    pub fn new(channel: &MultiSender) -> (sender: SubChannelSender)
        ensures
            is_random_uuid(sender.sub_channel_id.0),
            sender.ipc_sender == channel.ipc_sender,
            sender.ipc_sender_uuid == channel.uuid,
            sender.sender_id == channel.sender_id,
    {
        SubChannelSender {
            sub_channel_id: SubChannelId::new(),
            ipc_sender: Arc::clone(&channel.ipc_sender),
            ipc_sender_uuid: channel.uuid,
            sender_id: channel.sender_id,
        }
    }

    /// The id of the subchannel.
    pub fn sub_channel_id(&self) -> (id: SubChannelId)
        ensures
            id == self.sub_channel_id,
    {
        self.sub_channel_id
    }

    /// Puts this sender in the message that is being encoded. What the message
    /// itself gets is returned.
    pub fn serialize(&self, context: &mut TransmissionContext) -> (ids: SubChannelSenderIds)
        ensures
            final(context).senders@ == old(context).senders@.push(
                (self.ipc_sender_uuid, self.ipc_sender),
            ),
            final(context).receivers == old(context).receivers,
            ids.sub_channel_id == self.sub_channel_id,
            ids.ipc_sender_uuid@ == hyphenated(self.ipc_sender_uuid),
    {
        context.senders.push((self.ipc_sender_uuid, Arc::clone(&self.ipc_sender)));
        SubChannelSenderIds::new(self.sub_channel_id, uuid_text(self.ipc_sender_uuid))
    }

    /// Gets ready to encode a message.
    pub fn prepare(context: &mut TransmissionContext)
        ensures
            final(context).senders@.len() == 0,
            final(context).receivers == old(context).receivers,
    {
        context.senders = Vec::new();
    }

    /// How a message names the IPC receivers that are kept beside it. Those
    /// that are here are sent.
    fn name_receivers(context: &mut TransmissionContext) -> (named: Vec<IpcReceiverAndOrId>)
        ensures
            final(context).senders == old(context).senders,
            final(context).receivers@ == old(context).receivers@.map_values(
                |kept: (Uuid, Option<ForwardReceiver>)| (kept.0, None::<ForwardReceiver>),
            ),
            named@.len() == old(context).receivers@.len(),
            forall|i: int|
                #![trigger named@[i]]
                0 <= i < named@.len() ==> named@[i]@ == names_receiver(old(context).receivers@[i]),
    {
        let mut named: Vec<IpcReceiverAndOrId> = Vec::new();
        let mut i: usize = 0;
        while i < context.receivers.len()
            invariant
                i <= context.receivers@.len(),
                context.receivers@.len() == old(context).receivers@.len(),
                context.senders == old(context).senders,
                named@.len() == i,
                forall|j: int|
                    #![trigger context.receivers@[j]]
                    0 <= j < context.receivers@.len() ==> context.receivers@[j] == (if j < i {
                        (old(context).receivers@[j].0, None)
                    } else {
                        old(context).receivers@[j]
                    }),
                forall|j: int|
                    #![trigger named@[j]]
                    0 <= j < i ==> named@[j]@ == names_receiver(old(context).receivers@[j]),
            decreases context.receivers@.len() - i,
        {
            let uuid: Uuid = context.receivers[i].0;
            let mut kept: (Uuid, Option<ForwardReceiver>) = (uuid, None);
            context.receivers.set_and_swap(i, &mut kept);
            let text = uuid_text(uuid);
            match kept.1 {
                Some(receiver) => {
                    named.push(IpcReceiverAndOrId::IpcReceiver(receiver, text));
                },
                None => {
                    named.push(IpcReceiverAndOrId::IpcReceiverId(text));
                },
            }
            i += 1;
        }
        assert(context.receivers@ =~= old(context).receivers@.map_values(
            |kept: (Uuid, Option<ForwardReceiver>)| (kept.0, None::<ForwardReceiver>),
        ));
        named
    }

    /// The message that carries an encoded message with all that was kept
    /// beside it.
    pub fn send(
        &self,
        data: Vec<u8>,
        context: &mut TransmissionContext,
        sources: &mut SourceTable,
    ) -> (outgoing: Outgoing)
        requires
            old(sources).wf(),
        ensures
            final(sources).wf(),
            final(sources).exhausted() == old(sources).exhausted(),
            final(sources)@ == sources_after(
                old(sources)@,
                self.sender_id,
                old(context).senders@,
            ),
            final(context).senders == old(context).senders,
            final(context).receivers@ == old(context).receivers@.map_values(
                |kept: (Uuid, Option<ForwardReceiver>)| (kept.0, None::<ForwardReceiver>),
            ),
            outgoing.to == self.ipc_sender,
            (match outgoing.message {
                MultiMessage::Data(scid, bytes, senders, receivers) => {
                    &&& scid == self.sub_channel_id
                    &&& bytes == data
                    &&& senders@.len() == old(context).senders@.len()
                    &&& forall|i: int|
                        #![trigger senders@[i]]
                        0 <= i < senders@.len() ==> names_sender(
                            senders@[i]@,
                            old(context).senders@[i].1.handle,
                            old(context).senders@[i].0,
                            sources_after(
                                old(sources)@,
                                self.sender_id,
                                old(context).senders@.take(i),
                            ),
                            self.sender_id,
                        )
                    &&& receivers@.len() == old(context).receivers@.len()
                    &&& forall|i: int|
                        #![trigger receivers@[i]]
                        0 <= i < receivers@.len() ==> receivers@[i]@ == names_receiver(
                            old(context).receivers@[i],
                        )
                },
                _ => false,
            }),
    {
        let senders = name_senders(self.sender_id, &context.senders, sources);
        let receivers = SubChannelSender::name_receivers(context);
        Outgoing {
            to: Arc::clone(&self.ipc_sender),
            message: MultiMessage::Data(self.sub_channel_id, data, senders, receivers),
        }
    }

    /// The message that ends the subchannel.
    pub fn disconnect(&self) -> (outgoing: Outgoing)
        ensures
            outgoing == (Outgoing {
                to: self.ipc_sender,
                message: MultiMessage::Disconnect(self.sub_channel_id),
            }),
    {
        Outgoing {
            to: Arc::clone(&self.ipc_sender),
            message: MultiMessage::Disconnect(self.sub_channel_id),
        }
    }

    /// A sender from what a message holds of it and the next IPC sender that
    /// came beside the message. It uses a source of its own.
    pub fn deserialize(
        ids: &SubChannelSenderIds,
        context: &mut ReceptionContext,
        sources: &mut SourceTable,
    ) -> (sender: Result<SubChannelSender, MultiplexError>)
        requires
            old(sources).wf(),
            !old(sources).exhausted(),
        ensures
            final(sources).wf(),
            final(context).receivers == old(context).receivers,
            (match sender {
                Ok(sender) => {
                    &&& old(context).senders@.len() > 0
                    &&& final(context).senders@ == old(context).senders@.drop_first()
                    &&& sender.sub_channel_id == ids.sub_channel_id
                    &&& sender.ipc_sender == old(context).senders@[0]
                    &&& parsed_uuid(ids.ipc_sender_uuid@) == Ok::<Uuid, Seq<char>>(
                        sender.ipc_sender_uuid,
                    )
                    &&& !old(sources)@.contains_key(sender.sender_id)
                    &&& final(sources)@ == old(sources)@.insert(sender.sender_id, Set::empty())
                },
                Err(e) => {
                    &&& final(sources)@ == old(sources)@
                    &&& if old(context).senders@.len() == 0 {
                        e@ == MultiplexErrorView::InternalError("IpcSender missing from message"@)
                    } else {
                        &&& parsed_uuid(ids.ipc_sender_uuid@) matches Err(reason)
                        &&& e@ == MultiplexErrorView::InternalError("invalid UUID: "@ + reason)
                    }
                },
            }),
    {
        let ipc_sender = match context.senders.pop_front() {
            Some(ipc_sender) => ipc_sender,
            None => {
                return Err(
                    MultiplexError::InternalError(
                        String::from_str("IpcSender missing from message"),
                    ),
                );
            },
        };
        assert(context.senders@ =~= old(context).senders@.drop_first());
        match parse_uuid(ids.ipc_sender_uuid.as_str()) {
            Ok(ipc_sender_uuid) => {
                let sender_id: SourceId = sources.open();
                Ok(
                    SubChannelSender {
                        sub_channel_id: ids.sub_channel_id,
                        ipc_sender,
                        ipc_sender_uuid,
                        sender_id,
                    },
                )
            },
            Err(e) => Err(MultiplexError::InternalError(e)),
        }
    }
}

} // verus!
