//! The sending side of multiplexing channels whose senders are counted.

use crate::multiplex::counted::error::{multiplex_error, MultiplexError};
use crate::multiplex::counted::protocol::MultiMessage;
use crate::multiplex::sender::{name_senders, sources_after};
use crate::mux::error::IpcError;
use crate::mux::protocol::{
    ClientId, MultiResponse, ResponseReceiver, ResponseSender, SubChannelId, SubChannelSenderIds,
};
use crate::mux::sender::{
    ipc_sender_and_or_uuid, name_given, names_sender, sources_with, MultiSenderId, ResponseEvent, SourceId,
    SourceTable, SubChannelDisconnector,
};
use crate::mux::sender_id::ForwardSender;
use crate::mux::subchannel_lifecycle::SubReceiverProxy;
use crate::mux::uuids::{hyphenated, is_random_uuid, uuid_text, Uuid};
use std::collections::HashMap;
use std::sync::Arc;
use vstd::prelude::*;

verus! {

broadcast use vstd::std_specs::hash::group_hash_axioms;

/// A message to be sent over an IPC channel.
#[derive(Debug)]
pub struct Outgoing {
    pub to: Arc<ForwardSender>,
    pub message: MultiMessage,
}

/// The sending end of a multiplexed channel.
pub struct MultiSender {
    client_id: ClientId,
    ipc_sender: Arc<ForwardSender>,
    uuid: Uuid,
    sender_id: SourceId,
    response_receiver: ResponseReceiver,
    sub_receiver_proxies: HashMap<Uuid, SubReceiverProxy>,
}

/// The mathematical counterpart of [`MultiSender`].
#[verifier::ext_equal]
pub struct MultiSenderView {
    pub client_id: ClientId,
    pub ipc_sender: ForwardSender,
    pub uuid: Uuid,
    pub sender_id: SourceId,
    pub response_receiver: ResponseReceiver,
    /// Whether the receiver of a subchannel has disconnected.
    pub proxies: Map<Uuid, bool>,
}

impl View for MultiSender {
    type V = MultiSenderView;

    closed spec fn view(&self) -> MultiSenderView {
        MultiSenderView {
            client_id: self.client_id,
            ipc_sender: *self.ipc_sender,
            uuid: self.uuid,
            sender_id: self.sender_id,
            response_receiver: self.response_receiver,
            proxies: self.sub_receiver_proxies@.map_values(|proxy: SubReceiverProxy| proxy@),
        }
    }
}

impl MultiSenderView {
    /// A response has been received.
    pub open spec fn told(self, response: MultiResponse) -> Self {
        match response {
            MultiResponse::SubReceiverDisconnected(scid) => {
                if self.proxies.contains_key(scid.0) {
                    MultiSenderView { proxies: self.proxies.insert(scid.0, true), ..self }
                } else {
                    self
                }
            },
        }
    }

    /// The state after reading from the response channel until there was
    /// nothing more to read.
    pub open spec fn drained(self, events: Seq<ResponseEvent>) -> Self
        decreases events.len(),
    {
        if events.len() == 0 {
            self
        } else {
            match events[0] {
                ResponseEvent::Response(response) => self.told(response).drained(
                    events.drop_first(),
                ),
                _ => self,
            }
        }
    }

    /// As far as is known, the receiver of the given subchannel is connected.
    pub open spec fn receiver_connected(self, scid: SubChannelId) -> bool {
        !(self.proxies.contains_key(scid.0) && self.proxies[scid.0])
    }
}

impl MultiSender {
    /// The sending end of a channel whose IPC sender has the given UUID, with a
    /// source of its own.
    pub fn new(
        client_id: ClientId,
        ipc_sender: Arc<ForwardSender>,
        uuid: Uuid,
        response_receiver: ResponseReceiver,
        sources: &mut SourceTable,
    ) -> (sender: MultiSender)
        requires
            old(sources).wf(),
            !old(sources).exhausted(),
        ensures
            final(sources).wf(),
            !old(sources)@.contains_key(sender@.sender_id),
            final(sources)@ == old(sources)@.insert(sender@.sender_id, Set::empty()),
            sender@ == (MultiSenderView {
                client_id,
                ipc_sender: *ipc_sender,
                uuid,
                sender_id: sender@.sender_id,
                response_receiver,
                proxies: Map::empty(),
            }),
    {
        let sender_id: SourceId = sources.open();
        let sender = MultiSender {
            client_id,
            ipc_sender,
            uuid,
            sender_id,
            response_receiver,
            sub_receiver_proxies: HashMap::new(),
        };
        assert(sender@.proxies =~= Map::<Uuid, bool>::empty());
        sender
    }

    /// The message that registers a client with the other end of an IPC
    /// channel.
    pub fn connect_message(
        sender: &Arc<ForwardSender>,
        response_sender: ResponseSender,
        client_id: ClientId,
    ) -> (outgoing: Outgoing)
        ensures
            outgoing == (Outgoing {
                to: *sender,
                message: MultiMessage::Connect(response_sender, client_id),
            }),
    {
        Outgoing { to: Arc::clone(sender), message: MultiMessage::Connect(response_sender, client_id) }
    }

    /// The sending end of an IPC channel whose sender was received, once a
    /// response channel has been created (or has failed to be) and the client
    /// has been registered (or has failed to be).
    pub fn connect_sender(
        sender: Arc<ForwardSender>,
        ipc_sender_uuid: Uuid,
        client_id: ClientId,
        response_channel: Result<ResponseReceiver, IpcError>,
        registered: Result<(), IpcError>,
        sources: &mut SourceTable,
    ) -> (connected: Result<MultiSender, MultiplexError>)
        requires
            old(sources).wf(),
            !old(sources).exhausted(),
        ensures
            final(sources).wf(),
            (match connected {
                Ok(connected) => {
                    &&& response_channel is Ok
                    &&& registered is Ok
                    &&& !old(sources)@.contains_key(connected@.sender_id)
                    &&& final(sources)@ == old(sources)@.insert(connected@.sender_id, Set::empty())
                    &&& connected@ == MultiSenderView {
                        client_id,
                        ipc_sender: *sender,
                        uuid: ipc_sender_uuid,
                        sender_id: connected@.sender_id,
                        response_receiver: response_channel->Ok_0,
                        proxies: Map::empty(),
                    }
                },
                Err(e) => {
                    &&& final(sources)@ == old(sources)@
                    &&& response_channel is Err || registered is Err
                    &&& e == (match response_channel {
                        Err(e) => multiplex_error(e),
                        Ok(_) => multiplex_error(registered->Err_0),
                    })
                },
            }),
    {
        let response_receiver: ResponseReceiver = match response_channel {
            Ok(response_receiver) => response_receiver,
            Err(e) => {
                return Err(MultiplexError::from(e));
            },
        };
        match registered {
            Ok(()) => {},
            Err(e) => {
                return Err(MultiplexError::from(e));
            },
        }
        Ok(MultiSender::new(client_id, sender, ipc_sender_uuid, response_receiver, sources))
    }

    /// The IPC sender.
    pub fn clone_ipc_sender(&self) -> (sender: Arc<ForwardSender>)
        ensures
            *sender == self@.ipc_sender,
    {
        Arc::clone(&self.ipc_sender)
    }

    /// Where responses arrive.
    pub fn responses(&self) -> (receiver: ResponseReceiver)
        ensures
            receiver == self@.response_receiver,
    {
        self.response_receiver
    }

    /// The message that announces a subchannel to a one-shot server.
    pub fn notify_sub_channel(&self, sub_channel_id: SubChannelId, name: String) -> (outgoing:
        Outgoing)
        ensures
            *outgoing.to == self@.ipc_sender,
            outgoing.message == MultiMessage::SubChannelId(sub_channel_id, name),
    {
        Outgoing {
            to: Arc::clone(&self.ipc_sender),
            message: MultiMessage::SubChannelId(sub_channel_id, name),
        }
    }

    /// Watches over the receiver of a subchannel.
    pub fn insert_sub_receiver_proxy(&mut self, scid: SubChannelId, proxy: SubReceiverProxy)
        ensures
            final(self)@ == (MultiSenderView {
                proxies: old(self)@.proxies.insert(scid.0, proxy@),
                ..old(self)@
            }),
    {
        let ghost told = proxy@;
        self.sub_receiver_proxies.insert(scid.0, proxy);
        assert(self@.proxies =~= old(self)@.proxies.insert(scid.0, told));
    }

    fn told(&mut self, response: MultiResponse)
        ensures
            final(self)@ == old(self)@.told(response),
    {
        match response {
            MultiResponse::SubReceiverDisconnected(scid) => {
                match self.sub_receiver_proxies.remove(&scid.0) {
                    Some(proxy) => {
                        let mut proxy = proxy;
                        proxy.disconnect();
                        self.sub_receiver_proxies.insert(scid.0, proxy);
                        assert(self@.proxies =~= old(self)@.proxies.insert(scid.0, true));
                    },
                    None => {
                        assert(self@.proxies =~= old(self)@.proxies);
                    },
                }
            },
        }
    }

    fn drain(&mut self, events: &Vec<ResponseEvent>)
        ensures
            final(self)@ == old(self)@.drained(events@),
    {
        assert(events@.skip(0) =~= events@);
        let mut i: usize = 0;
        while i < events.len()
            invariant
                i <= events.len(),
                self@.drained(events@.skip(i as int)) == old(self)@.drained(events@),
            decreases events.len() - i,
        {
            proof {
                let rest = events@.skip(i as int);
                assert(rest[0] == events@[i as int]);
                assert(rest.drop_first() =~= events@.skip(i + 1));
            }
            match events[i] {
                ResponseEvent::Response(response) => {
                    self.told(response);
                },
                _ => {
                    return ;
                },
            }
            i += 1;
        }
    }

    /// Whether the receiver of the given subchannel is connected, given what
    /// was read from the response channel.
    pub fn is_receiver_connected(&mut self, scid: SubChannelId, events: &Vec<ResponseEvent>) -> (connected:
        bool)
        ensures
            final(self)@ == old(self)@.drained(events@),
            connected == final(self)@.receiver_connected(scid),
    {
        self.drain(events);
        match self.sub_receiver_proxies.get(&scid.0) {
            Some(proxy) => !proxy.disconnected(),
            None => true,
        }
    }
}

/// What is kept beside a message that is being encoded.
pub struct TransmissionContext {
    /// The IPC senders of the subsenders in the message, with their UUIDs.
    pub senders: Vec<(Uuid, Arc<ForwardSender>)>,
    /// The subsenders in the message: their subchannels, IPC senders and
    /// sources.
    pub serialized: Vec<(SubChannelId, Arc<ForwardSender>, SourceId)>,
}

impl TransmissionContext {
    /// Nothing is kept.
    pub fn new() -> (context: TransmissionContext)
        ensures
            context.senders@.len() == 0,
            context.serialized@.len() == 0,
    {
        TransmissionContext { senders: Vec::new(), serialized: Vec::new() }
    }
}

/// What it takes to send a message over a subchannel: notifications for the
/// subsenders in it, whose failure does not matter, and then the message, whose
/// failure is the failure of the send.
pub struct SendPlan {
    pub notifications: Vec<Outgoing>,
    pub data: Outgoing,
}

/// The sources after each subsender's own source has sent the IPC sender with
/// the given handle.
pub open spec fn sources_notified(
    sources: Map<SourceId, Set<u64>>,
    handle: u64,
    serialized: Seq<(SubChannelId, Arc<ForwardSender>, SourceId)>,
) -> Map<SourceId, Set<u64>>
    decreases serialized.len(),
{
    if serialized.len() == 0 {
        sources
    } else {
        sources_with(
            sources_notified(sources, handle, serialized.drop_last()),
            serialized.last().2,
            handle,
        )
    }
}

/// The notification that the subsender at position `i` in a message is in
/// flight.
pub open spec fn notifies(
    notification: Outgoing,
    carrier: SubChannelSender,
    origin: Uuid,
    sources: Map<SourceId, Set<u64>>,
    serialized: Seq<(SubChannelId, Arc<ForwardSender>, SourceId)>,
    i: int,
) -> bool {
    &&& notification.to == serialized[i].1
    &&& notification.message matches MultiMessage::Sending { scid, from, via, via_chan }
    &&& scid == serialized[i].0
    &&& from == origin
    &&& via == carrier.sub_channel_id
    &&& names_sender(
        via_chan@,
        carrier.ipc_sender.handle,
        carrier.ipc_sender_uuid,
        sources_notified(sources, carrier.ipc_sender.handle, serialized.take(i)),
        serialized[i].2,
    )
}

/// The sending end of a subchannel.
#[derive(Debug)]
pub struct SubChannelSender {
    pub sub_channel_id: SubChannelId,
    pub ipc_sender: Arc<ForwardSender>,
    pub disconnector: Arc<SubChannelDisconnector>,
    pub ipc_sender_uuid: Uuid,
    pub sender_id: SourceId,
    pub multi_sender: MultiSenderId,
}

impl Clone for SubChannelSender {
    fn clone(&self) -> (same: SubChannelSender)
        ensures
            same == *self,
    {
        SubChannelSender {
            sub_channel_id: self.sub_channel_id,
            ipc_sender: Arc::clone(&self.ipc_sender),
            disconnector: Arc::clone(&self.disconnector),
            ipc_sender_uuid: self.ipc_sender_uuid,
            sender_id: self.sender_id,
            multi_sender: self.multi_sender,
        }
    }
}

/// All copies of a subsender at one source are gone: the message that tells the
/// receiver. It is not needed if the receiver has hung up.
pub fn dropped(disconnector: &SubChannelDisconnector) -> (outgoing: Outgoing)
    ensures
        outgoing == (Outgoing {
            to: disconnector.ipc_sender,
            message: MultiMessage::Disconnect(disconnector.sub_channel_id, disconnector.source),
        }),
{
    Outgoing {
        to: Arc::clone(&disconnector.ipc_sender),
        message: MultiMessage::Disconnect(disconnector.sub_channel_id, disconnector.source),
    }
}

impl SubChannelSender {
    /// The sending end of a new subchannel of the given channel, at the source
    /// `origin`.
    pub fn new(channel: &MultiSender, multi_sender: MultiSenderId, origin: Uuid) -> (sender:
        SubChannelSender)
        ensures
            is_random_uuid(sender.sub_channel_id.0),
            *sender.ipc_sender == channel@.ipc_sender,
            sender.ipc_sender_uuid == channel@.uuid,
            sender.sender_id == channel@.sender_id,
            sender.multi_sender == multi_sender,
            *sender.disconnector == (SubChannelDisconnector {
                sub_channel_id: sender.sub_channel_id,
                ipc_sender: sender.ipc_sender,
                source: origin,
                multi_sender,
            }),
    {
        let scid = SubChannelId::new();
        SubChannelSender {
            sub_channel_id: scid,
            ipc_sender: channel.clone_ipc_sender(),
            disconnector: Arc::new(
                SubChannelDisconnector::new(scid, channel.clone_ipc_sender(), origin, multi_sender),
            ),
            ipc_sender_uuid: channel.uuid,
            sender_id: channel.sender_id,
            multi_sender,
        }
    }

    /// The id of the subchannel.
    pub fn sub_channel_id(&self) -> (id: SubChannelId)
        ensures
            id == self.sub_channel_id,
    {
        self.sub_channel_id
    }

    /// Puts this sender in the message that is being encoded. What the message
    /// itself gets is returned.
    pub fn serialize(&self, context: &mut TransmissionContext) -> (ids: SubChannelSenderIds)
        ensures
            final(context).senders@ == old(context).senders@.push(
                (self.ipc_sender_uuid, self.ipc_sender),
            ),
            final(context).serialized@ == old(context).serialized@.push(
                (self.sub_channel_id, self.ipc_sender, self.sender_id),
            ),
            ids.sub_channel_id == self.sub_channel_id,
            ids.ipc_sender_uuid@ == hyphenated(self.ipc_sender_uuid),
    {
        context.senders.push((self.ipc_sender_uuid, Arc::clone(&self.ipc_sender)));
        context.serialized.push(
            (self.sub_channel_id, Arc::clone(&self.ipc_sender), self.sender_id),
        );
        SubChannelSenderIds::new(self.sub_channel_id, uuid_text(self.ipc_sender_uuid))
    }

    /// Gets ready to encode a message, unless the receiver of the subchannel
    /// has disconnected.
    pub fn prepare(
        &self,
        channel: &mut MultiSender,
        events: &Vec<ResponseEvent>,
        context: &mut TransmissionContext,
    ) -> (ready: Result<(), MultiplexError>)
        ensures
            final(channel)@ == old(channel)@.drained(events@),
            (match ready {
                Ok(()) => {
                    &&& final(channel)@.receiver_connected(self.sub_channel_id)
                    &&& final(context).senders@.len() == 0
                    &&& final(context).serialized@.len() == 0
                },
                Err(e) => {
                    &&& !final(channel)@.receiver_connected(self.sub_channel_id)
                    &&& e == MultiplexError::Disconnected
                    &&& *final(context) == *old(context)
                },
            }),
    {
        if !channel.is_receiver_connected(self.sub_channel_id, events) {
            return Err(MultiplexError::Disconnected);
        }
        context.senders = Vec::new();
        context.serialized = Vec::new();
        Ok(())
    }

    /// The notifications that the subsenders in a message are in flight, given
    /// which of their channels have been sent the IPC sender that carries the
    /// message before: there it is named by just its UUID, and elsewhere by
    /// itself too.
    pub fn notifications_given(
        &self,
        serialized: &Vec<(SubChannelId, Arc<ForwardSender>, SourceId)>,
        origin: Uuid,
        sent: &Vec<bool>,
    ) -> (notifications: Vec<Outgoing>)
        requires
            sent@.len() == serialized@.len(),
        ensures
            notifications@.len() == serialized@.len(),
            forall|i: int|
                #![trigger notifications@[i]]
                0 <= i < notifications@.len() ==> {
                    &&& notifications@[i].to == serialized@[i].1
                    &&& notifications@[i].message matches MultiMessage::Sending {
                        scid,
                        from,
                        via,
                        via_chan,
                    }
                    &&& scid == serialized@[i].0
                    &&& from == origin
                    &&& via == self.sub_channel_id
                    &&& via_chan@ == name_given(
                        sent@[i],
                        self.ipc_sender.handle,
                        self.ipc_sender_uuid,
                    )
                },
    {
        let mut notifications: Vec<Outgoing> = Vec::new();
        let mut i: usize = 0;
        while i < serialized.len()
            invariant
                i <= serialized.len(),
                sent@.len() == serialized@.len(),
                notifications@.len() == i,
                forall|i: int|
                    #![trigger notifications@[i]]
                    0 <= i < notifications@.len() ==> {
                        &&& notifications@[i].to == serialized@[i].1
                        &&& notifications@[i].message matches MultiMessage::Sending {
                            scid,
                            from,
                            via,
                            via_chan,
                        }
                        &&& scid == serialized@[i].0
                        &&& from == origin
                        &&& via == self.sub_channel_id
                        &&& via_chan@ == name_given(
                            sent@[i],
                            self.ipc_sender.handle,
                            self.ipc_sender_uuid,
                        )
                    },
            decreases serialized.len() - i,
        {
            notifications.push(
                Outgoing {
                    to: Arc::clone(&serialized[i].1),
                    message: MultiMessage::Sending {
                        scid: serialized[i].0,
                        from: origin,
                        via: self.sub_channel_id,
                        via_chan: ipc_sender_and_or_uuid(
                            sent[i],
                            &self.ipc_sender,
                            self.ipc_sender_uuid,
                        ),
                    },
                },
            );
            i += 1;
        }
        notifications
    }

    /// The notifications that the subsenders in a message are in flight.
    fn notify(
        &self,
        serialized: &Vec<(SubChannelId, Arc<ForwardSender>, SourceId)>,
        origin: Uuid,
        sources: &mut SourceTable,
    ) -> (notifications: Vec<Outgoing>)
        requires
            old(sources).wf(),
        ensures
            final(sources).wf(),
            final(sources).exhausted() == old(sources).exhausted(),
            final(sources)@ == sources_notified(
                old(sources)@,
                self.ipc_sender.handle,
                serialized@,
            ),
            notifications@.len() == serialized@.len(),
            forall|i: int|
                #![trigger notifications@[i]]
                0 <= i < notifications@.len() ==> notifies(
                    notifications@[i],
                    *self,
                    origin,
                    old(sources)@,
                    serialized@,
                    i,
                ),
    {
        let mut sent: Vec<bool> = Vec::new();
        assert(serialized@.take(0) =~= Seq::empty());
        let mut i: usize = 0;
        while i < serialized.len()
            invariant
                i <= serialized.len(),
                sources.wf(),
                sources.exhausted() == old(sources).exhausted(),
                sources@ == sources_notified(
                    old(sources)@,
                    self.ipc_sender.handle,
                    serialized@.take(i as int),
                ),
                sent@.len() == i,
                forall|j: int|
                    #![trigger sent@[j]]
                    0 <= j < i && sent@[j] ==> {
                        let before = sources_notified(
                            old(sources)@,
                            self.ipc_sender.handle,
                            serialized@.take(j),
                        );
                        before.contains_key(serialized@[j].2) && before[serialized@[j].2].contains(
                            self.ipc_sender.handle,
                        )
                    },
            decreases serialized.len() - i,
        {
            let already_sent: bool = sources.insert(serialized[i].2, &self.ipc_sender);
            sent.push(already_sent);
            proof {
                let now = serialized@.take(i + 1);
                assert(now.drop_last() =~= serialized@.take(i as int));
                assert(now.last() == serialized@[i as int]);
            }
            i += 1;
        }
        assert(serialized@.take(serialized@.len() as int) =~= serialized@);
        self.notifications_given(serialized, origin, &sent)
    }

    /// What it takes to send an encoded message with all that was kept beside
    /// it, from the source `origin`.
    pub fn send(
        &self,
        data: Vec<u8>,
        origin: Uuid,
        context: &mut TransmissionContext,
        sources: &mut SourceTable,
    ) -> (plan: SendPlan)
        requires
            old(sources).wf(),
        ensures
            final(sources).wf(),
            final(sources).exhausted() == old(sources).exhausted(),
            final(context).senders == old(context).senders,
            final(context).serialized@.len() == 0,
            plan.notifications@.len() == old(context).serialized@.len(),
            forall|i: int|
                #![trigger plan.notifications@[i]]
                0 <= i < plan.notifications@.len() ==> notifies(
                    plan.notifications@[i],
                    *self,
                    origin,
                    old(sources)@,
                    old(context).serialized@,
                    i,
                ),
            plan.data.to == self.ipc_sender,
            ({
                let notified = sources_notified(
                    old(sources)@,
                    self.ipc_sender.handle,
                    old(context).serialized@,
                );
                &&& final(sources)@ == sources_after(
                    notified,
                    self.sender_id,
                    old(context).senders@,
                )
                &&& match plan.data.message {
                    MultiMessage::Data(scid, bytes, senders, from) => {
                        &&& scid == self.sub_channel_id
                        &&& bytes == data
                        &&& from == origin
                        &&& senders@.len() == old(context).senders@.len()
                        &&& forall|i: int|
                            #![trigger senders@[i]]
                            0 <= i < senders@.len() ==> names_sender(
                                senders@[i]@,
                                old(context).senders@[i].1.handle,
                                old(context).senders@[i].0,
                                sources_after(
                                    notified,
                                    self.sender_id,
                                    old(context).senders@.take(i),
                                ),
                                self.sender_id,
                            )
                    },
                    _ => false,
                }
            }),
    {
        let notifications = self.notify(&context.serialized, origin, sources);
        context.serialized = Vec::new();
        let senders = name_senders(self.sender_id, &context.senders, sources);
        SendPlan {
            notifications,
            data: Outgoing {
                to: Arc::clone(&self.ipc_sender),
                message: MultiMessage::Data(self.sub_channel_id, data, senders, origin),
            },
        }
    }

    /// The message that disconnects the subsender at the source `origin`.
    pub fn disconnect(&self, origin: Uuid) -> (outgoing: Outgoing)
        ensures
            outgoing == (Outgoing {
                to: self.ipc_sender,
                message: MultiMessage::Disconnect(self.sub_channel_id, origin),
            }),
    {
        Outgoing {
            to: Arc::clone(&self.ipc_sender),
            message: MultiMessage::Disconnect(self.sub_channel_id, origin),
        }
    }
}

/// A receiver that is known to have disconnected stays so, whatever is read
/// from the response channel later, so that every later message is refused.
pub proof fn law_disconnected_receiver_stays_disconnected(
    state: MultiSenderView,
    events: Seq<ResponseEvent>,
    scid: SubChannelId,
)
    requires
        !state.receiver_connected(scid),
    ensures
        !state.drained(events).receiver_connected(scid),
    decreases events.len(),
{
    if events.len() > 0 {
        match events[0] {
            ResponseEvent::Response(response) => {
                law_disconnected_receiver_stays_disconnected(
                    state.told(response),
                    events.drop_first(),
                    scid,
                );
            },
            _ => {},
        }
    }
}

} // verus!
