//! The sending side of multiplexing channels.

use crate::mux::captures::Captured;
use crate::mux::error::{mux_error, IpcError, MuxError};
use crate::mux::ipc_handles::{
    clear_ipc_receiver_serialization_context, clear_ipc_sender_serialization_context,
    take_ipc_receivers_for_send, take_ipc_senders_for_send, CapturedReceivers, CapturedSenders,
    OpaqueIpcReceiver, OpaqueIpcSender,
};
use crate::mux::protocol::{
    Attachments, ClientId, IpcSenderAndOrId, IpcSenderAndOrIdView, MultiMessage, MultiResponse,
    ResponseReceiver, ResponseSender, SubChannelId, SubChannelSenderIds, EMPTY_SUBCHANNEL_ID, ORIGIN,
};
use crate::mux::sender_id::{ForwardSender, Source};
use crate::mux::shared_memory::{
    clear_shmem_serialization_context, take_shmems_for_send, CapturedRegions,
};
use crate::mux::subchannel_lifecycle::SubReceiverProxy;
use crate::mux::uuids::{hyphenated, is_random_uuid, new_uuid, uuid_text, Uuid};
use std::collections::HashMap;
use std::sync::Arc;
use vstd::prelude::*;

verus! {

broadcast use vstd::std_specs::hash::group_hash_axioms;

/// A message to be sent over an IPC channel.
#[derive(Debug)]
pub struct Outgoing {
    pub to: Arc<ForwardSender>,
    pub message: MultiMessage,
}

/// Identifies a [`MultiSender`] to the program around the library, which holds
/// it together with its ends of the IPC channels.
pub type MultiSenderId = u64;

/// Identifies a [`Source`] in a [`SourceTable`].
pub type SourceId = u64;

/// What a non-blocking receive from a response channel gave.
#[derive(Clone, Copy, PartialEq, Eq, Structural, Debug)]
pub enum ResponseEvent {
    Response(MultiResponse),
    Empty,
    IpcError,
}

/// The sending end of a multiplexed channel.
pub struct MultiSender {
    client_id: ClientId,
    ipc_sender: Arc<ForwardSender>,
    uuid: Uuid,
    sender_id: SourceId,
    response_receiver: Option<ResponseReceiver>,
    disconnected: bool,
    sub_receiver_proxies: HashMap<Uuid, SubReceiverProxy>,
}

/// The mathematical counterpart of [`MultiSender`].
#[verifier::ext_equal]
pub struct MultiSenderView {
    pub client_id: ClientId,
    pub ipc_sender: ForwardSender,
    pub uuid: Uuid,
    pub sender_id: SourceId,
    pub response_receiver: Option<ResponseReceiver>,
    /// The response channel has been found to be disconnected.
    pub disconnected: bool,
    /// Whether the receiver of a subchannel has disconnected.
    pub proxies: Map<Uuid, bool>,
}

impl View for MultiSender {
    type V = MultiSenderView;

    closed spec fn view(&self) -> MultiSenderView {
        MultiSenderView {
            client_id: self.client_id,
            ipc_sender: *self.ipc_sender,
            uuid: self.uuid,
            sender_id: self.sender_id,
            response_receiver: self.response_receiver,
            disconnected: self.disconnected,
            proxies: self.sub_receiver_proxies@.map_values(|proxy: SubReceiverProxy| proxy@),
        }
    }
}

impl MultiSenderView {
    /// A response has been received.
    pub open spec fn told(self, response: MultiResponse) -> Self {
        match response {
            MultiResponse::SubReceiverDisconnected(scid) => {
                if self.proxies.contains_key(scid.0) {
                    MultiSenderView { proxies: self.proxies.insert(scid.0, true), ..self }
                } else {
                    self
                }
            },
        }
    }

    /// The state after reading from the response channel until there was
    /// nothing more to read. Once the channel has been found disconnected it is
    /// not read any more.
    pub open spec fn drained(self, events: Seq<ResponseEvent>) -> Self
        decreases events.len(),
    {
        if self.disconnected || self.response_receiver is None || events.len() == 0 {
            self
        } else {
            match events[0] {
                ResponseEvent::Response(response) => self.told(response).drained(
                    events.drop_first(),
                ),
                ResponseEvent::Empty => self,
                ResponseEvent::IpcError => MultiSenderView { disconnected: true, ..self },
            }
        }
    }

    /// As far as is known, the receiver of the given subchannel is connected.
    pub open spec fn receiver_connected(self, scid: SubChannelId) -> bool {
        !self.disconnected && !(self.proxies.contains_key(scid.0) && self.proxies[scid.0])
    }
}

impl MultiSender {
    /// The sending end of a channel that was created in this process, with a
    /// new UUID.
    pub fn new(
        client_id: ClientId,
        ipc_sender: Arc<ForwardSender>,
        response_receiver: ResponseReceiver,
        sources: &mut SourceTable,
    ) -> (sender: MultiSender)
        requires
            old(sources).wf(),
            !old(sources).exhausted(),
        ensures
            final(sources).wf(),
            !old(sources)@.contains_key(sender@.sender_id),
            final(sources)@ == old(sources)@.insert(sender@.sender_id, Set::empty()),
            is_random_uuid(sender@.uuid),
            sender@ == connected_sender(
                client_id,
                *ipc_sender,
                sender@.uuid,
                sender@.sender_id,
                response_receiver,
            ),
    {
        let uuid: Uuid = new_uuid();
        MultiSender::with_uuid(client_id, ipc_sender, uuid, response_receiver, sources)
    }

    fn with_uuid(
        client_id: ClientId,
        ipc_sender: Arc<ForwardSender>,
        uuid: Uuid,
        response_receiver: ResponseReceiver,
        sources: &mut SourceTable,
    ) -> (sender: MultiSender)
        requires
            old(sources).wf(),
            !old(sources).exhausted(),
        ensures
            final(sources).wf(),
            !old(sources)@.contains_key(sender@.sender_id),
            final(sources)@ == old(sources)@.insert(sender@.sender_id, Set::empty()),
            sender@ == connected_sender(
                client_id,
                *ipc_sender,
                uuid,
                sender@.sender_id,
                response_receiver,
            ),
    {
        let sender_id: SourceId = sources.open();
        let sender = MultiSender {
            client_id,
            ipc_sender,
            uuid,
            sender_id,
            response_receiver: Some(response_receiver),
            disconnected: false,
            sub_receiver_proxies: HashMap::new(),
        };
        assert(sender@ =~= connected_sender(
            client_id,
            *ipc_sender,
            uuid,
            sender_id,
            response_receiver,
        ));
        sender
    }

    /// The message that registers a client with the other end of an IPC
    /// channel.
    pub fn connect_message(
        sender: &Arc<ForwardSender>,
        response_sender: ResponseSender,
        client_id: ClientId,
    ) -> (outgoing: Outgoing)
        ensures
            outgoing == (Outgoing {
                to: *sender,
                message: MultiMessage::Connect(response_sender, client_id),
            }),
    {
        Outgoing { to: Arc::clone(sender), message: MultiMessage::Connect(response_sender, client_id) }
    }

    /// The sending end of an IPC channel whose sender was received, once a
    /// response channel has been created (or has failed to be) and the client
    /// has been registered (or has failed to be).
    pub fn connect_sender(
        sender: Arc<ForwardSender>,
        ipc_sender_uuid: Uuid,
        client_id: ClientId,
        response_channel: Result<ResponseReceiver, IpcError>,
        registered: Result<(), IpcError>,
        sources: &mut SourceTable,
    ) -> (connected: Result<MultiSender, MuxError>)
        requires
            old(sources).wf(),
            !old(sources).exhausted(),
        ensures
            final(sources).wf(),
            (match connected {
                Ok(connected) => {
                    &&& response_channel is Ok
                    &&& registered is Ok
                    &&& !old(sources)@.contains_key(connected@.sender_id)
                    &&& final(sources)@ == old(sources)@.insert(connected@.sender_id, Set::empty())
                    &&& connected@ == connected_sender(
                        client_id,
                        *sender,
                        ipc_sender_uuid,
                        connected@.sender_id,
                        response_channel->Ok_0,
                    )
                },
                Err(e) => {
                    &&& final(sources)@ == old(sources)@
                    &&& e == (match response_channel {
                        Err(e) => mux_error(e),
                        Ok(_) => mux_error(registered->Err_0),
                    })
                    &&& response_channel is Err || registered is Err
                },
            }),
    {
        let response_receiver: ResponseReceiver = match response_channel {
            Ok(response_receiver) => response_receiver,
            Err(e) => {
                return Err(MuxError::from(e));
            },
        };
        match registered {
            Ok(()) => {},
            Err(e) => {
                return Err(MuxError::from(e));
            },
        }
        Ok(MultiSender::with_uuid(client_id, sender, ipc_sender_uuid, response_receiver, sources))
    }

    /// The IPC sender.
    pub fn clone_ipc_sender(&self) -> (sender: Arc<ForwardSender>)
        ensures
            *sender == self@.ipc_sender,
    {
        Arc::clone(&self.ipc_sender)
    }

    /// The UUID that identifies the IPC sender.
    pub fn uuid(&self) -> (uuid: Uuid)
        ensures
            uuid == self@.uuid,
    {
        self.uuid
    }

    /// The client id under which this end is registered.
    pub fn client_id(&self) -> (id: ClientId)
        ensures
            id == self@.client_id,
    {
        self.client_id
    }

    /// Where responses arrive, if the response channel is worth reading.
    pub fn responses(&self) -> (receiver: Option<ResponseReceiver>)
        ensures
            receiver == (if self@.disconnected {
                None
            } else {
                self@.response_receiver
            }),
    {
        if self.disconnected {
            None
        } else {
            self.response_receiver
        }
    }

    /// A message to be sent to the other end.
    pub fn send_message(&self, message: MultiMessage) -> (outgoing: Outgoing)
        ensures
            *outgoing.to == self@.ipc_sender,
            outgoing.message == message,
    {
        Outgoing { to: Arc::clone(&self.ipc_sender), message }
    }

    /// The message that announces a subchannel to a one-shot server.
    pub fn notify_sub_channel(&self, sub_channel_id: SubChannelId, name: String) -> (outgoing:
        Outgoing)
        ensures
            *outgoing.to == self@.ipc_sender,
            outgoing.message == MultiMessage::SubChannelId(sub_channel_id, name),
    {
        self.send_message(MultiMessage::SubChannelId(sub_channel_id, name))
    }

    /// Watches over the receiver of a subchannel.
    pub fn insert_sub_receiver_proxy(&mut self, scid: SubChannelId, proxy: SubReceiverProxy)
        ensures
            final(self)@ == (MultiSenderView {
                proxies: old(self)@.proxies.insert(scid.0, proxy@),
                ..old(self)@
            }),
    {
        let ghost told = proxy@;
        self.sub_receiver_proxies.insert(scid.0, proxy);
        assert(self@.proxies =~= old(self)@.proxies.insert(scid.0, told));
    }

    fn told(&mut self, response: MultiResponse)
        ensures
            final(self)@ == old(self)@.told(response),
    {
        match response {
            MultiResponse::SubReceiverDisconnected(scid) => {
                match self.sub_receiver_proxies.remove(&scid.0) {
                    Some(proxy) => {
                        let mut proxy = proxy;
                        proxy.disconnect();
                        self.sub_receiver_proxies.insert(scid.0, proxy);
                        assert(self@.proxies =~= old(self)@.proxies.insert(scid.0, true));
                    },
                    None => {
                        assert(self@.proxies =~= old(self)@.proxies);
                    },
                }
            },
        }
    }

    /// Processes what was read from the response channel: notifications that
    /// receivers have disconnected, up to the point where nothing more was to
    /// be read or the channel turned out to be disconnected, which is
    /// remembered.
    ///
    /// Returns whether the response channel is still alive.
    pub fn drain_responses(&mut self, events: &Vec<ResponseEvent>) -> (alive: bool)
        ensures
            final(self)@ == old(self)@.drained(events@),
            alive == !final(self)@.disconnected,
    {
        if self.disconnected {
            return false;
        }
        if self.response_receiver.is_none() {
            return true;
        }
        assert(events@.skip(0) =~= events@);
        let mut i: usize = 0;
        while i < events.len()
            invariant
                i <= events.len(),
                !self@.disconnected,
                self@.response_receiver is Some,
                self@.drained(events@.skip(i as int)) == old(self)@.drained(events@),
            decreases events.len() - i,
        {
            proof {
                let rest = events@.skip(i as int);
                assert(rest[0] == events@[i as int]);
                assert(rest.drop_first() =~= events@.skip(i + 1));
            }
            match events[i] {
                ResponseEvent::Response(response) => {
                    self.told(response);
                },
                ResponseEvent::Empty => {
                    return true;
                },
                ResponseEvent::IpcError => {
                    self.disconnected = true;
                    return false;
                },
            }
            i += 1;
        }
        true
    }

    /// Whether the other end of the channel is still alive, given what was read
    /// from the response channel.
    pub fn probe(&mut self, events: &Vec<ResponseEvent>) -> (alive: bool)
        ensures
            final(self)@ == old(self)@.drained(events@),
            alive == !final(self)@.disconnected,
    {
        self.drain_responses(events)
    }

    /// Whether the receiver of the given subchannel is connected, given what
    /// was read from the response channel.
    pub fn is_receiver_connected(&mut self, scid: SubChannelId, events: &Vec<ResponseEvent>) -> (connected:
        bool)
        ensures
            final(self)@ == old(self)@.drained(events@),
            connected == final(self)@.receiver_connected(scid),
    {
        if !self.drain_responses(events) {
            return false;
        }
        match self.sub_receiver_proxies.get(&scid.0) {
            Some(proxy) => !proxy.disconnected(),
            None => true,
        }
    }
}

/// The sending end of a channel, newly connected.
pub open spec fn connected_sender(
    client_id: ClientId,
    ipc_sender: ForwardSender,
    uuid: Uuid,
    sender_id: SourceId,
    response_receiver: ResponseReceiver,
) -> MultiSenderView {
    MultiSenderView {
        client_id,
        ipc_sender,
        uuid,
        sender_id,
        response_receiver: Some(response_receiver),
        disconnected: false,
        proxies: Map::empty(),
    }
}

/// The sources of a process. A source is shared by the senders that use one IPC
/// channel and is known to each of them by its id.
pub struct SourceTable {
    sources: HashMap<SourceId, Source>,
    next: SourceId,
}

impl View for SourceTable {
    type V = Map<SourceId, Set<u64>>;

    /// The handles of the IPC senders that each source has sent.
    closed spec fn view(&self) -> Map<SourceId, Set<u64>> {
        self.sources@.map_values(|source: Source| source@)
    }
}

/// The sources after one of them has sent an IPC sender.
pub open spec fn sources_with(
    sources: Map<SourceId, Set<u64>>,
    id: SourceId,
    handle: u64,
) -> Map<SourceId, Set<u64>> {
    if sources.contains_key(id) {
        sources.insert(id, sources[id].insert(handle))
    } else {
        sources
    }
}

impl SourceTable {
    /// No source has an id that has yet to be given to one.
    pub closed spec fn wf(&self) -> bool {
        forall|id: SourceId| #[trigger] self.sources@.contains_key(id) ==> id < self.next
    }

    /// All ids have been given to a source.
    pub closed spec fn exhausted(&self) -> bool {
        self.next == SourceId::MAX
    }

    /// No sources.
    pub fn new() -> (sources: SourceTable)
        ensures
            sources.wf(),
            !sources.exhausted(),
            sources@ == Map::<SourceId, Set<u64>>::empty(),
    {
        let sources = SourceTable { sources: HashMap::new(), next: 0 };
        assert(sources@ =~= Map::<SourceId, Set<u64>>::empty());
        sources
    }

    /// Whether all ids have been given to a source.
    pub fn is_exhausted(&self) -> (exhausted: bool)
        ensures
            exhausted == self.exhausted(),
    {
        self.next == SourceId::MAX
    }

    /// A new source, which has sent nothing.
    pub fn open(&mut self) -> (id: SourceId)
        requires
            old(self).wf(),
            !old(self).exhausted(),
        ensures
            final(self).wf(),
            !old(self)@.contains_key(id),
            final(self)@ == old(self)@.insert(id, Set::empty()),
    {
        let id: SourceId = self.next;
        self.sources.insert(id, Source::new());
        self.next = id + 1;
        assert(self@ =~= old(self)@.insert(id, Set::empty()));
        id
    }

    /// Forgets a source that no sender uses any more.
    pub fn close(&mut self, id: SourceId)
        requires
            old(self).wf(),
        ensures
            final(self).wf(),
            final(self)@ == old(self)@.remove(id),
    {
        self.sources.remove(&id);
        assert(self@ =~= old(self)@.remove(id));
    }

    /// Records that a source sends the given IPC sender and returns whether it
    /// has sent it before.
    pub(crate) fn insert(&mut self, id: SourceId, sender: &Arc<ForwardSender>) -> (already_sent: bool)
        requires
            old(self).wf(),
        ensures
            final(self).wf(),
            final(self).exhausted() == old(self).exhausted(),
            final(self)@ == sources_with(old(self)@, id, sender.handle),
            already_sent ==> old(self)@.contains_key(id) && old(self)@[id].contains(sender.handle),
    {
        match self.sources.remove(&id) {
            Some(source) => {
                let mut source = source;
                let already_sent: bool = source.insert(Arc::clone(sender));
                self.sources.insert(id, source);
                assert(self@ =~= sources_with(old(self)@, id, sender.handle));
                already_sent
            },
            None => {
                assert(self@ =~= old(self)@);
                false
            },
        }
    }
}

/// Tells the other end of a channel that all copies of a subsender are gone
/// from one source.
#[derive(Debug)]
pub struct SubChannelDisconnector {
    pub sub_channel_id: SubChannelId,
    pub ipc_sender: Arc<ForwardSender>,
    pub source: Uuid,
    pub multi_sender: MultiSenderId,
}

/// `Arc::into_inner`: what the pointer held, if it was the last one. Whether it
/// was depends on who else holds one.
#[verifier::external_body]
fn last_pointer(disconnector: Arc<SubChannelDisconnector>) -> (last: Option<SubChannelDisconnector>)
    ensures
        last is Some ==> last->0 == *disconnector,
{
    Arc::into_inner(disconnector)
}

impl SubChannelDisconnector {
    pub fn new(
        sub_channel_id: SubChannelId,
        ipc_sender: Arc<ForwardSender>,
        source: Uuid,
        multi_sender: MultiSenderId,
    ) -> (disconnector: Self)
        ensures
            disconnector == (SubChannelDisconnector {
                sub_channel_id,
                ipc_sender,
                source,
                multi_sender,
            }),
    {
        SubChannelDisconnector { sub_channel_id, ipc_sender, source, multi_sender }
    }

    /// Lets go of one holder's pointer. The disconnector itself comes back when
    /// the last holder has let go, and is then to be told that the subsender
    /// was dropped.
    pub fn release(disconnector: Arc<SubChannelDisconnector>) -> (last: Option<
        SubChannelDisconnector,
    >)
        ensures
            last is Some ==> last->0 == *disconnector,
    {
        last_pointer(disconnector)
    }

    /// All copies of the subsender are gone. If the receiver is still
    /// connected, it is to be told.
    pub fn dropped(&self, multi_sender: &mut MultiSender, events: &Vec<ResponseEvent>) -> (told:
        Option<Outgoing>)
        ensures
            final(multi_sender)@ == old(multi_sender)@.drained(events@),
            told == (if final(multi_sender)@.receiver_connected(self.sub_channel_id) {
                Some(
                    Outgoing {
                        to: self.ipc_sender,
                        message: MultiMessage::Disconnect(self.sub_channel_id, self.source),
                    },
                )
            } else {
                None
            }),
    {
        if multi_sender.is_receiver_connected(self.sub_channel_id, events) {
            Some(
                Outgoing {
                    to: Arc::clone(&self.ipc_sender),
                    message: MultiMessage::Disconnect(self.sub_channel_id, self.source),
                },
            )
        } else {
            None
        }
    }
}

/// The sender that a message names is the given one: by itself and its UUID, or
/// by just the UUID if the sender has been sent before.
pub open spec fn names_sender(
    named: IpcSenderAndOrIdView,
    handle: u64,
    uuid: Uuid,
    sent: Map<SourceId, Set<u64>>,
    source: SourceId,
) -> bool {
    ||| named == IpcSenderAndOrIdView::IpcSender(handle, hyphenated(uuid))
    ||| {
        &&& named == IpcSenderAndOrIdView::IpcSenderId(hyphenated(uuid))
        &&& sent.contains_key(source)
        &&& sent[source].contains(handle)
    }
}

/// How a message names an IPC sender that has been sent before, or not.
pub open spec fn name_given(already_sent: bool, handle: u64, uuid: Uuid) -> IpcSenderAndOrIdView {
    if already_sent {
        IpcSenderAndOrIdView::IpcSenderId(hyphenated(uuid))
    } else {
        IpcSenderAndOrIdView::IpcSender(handle, hyphenated(uuid))
    }
}

/// How a message names an IPC sender: by itself and the UUID that identifies it
/// the first time, and by just the UUID once it has been sent.
pub fn ipc_sender_and_or_uuid(
    already_sent: bool,
    ipc_sender: &Arc<ForwardSender>,
    ipc_sender_uuid: Uuid,
) -> (named: IpcSenderAndOrId)
    ensures
        named@ == name_given(already_sent, ipc_sender.handle, ipc_sender_uuid),
{
    if already_sent {
        IpcSenderAndOrId::IpcSenderId(uuid_text(ipc_sender_uuid))
    } else {
        IpcSenderAndOrId::IpcSender(Arc::clone(ipc_sender), uuid_text(ipc_sender_uuid))
    }
}

/// What is kept of a subsender that is sent in a message.
pub struct SerializedSenderContext {
    pub sub_channel_id: SubChannelId,
    pub ipc_sender_uuid: Uuid,
    pub ipc_sender: Arc<ForwardSender>,
    pub sender_id: SourceId,
}

/// What is kept beside a message that is being encoded.
pub struct SerializationContext {
    pub senders: Captured<SerializedSenderContext>,
    pub regions: CapturedRegions,
    pub ipc_senders: CapturedSenders,
    pub ipc_receivers: CapturedReceivers,
}

impl SerializationContext {
    /// Nothing is kept.
    pub open spec fn is_clear(&self) -> bool {
        &&& self.senders@.len() == 0
        &&& self.regions@.len() == 0
        &&& self.ipc_senders@.len() == 0
        &&& self.ipc_receivers@.len() == 0
    }

    pub fn new() -> (context: SerializationContext)
        ensures
            context.is_clear(),
    {
        SerializationContext {
            senders: Captured::new(),
            regions: Captured::new(),
            ipc_senders: Captured::new(),
            ipc_receivers: Captured::new(),
        }
    }
}

/// Forgets the subsenders kept for an earlier message.
pub fn clear_serialization_context(context: &mut SerializationContext)
    ensures
        final(context).senders@ == Seq::<SerializedSenderContext>::empty(),
        final(context).regions == old(context).regions,
        final(context).ipc_senders == old(context).ipc_senders,
        final(context).ipc_receivers == old(context).ipc_receivers,
{
    context.senders.clear();
}

/// Takes the subsenders kept for a message.
pub fn take_serialization_context(context: &mut SerializationContext) -> (senders: Vec<
    SerializedSenderContext,
>)
    ensures
        senders@ == old(context).senders@,
        final(context).senders@ == Seq::<SerializedSenderContext>::empty(),
        final(context).regions == old(context).regions,
        final(context).ipc_senders == old(context).ipc_senders,
        final(context).ipc_receivers == old(context).ipc_receivers,
{
    context.senders.take()
}

/// What it takes to send a message over a subchannel: notifications for the
/// subsenders in it, whose failure does not matter, and then the message, whose
/// failure is the failure of the send.
pub struct SendPlan {
    pub notifications: Vec<Outgoing>,
    pub data: Outgoing,
}

/// What it takes to hand a subsender to another process over a raw IPC channel.
pub struct TransportPlan {
    /// What the other process needs, once the receiver has been notified.
    pub parts: IpcChannelTransportParts,
    /// To be let go of when the parts are on their way.
    pub disconnector: Arc<SubChannelDisconnector>,
}

/// The subchannel id, IPC sender, UUID and keepalive sender of a subsender that
/// is handed to another process.
pub struct IpcChannelTransportParts {
    pub sub_channel_id: SubChannelId,
    pub ipc_sender: Arc<ForwardSender>,
    pub ipc_sender_uuid: Uuid,
    pub keepalive: Option<OpaqueIpcSender>,
}

/// The sending end of a subchannel.
pub struct SubChannelSender {
    pub sub_channel_id: SubChannelId,
    pub ipc_sender: Arc<ForwardSender>,
    pub disconnector: Arc<SubChannelDisconnector>,
    pub ipc_sender_uuid: Uuid,
    pub sender_id: SourceId,
    pub multi_sender: MultiSenderId,
}

impl Clone for SubChannelSender {
    fn clone(&self) -> (same: SubChannelSender)
        ensures
            same == *self,
    {
        SubChannelSender {
            sub_channel_id: self.sub_channel_id,
            ipc_sender: Arc::clone(&self.ipc_sender),
            disconnector: Arc::clone(&self.disconnector),
            ipc_sender_uuid: self.ipc_sender_uuid,
            sender_id: self.sender_id,
            multi_sender: self.multi_sender,
        }
    }
}

/// The sources after a subsender for the subchannel `scid` and its IPC sender
/// have been sent with `carrier`, and so have those in `contexts` before it.
pub open spec fn sources_after(
    sources: Map<SourceId, Set<u64>>,
    carrier: SubChannelSender,
    contexts: Seq<SerializedSenderContext>,
) -> Map<SourceId, Set<u64>>
    decreases contexts.len(),
{
    if contexts.len() == 0 {
        sources
    } else {
        let last = contexts.last();
        let before = sources_after(sources, carrier, contexts.drop_last());
        sources_with(
            sources_with(before, last.sender_id, carrier.ipc_sender.handle),
            carrier.sender_id,
            last.ipc_sender.handle,
        )
    }
}

/// The notification that the subsender at position `i` in a message is in
/// flight, and what the message holds of it.
pub open spec fn notifies(
    notification: Outgoing,
    held: (SubChannelId, IpcSenderAndOrId),
    carrier: SubChannelSender,
    sources: Map<SourceId, Set<u64>>,
    contexts: Seq<SerializedSenderContext>,
    i: int,
) -> bool {
    let context = contexts[i];
    let before = sources_after(sources, carrier, contexts.take(i));
    let between = sources_with(before, context.sender_id, carrier.ipc_sender.handle);
    &&& notification.to == context.ipc_sender
    &&& notification.message matches MultiMessage::Sending { scid, via, via_chan }
    &&& scid == context.sub_channel_id
    &&& via == carrier.sub_channel_id
    &&& names_sender(
        via_chan@,
        carrier.ipc_sender.handle,
        carrier.ipc_sender_uuid,
        before,
        context.sender_id,
    )
    &&& held.0 == context.sub_channel_id
    &&& names_sender(
        held.1@,
        context.ipc_sender.handle,
        context.ipc_sender_uuid,
        between,
        carrier.sender_id,
    )
}

/// The IPC senders that a message with subsenders and the notifications of it
/// name have been sent before, or not.
#[derive(Debug)]
pub struct SentBefore {
    /// For each subsender, whether its channel has been told of the IPC sender
    /// that carries it.
    pub carriers: Vec<bool>,
    /// For each subsender, whether its IPC sender has been sent over the channel
    /// that carries it.
    pub carried: Vec<bool>,
}

/// The notification that one subsender is in flight, and what the message holds
/// of the subsender, given which IPC senders have been sent before.
pub open spec fn notifies_given(
    notification: Outgoing,
    held: (SubChannelId, IpcSenderAndOrId),
    carrier: SubChannelSender,
    context: SerializedSenderContext,
    carrier_sent: bool,
    carried_sent: bool,
) -> bool {
    &&& notification.to == context.ipc_sender
    &&& notification.message matches MultiMessage::Sending { scid, via, via_chan }
    &&& scid == context.sub_channel_id
    &&& via == carrier.sub_channel_id
    &&& via_chan@ == name_given(carrier_sent, carrier.ipc_sender.handle, carrier.ipc_sender_uuid)
    &&& held.0 == context.sub_channel_id
    &&& held.1@ == name_given(carried_sent, context.ipc_sender.handle, context.ipc_sender_uuid)
}

/// An IPC sender is taken to have been sent before only if it was.
pub open spec fn sent_before(
    carrier_sent: bool,
    carried_sent: bool,
    carrier: SubChannelSender,
    sources: Map<SourceId, Set<u64>>,
    contexts: Seq<SerializedSenderContext>,
    i: int,
) -> bool {
    let context = contexts[i];
    let before = sources_after(sources, carrier, contexts.take(i));
    let between = sources_with(before, context.sender_id, carrier.ipc_sender.handle);
    &&& carrier_sent ==> before.contains_key(context.sender_id)
        && before[context.sender_id].contains(carrier.ipc_sender.handle)
    &&& carried_sent ==> between.contains_key(carrier.sender_id)
        && between[carrier.sender_id].contains(context.ipc_sender.handle)
}

impl SubChannelSender {
    /// The sending end of a new subchannel of the given channel.
    pub fn new(channel: &MultiSender, multi_sender: MultiSenderId) -> (sender: SubChannelSender)
        ensures
            is_random_uuid(sender.sub_channel_id.0),
            *sender.ipc_sender == channel@.ipc_sender,
            sender.ipc_sender_uuid == channel@.uuid,
            sender.sender_id == channel@.sender_id,
            sender.multi_sender == multi_sender,
            *sender.disconnector == (SubChannelDisconnector {
                sub_channel_id: sender.sub_channel_id,
                ipc_sender: sender.ipc_sender,
                source: ORIGIN,
                multi_sender,
            }),
    {
        let scid = SubChannelId::new();
        SubChannelSender {
            sub_channel_id: scid,
            ipc_sender: channel.clone_ipc_sender(),
            disconnector: Arc::new(
                SubChannelDisconnector::new(scid, channel.clone_ipc_sender(), ORIGIN, multi_sender),
            ),
            ipc_sender_uuid: channel.uuid(),
            sender_id: channel.sender_id,
            multi_sender,
        }
    }

    /// The sending end of a subchannel, as it arrived in a message. It uses a
    /// source of its own.
    pub fn from_deserialized(
        sub_channel_id: SubChannelId,
        ipc_sender: Arc<ForwardSender>,
        disconnector: Arc<SubChannelDisconnector>,
        ipc_sender_uuid: Uuid,
        multi_sender: MultiSenderId,
        sources: &mut SourceTable,
    ) -> (sender: SubChannelSender)
        requires
            old(sources).wf(),
            !old(sources).exhausted(),
        ensures
            final(sources).wf(),
            !old(sources)@.contains_key(sender.sender_id),
            final(sources)@ == old(sources)@.insert(sender.sender_id, Set::empty()),
            sender == (SubChannelSender {
                sub_channel_id,
                ipc_sender,
                disconnector,
                ipc_sender_uuid,
                sender_id: sender.sender_id,
                multi_sender,
            }),
    {
        let sender_id: SourceId = sources.open();
        SubChannelSender {
            sub_channel_id,
            ipc_sender,
            disconnector,
            ipc_sender_uuid,
            sender_id,
            multi_sender,
        }
    }

    /// The id of the subchannel.
    pub fn sub_channel_id(&self) -> (id: SubChannelId)
        ensures
            id == self.sub_channel_id,
    {
        self.sub_channel_id
    }

    /// Puts this sender in the message that is being encoded. What the message
    /// itself gets is returned.
    pub fn serialize(&self, context: &mut SerializationContext) -> (ids: SubChannelSenderIds)
        ensures
            final(context).senders@ == old(context).senders@.push(
                SerializedSenderContext {
                    sub_channel_id: self.sub_channel_id,
                    ipc_sender_uuid: self.ipc_sender_uuid,
                    ipc_sender: self.ipc_sender,
                    sender_id: self.sender_id,
                },
            ),
            final(context).regions == old(context).regions,
            final(context).ipc_senders == old(context).ipc_senders,
            final(context).ipc_receivers == old(context).ipc_receivers,
            ids.sub_channel_id == self.sub_channel_id,
            ids.ipc_sender_uuid@ == hyphenated(self.ipc_sender_uuid),
    {
        context.senders.capture(
            SerializedSenderContext {
                sub_channel_id: self.sub_channel_id,
                ipc_sender_uuid: self.ipc_sender_uuid,
                ipc_sender: Arc::clone(&self.ipc_sender),
                sender_id: self.sender_id,
            },
        );
        SubChannelSenderIds::new(self.sub_channel_id, uuid_text(self.ipc_sender_uuid))
    }

    /// Gets ready to encode a message, unless the receiver of the subchannel
    /// has disconnected.
    pub fn prepare(
        &self,
        channel: &mut MultiSender,
        events: &Vec<ResponseEvent>,
        context: &mut SerializationContext,
    ) -> (ready: Result<(), MuxError>)
        ensures
            final(channel)@ == old(channel)@.drained(events@),
            (match ready {
                Ok(()) => {
                    &&& final(channel)@.receiver_connected(self.sub_channel_id)
                    &&& final(context).is_clear()
                },
                Err(e) => {
                    &&& !final(channel)@.receiver_connected(self.sub_channel_id)
                    &&& e == MuxError::Disconnected
                    &&& *final(context) == *old(context)
                },
            }),
    {
        if !channel.is_receiver_connected(self.sub_channel_id, events) {
            return Err(MuxError::Disconnected);
        }
        clear_serialization_context(context);
        clear_shmem_serialization_context(&mut context.regions);
        clear_ipc_sender_serialization_context(&mut context.ipc_senders);
        clear_ipc_receiver_serialization_context(&mut context.ipc_receivers);
        Ok(())
    }

    /// What it takes to send an encoded message with the given subsenders and
    /// attachments, given which IPC senders have been sent before: those are
    /// named by just their UUIDs, and all others by themselves too.
    pub fn plan_given(
        &self,
        payload: Vec<u8>,
        contexts: &Vec<SerializedSenderContext>,
        attachments: Attachments,
        sent: &SentBefore,
    ) -> (plan: SendPlan)
        requires
            sent.carriers@.len() == contexts@.len(),
            sent.carried@.len() == contexts@.len(),
        ensures
            plan.data.to == self.ipc_sender,
            (match plan.data.message {
                MultiMessage::Data(scid, bytes, senders, beside) => {
                    &&& scid == self.sub_channel_id
                    &&& bytes == payload
                    &&& beside == attachments
                    &&& senders@.len() == contexts@.len()
                    &&& plan.notifications@.len() == contexts@.len()
                    &&& forall|i: int|
                        #![trigger senders@[i]]
                        0 <= i < senders@.len() ==> notifies_given(
                            plan.notifications@[i],
                            senders@[i],
                            *self,
                            contexts@[i],
                            sent.carriers@[i],
                            sent.carried@[i],
                        )
                },
                _ => false,
            }),
    {
        let mut notifications: Vec<Outgoing> = Vec::new();
        let mut senders: Vec<(SubChannelId, IpcSenderAndOrId)> = Vec::new();
        let mut i: usize = 0;
        while i < contexts.len()
            invariant
                i <= contexts.len(),
                sent.carriers@.len() == contexts@.len(),
                sent.carried@.len() == contexts@.len(),
                notifications@.len() == i,
                senders@.len() == i,
                forall|j: int|
                    #![trigger senders@[j]]
                    0 <= j < i ==> notifies_given(
                        notifications@[j],
                        senders@[j],
                        *self,
                        contexts@[j],
                        sent.carriers@[j],
                        sent.carried@[j],
                    ),
            decreases contexts.len() - i,
        {
            let context: &SerializedSenderContext = &contexts[i];
            notifications.push(
                Outgoing {
                    to: Arc::clone(&context.ipc_sender),
                    message: MultiMessage::Sending {
                        scid: context.sub_channel_id,
                        via: self.sub_channel_id,
                        via_chan: ipc_sender_and_or_uuid(
                            sent.carriers[i],
                            &self.ipc_sender,
                            self.ipc_sender_uuid,
                        ),
                    },
                },
            );
            senders.push(
                (
                    context.sub_channel_id,
                    ipc_sender_and_or_uuid(
                        sent.carried[i],
                        &context.ipc_sender,
                        context.ipc_sender_uuid,
                    ),
                ),
            );
            i += 1;
        }
        SendPlan {
            notifications,
            data: Outgoing {
                to: Arc::clone(&self.ipc_sender),
                message: MultiMessage::Data(self.sub_channel_id, payload, senders, attachments),
            },
        }
    }

    /// Records that the given subsenders and their IPC senders are sent, and
    /// tells which IPC senders have been sent before.
    fn record_sent(&self, contexts: &Vec<SerializedSenderContext>, sources: &mut SourceTable) -> (sent:
        SentBefore)
        requires
            old(sources).wf(),
        ensures
            final(sources).wf(),
            final(sources).exhausted() == old(sources).exhausted(),
            final(sources)@ == sources_after(old(sources)@, *self, contexts@),
            sent.carriers@.len() == contexts@.len(),
            sent.carried@.len() == contexts@.len(),
            forall|i: int|
                #![trigger contexts@[i]]
                0 <= i < contexts@.len() ==> sent_before(
                    sent.carriers@[i],
                    sent.carried@[i],
                    *self,
                    old(sources)@,
                    contexts@,
                    i,
                ),
    {
        let mut carriers: Vec<bool> = Vec::new();
        let mut carried: Vec<bool> = Vec::new();
        assert(contexts@.take(0) =~= Seq::<SerializedSenderContext>::empty());
        let mut i: usize = 0;
        while i < contexts.len()
            invariant
                i <= contexts.len(),
                sources.wf(),
                sources.exhausted() == old(sources).exhausted(),
                sources@ == sources_after(old(sources)@, *self, contexts@.take(i as int)),
                carriers@.len() == i,
                carried@.len() == i,
                forall|j: int|
                    #![trigger contexts@[j]]
                    0 <= j < i ==> sent_before(
                        carriers@[j],
                        carried@[j],
                        *self,
                        old(sources)@,
                        contexts@,
                        j,
                    ),
            decreases contexts.len() - i,
        {
            let context: &SerializedSenderContext = &contexts[i];
            let carrier_sent: bool = sources.insert(context.sender_id, &self.ipc_sender);
            let carried_sent: bool = sources.insert(self.sender_id, &context.ipc_sender);
            carriers.push(carrier_sent);
            carried.push(carried_sent);
            proof {
                let now = contexts@.take(i + 1);
                assert(now.drop_last() =~= contexts@.take(i as int));
                assert(now.last() == contexts@[i as int]);
            }
            i += 1;
        }
        assert(contexts@.take(contexts@.len() as int) =~= contexts@);
        SentBefore { carriers, carried }
    }

    /// What it takes to send an encoded message with all that was kept beside
    /// it.
    pub fn send(
        &self,
        payload: Vec<u8>,
        context: &mut SerializationContext,
        sources: &mut SourceTable,
    ) -> (plan: SendPlan)
        requires
            old(sources).wf(),
        ensures
            final(sources).wf(),
            final(sources).exhausted() == old(sources).exhausted(),
            final(sources)@ == sources_after(old(sources)@, *self, old(context).senders@),
            final(context).is_clear(),
            plan.data.to == self.ipc_sender,
            (match plan.data.message {
                MultiMessage::Data(scid, bytes, senders, attachments) => {
                    &&& scid == self.sub_channel_id
                    &&& bytes == payload
                    &&& senders@.len() == old(context).senders@.len()
                    &&& plan.notifications@.len() == senders@.len()
                    &&& forall|i: int|
                        #![trigger senders@[i]]
                        0 <= i < senders@.len() ==> notifies(
                            plan.notifications@[i],
                            senders@[i],
                            *self,
                            old(sources)@,
                            old(context).senders@,
                            i,
                        )
                    &&& attachments.shmems@ == old(context).regions@
                    &&& attachments.ipc_senders@ == old(context).ipc_senders@
                    &&& attachments.ipc_receivers@ == old(context).ipc_receivers@
                },
                _ => false,
            }),
    {
        let shmems = take_shmems_for_send(&mut context.regions);
        let ipc_senders: Vec<OpaqueIpcSender> = take_ipc_senders_for_send(&mut context.ipc_senders);
        let ipc_receivers: Vec<OpaqueIpcReceiver> = take_ipc_receivers_for_send(
            &mut context.ipc_receivers,
        );
        let contexts: Vec<SerializedSenderContext> = take_serialization_context(context);
        let sent = self.record_sent(&contexts, sources);
        let plan = self.plan_given(
            payload,
            &contexts,
            Attachments { shmems, ipc_senders, ipc_receivers },
            &sent,
        );
        proof {
            let senders = plan.data.message->Data_2@;
            assert forall|i: int| #![trigger senders[i]] 0 <= i < senders.len() implies notifies(
                plan.notifications@[i],
                senders[i],
                *self,
                old(sources)@,
                contexts@,
                i,
            ) by {
                assert(sent_before(
                    sent.carriers@[i],
                    sent.carried@[i],
                    *self,
                    old(sources)@,
                    contexts@,
                    i,
                ));
            }
        }
        plan
    }

    /// Extracts what is needed to reconstruct this sender in another process,
    /// given a new keepalive channel or none.
    ///
    /// The receiver is notified that a copy is in flight: with the keepalive
    /// receiver, so that it can detect a crash of the other process, or as sent
    /// via no subchannel.
    pub fn begin_ipc_channel_transport(
        self,
        keepalive: Option<(OpaqueIpcSender, OpaqueIpcReceiver)>,
    ) -> (begun: (Outgoing, TransportPlan))
        ensures
            begun.0.to == self.ipc_sender,
            (match keepalive {
                Some((_, receiver)) => begun.0.message == MultiMessage::SendingViaIpcChannel {
                    scid: self.sub_channel_id,
                    keepalive: receiver,
                },
                None => {
                    &&& begun.0.message matches MultiMessage::Sending {
                        scid,
                        via,
                        via_chan,
                    }
                    &&& scid == self.sub_channel_id
                    &&& via.0 == EMPTY_SUBCHANNEL_ID
                    &&& via_chan@ == IpcSenderAndOrIdView::IpcSender(
                        self.ipc_sender.handle,
                        hyphenated(self.ipc_sender_uuid),
                    )
                },
            }),
            begun.1.parts == (IpcChannelTransportParts {
                sub_channel_id: self.sub_channel_id,
                ipc_sender: self.ipc_sender,
                ipc_sender_uuid: self.ipc_sender_uuid,
                keepalive: match keepalive {
                    Some((sender, _)) => Some(sender),
                    None => None,
                },
            }),
            begun.1.disconnector == self.disconnector,
    {
        let mut keepalive_sender: Option<OpaqueIpcSender> = None;
        let message: MultiMessage = match keepalive {
            Some((sender, receiver)) => {
                keepalive_sender = Some(sender);
                MultiMessage::SendingViaIpcChannel { scid: self.sub_channel_id, keepalive: receiver }
            },
            None => MultiMessage::Sending {
                scid: self.sub_channel_id,
                via: SubChannelId(EMPTY_SUBCHANNEL_ID),
                via_chan: ipc_sender_and_or_uuid(false, &self.ipc_sender, self.ipc_sender_uuid),
            },
        };
        let notification = Outgoing { to: Arc::clone(&self.ipc_sender), message };
        let plan = TransportPlan {
            parts: IpcChannelTransportParts {
                sub_channel_id: self.sub_channel_id,
                ipc_sender: self.ipc_sender,
                ipc_sender_uuid: self.ipc_sender_uuid,
                keepalive: keepalive_sender,
            },
            disconnector: self.disconnector,
        };
        (notification, plan)
    }
}

impl TransportPlan {
    /// What comes of a transport once the receiver has been notified or could
    /// not be, and what is to be let go of. With a keepalive channel, only the
    /// detection of a crash depends on the notification.
    pub fn notified(self, sent: Result<(), IpcError>) -> (outcome: (
        Result<IpcChannelTransportParts, MuxError>,
        Arc<SubChannelDisconnector>,
    ))
        ensures
            outcome.0 == (match sent {
                Err(e) if self.parts.keepalive is None => Err(mux_error(e)),
                _ => Ok(self.parts),
            }),
            outcome.1 == self.disconnector,
    {
        let parts = match sent {
            Ok(()) => Ok(self.parts),
            Err(e) => {
                if self.parts.keepalive.is_some() {
                    Ok(self.parts)
                } else {
                    Err(MuxError::from(e))
                }
            },
        };
        (parts, self.disconnector)
    }
}

/// A channel that has been found to be disconnected stays so, and no receiver
/// behind it is connected.
pub proof fn law_disconnected_channel_stays_disconnected(
    state: MultiSenderView,
    events: Seq<ResponseEvent>,
    scid: SubChannelId,
)
    requires
        state.disconnected,
    ensures
        state.drained(events) == state,
        !state.drained(events).receiver_connected(scid),
{
}

/// A receiver that is known to have disconnected stays so, whatever is read
/// from the response channel later.
pub proof fn law_disconnected_receiver_stays_disconnected(
    state: MultiSenderView,
    events: Seq<ResponseEvent>,
    scid: SubChannelId,
)
    requires
        !state.receiver_connected(scid),
    ensures
        !state.drained(events).receiver_connected(scid),
    decreases events.len(),
{
    if !(state.disconnected || state.response_receiver is None || events.len() == 0) {
        match events[0] {
            ResponseEvent::Response(response) => {
                law_disconnected_receiver_stays_disconnected(
                    state.told(response),
                    events.drop_first(),
                    scid,
                );
            },
            _ => {},
        }
    }
}

/// A sender that watches over a receiver learns of its disconnection from the
/// response channel, with all that is read before the news, so that the next
/// message is refused.
pub proof fn law_sender_learns_of_disconnection(
    state: MultiSenderView,
    events: Seq<ResponseEvent>,
    n: int,
    scid: SubChannelId,
)
    requires
        state.response_receiver is Some,
        state.proxies.contains_key(scid.0),
        0 <= n < events.len(),
        events[n] == ResponseEvent::Response(MultiResponse::SubReceiverDisconnected(scid)),
        forall|i: int| 0 <= i < n ==> (#[trigger] events[i]) is Response,
    ensures
        !state.drained(events).receiver_connected(scid),
    decreases n,
{
    if !state.disconnected {
        let response = events[0]->Response_0;
        let rest = events.drop_first();
        if n == 0 {
            law_disconnected_receiver_stays_disconnected(state.told(response), rest, scid);
        } else {
            assert(events[0] is Response);
            assert(rest[n - 1] == events[n]);
            assert forall|i: int| 0 <= i < n - 1 implies (#[trigger] rest[i]) is Response by {
                assert(rest[i] == events[i + 1]);
            }
            law_sender_learns_of_disconnection(state.told(response), rest, n - 1, scid);
        }
    }
}

/// The disconnection of the receiver of one subchannel does not disconnect
/// another subchannel of the same channel.
pub proof fn law_receivers_disconnect_independently(
    state: MultiSenderView,
    events: Seq<ResponseEvent>,
    scid: SubChannelId,
)
    requires
        forall|i: int|
            #![trigger events[i]]
            0 <= i < events.len() ==> {
                &&& !(events[i] is IpcError)
                &&& events[i] != ResponseEvent::Response(
                    MultiResponse::SubReceiverDisconnected(scid),
                )
            },
    ensures
        state.drained(events).receiver_connected(scid) == state.receiver_connected(scid),
    decreases events.len(),
{
    if !(state.disconnected || state.response_receiver is None || events.len() == 0) {
        let first = events[0];
        match first {
            ResponseEvent::Response(response) => {
                let rest = events.drop_first();
                assert forall|i: int| #![trigger rest[i]] 0 <= i < rest.len() implies {
                    &&& !(rest[i] is IpcError)
                    &&& rest[i] != ResponseEvent::Response(
                        MultiResponse::SubReceiverDisconnected(scid),
                    )
                } by {
                    assert(rest[i] == events[i + 1]);
                }
                law_receivers_disconnect_independently(state.told(response), rest, scid);
            },
            _ => {},
        }
    }
}

/// The first time that a source sends an IPC sender, the message holds the
/// sender itself.
pub proof fn law_first_naming_carries_sender(
    named: IpcSenderAndOrIdView,
    handle: u64,
    uuid: Uuid,
    sent: Map<SourceId, Set<u64>>,
    source: SourceId,
)
    requires
        names_sender(named, handle, uuid, sent, source),
        !(sent.contains_key(source) && sent[source].contains(handle)),
    ensures
        named == IpcSenderAndOrIdView::IpcSender(handle, hyphenated(uuid)),
{
}

} // verus!
