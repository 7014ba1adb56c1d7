//! What the sending end of a channel whose senders are counted learns, what it
//! sends, and what it remembers of it.

use crate::multiplex::counted::channel::{
    multi_channel, Channel, OneShotMultiServer, SubOneShotServer, SubReceiver, SubSender,
};
use crate::multiplex::counted::error::{multiplex_error, MultiplexError, MultiplexErrorView};
use crate::multiplex::counted::protocol::MultiMessage;
use crate::multiplex::counted::receiver::{ConnectOutcome, MultiReceiver, ReceptionContext};
use crate::multiplex::counted::sender::{
    dropped, sources_notified, MultiSender, MultiSenderView, Outgoing, SendPlan, SubChannelSender,
    TransmissionContext,
};
use crate::multiplex::receiver::PayloadMailboxes;
use crate::multiplex::sender::{names_given, sources_after};
use crate::mux::error::IpcError;
use crate::mux::mailbox::MailboxId;
use crate::mux::protocol::{
    ClientId, IpcSenderAndOrId, MultiResponse, ResponseReceiver, ResponseSender, SubChannelId,
    SubChannelSenderIds,
};
use crate::mux::sender::{
    sources_with, MultiSenderId, ResponseEvent, SourceId, SourceTable, SubChannelDisconnector,
};
use crate::mux::sender_id::ForwardSender;
use crate::mux::sending::{has_new_source, is_name, responses_up_to, tells_of};
use crate::mux::subchannel_lifecycle::SubReceiverProxy;
use crate::mux::uuids::{hyphenated, Uuid};
use std::collections::VecDeque;
use std::sync::Arc;
use vstd::prelude::*;

verus! {

/// What has been read from a response channel has been taken in: each receiver
/// that is watched over and was reported to have disconnected has, and no other
/// has. Nothing else changes.
pub open spec fn takes_in(
    before: MultiSenderView,
    events: Seq<ResponseEvent>,
    n: int,
    after: MultiSenderView,
) -> bool {
    &&& after.client_id == before.client_id
    &&& after.ipc_sender == before.ipc_sender
    &&& after.uuid == before.uuid
    &&& after.sender_id == before.sender_id
    &&& after.response_receiver == before.response_receiver
    &&& forall|scid: Uuid| #[trigger]
        after.proxies.contains_key(scid) == before.proxies.contains_key(scid)
    &&& forall|scid: Uuid| #[trigger]
        after.proxies.contains_key(scid) ==> after.proxies[scid] == (before.proxies[scid]
            || tells_of(events, n, scid))
}

proof fn lemma_drained(before: MultiSenderView, events: Seq<ResponseEvent>, n: int)
    requires
        responses_up_to(events, n),
    ensures
        takes_in(before, events, n, before.drained(events)),
    decreases events.len(),
{
    let after = before.drained(events);
    if events.len() > 0 {
        match events[0] {
            ResponseEvent::Response(response) => {
                assert(n > 0);
                let rest = events.drop_first();
                assert forall|i: int| #![trigger rest[i]] 0 <= i < n - 1 implies rest[i]
                    is Response by {
                    assert(rest[i] == events[i + 1]);
                }
                if n < events.len() {
                    assert(rest[n - 1] == events[n]);
                }
                let told = before.told(response);
                lemma_drained(told, rest, n - 1);
                assert forall|scid: Uuid| #[trigger]
                    tells_of(events, n, scid) == (tells_of(rest, n - 1, scid) || response
                        == MultiResponse::SubReceiverDisconnected(SubChannelId(scid))) by {
                    if tells_of(events, n, scid) {
                        let i = choose|i: int|
                            0 <= i < n && #[trigger] events[i] == ResponseEvent::Response(
                                MultiResponse::SubReceiverDisconnected(SubChannelId(scid)),
                            );
                        if i > 0 {
                            assert(rest[i - 1] == events[i]);
                        }
                    }
                    if tells_of(rest, n - 1, scid) {
                        let i = choose|i: int|
                            0 <= i < n - 1 && #[trigger] rest[i] == ResponseEvent::Response(
                                MultiResponse::SubReceiverDisconnected(SubChannelId(scid)),
                            );
                        assert(events[i + 1] == rest[i]);
                    }
                    if response == MultiResponse::SubReceiverDisconnected(SubChannelId(scid)) {
                        assert(events[0] == ResponseEvent::Response(response));
                    }
                }
                assert forall|scid: Uuid| #[trigger] after.proxies.contains_key(scid)
                    implies after.proxies[scid] == (before.proxies[scid] || tells_of(
                    events,
                    n,
                    scid,
                )) by {
                    assert(told.proxies.contains_key(scid));
                    assert(SubChannelId(scid).0 == scid);
                    match response {
                        MultiResponse::SubReceiverDisconnected(of) => {
                            assert(of == SubChannelId(of.0));
                        },
                    }
                }
            },
            _ => {
                assert(n == 0) by {
                    if n > 0 {
                        assert(events[0] is Response);
                    }
                }
            },
        }
    }
    if n == 0 {
        assert forall|scid: Uuid| !#[trigger] tells_of(events, n, scid) by {}
    }
}

/// What is read from the response channel is taken in up to the point where
/// nothing more was to be read. A receiver is connected unless it is watched
/// over and has been reported to have disconnected. A message to a subchannel is
/// refused if and only if its receiver is not connected. Otherwise nothing is
/// left beside the message from an earlier one.
pub proof fn law_disconnected_sender_refuses(
    asked: &mut MultiSender,
    scid: SubChannelId,
    connected: bool,
    sender: &SubChannelSender,
    channel: &mut MultiSender,
    events: &Vec<ResponseEvent>,
    context: &mut TransmissionContext,
    ready: Result<(), MultiplexError>,
    n: int,
)
    requires
        responses_up_to(events@, n),
        call_ensures(MultiSender::is_receiver_connected, (asked, scid, events), connected),
        call_ensures(SubChannelSender::prepare, (sender, channel, events, context), ready),
    ensures
        takes_in(old(asked)@, events@, n, final(asked)@),
        connected <==> (final(asked)@.proxies.contains_key(scid.0)
            ==> !final(asked)@.proxies[scid.0]),
        takes_in(old(channel)@, events@, n, final(channel)@),
        ready is Ok <==> (final(channel)@.proxies.contains_key(sender.sub_channel_id.0)
            ==> !final(channel)@.proxies[sender.sub_channel_id.0]),
        ready is Ok ==> final(context).senders@.len() == 0 && final(context).serialized@.len() == 0,
        ready matches Err(e) ==> e == MultiplexError::Disconnected && *final(context) == *old(
            context,
        ),
{
    lemma_drained(old(asked)@, events@, n);
    lemma_drained(old(channel)@, events@, n);
}

/// When all copies of a subsender are gone from a source, and when a subsender
/// disconnects there, the receiver of its subchannel is told so, and of which
/// source.
pub proof fn law_receiver_is_told_of_the_last_drop(
    disconnector: &SubChannelDisconnector,
    told: Outgoing,
    sender: &SubChannelSender,
    origin: Uuid,
    disconnected: Outgoing,
)
    requires
        call_ensures(dropped, (disconnector,), told),
        call_ensures(SubChannelSender::disconnect, (sender, origin), disconnected),
    ensures
        told.to == disconnector.ipc_sender,
        told.message == MultiMessage::Disconnect(disconnector.sub_channel_id, disconnector.source),
        disconnected.to == sender.ipc_sender,
        disconnected.message == MultiMessage::Disconnect(sender.sub_channel_id, origin),
{
}

/// The sending end of a channel that was created here, or of one whose sender
/// was received, is known by the given UUID, watches over no receiver yet, and
/// has a source of its own that has sent nothing.
pub open spec fn is_connected_sender(
    sender: MultiSenderView,
    client_id: ClientId,
    ipc_sender: ForwardSender,
    uuid: Uuid,
    response_receiver: ResponseReceiver,
    sources: Map<SourceId, Set<u64>>,
    sources_after: Map<SourceId, Set<u64>>,
) -> bool {
    &&& sender.client_id == client_id
    &&& sender.ipc_sender == ipc_sender
    &&& sender.uuid == uuid
    &&& sender.response_receiver == response_receiver
    &&& forall|scid: Uuid| !#[trigger] sender.proxies.contains_key(scid)
    &&& has_new_source(sender.sender_id, sources, sources_after)
}

/// The sending end of a new channel is connected. That of a channel whose sender
/// was received is if and only if a response channel could be created and the
/// client be registered. The first failure is the one that is told, and changes
/// nothing.
pub proof fn law_sender_is_connected(
    ipc_sender: Arc<ForwardSender>,
    uuid: Uuid,
    client_id: ClientId,
    response_receiver: ResponseReceiver,
    created_sources: &mut SourceTable,
    created: MultiSender,
    response_channel: Result<ResponseReceiver, IpcError>,
    registered: Result<(), IpcError>,
    sources: &mut SourceTable,
    connected: Result<MultiSender, MultiplexError>,
)
    requires
        call_ensures(
            MultiSender::new,
            (client_id, ipc_sender, uuid, response_receiver, created_sources),
            created,
        ),
        call_ensures(
            MultiSender::connect_sender,
            (ipc_sender, uuid, client_id, response_channel, registered, sources),
            connected,
        ),
    ensures
        is_connected_sender(
            created@,
            client_id,
            *ipc_sender,
            uuid,
            response_receiver,
            old(created_sources)@,
            final(created_sources)@,
        ),
        connected is Ok <==> response_channel is Ok && registered is Ok,
        connected matches Ok(sender) ==> is_connected_sender(
            sender@,
            client_id,
            *ipc_sender,
            uuid,
            response_channel->Ok_0,
            old(sources)@,
            final(sources)@,
        ),
        connected is Err ==> final(sources)@ == old(sources)@,
        response_channel matches Err(e) ==> connected == Err::<MultiSender, MultiplexError>(
            multiplex_error(e),
        ),
        response_channel is Ok ==> (registered matches Err(e) ==> connected == Err::<
            MultiSender,
            MultiplexError,
        >(multiplex_error(e))),
{
}

/// A client is registered and a subchannel announced over the IPC channel of the
/// sending end.
pub proof fn law_messages_go_to_the_other_end(
    sender: &MultiSender,
    ipc_sender: &Arc<ForwardSender>,
    response_sender: ResponseSender,
    client_id: ClientId,
    connect: Outgoing,
    scid: SubChannelId,
    name: String,
    announced: Outgoing,
    copy: Arc<ForwardSender>,
    responses: ResponseReceiver,
)
    requires
        call_ensures(
            MultiSender::connect_message,
            (ipc_sender, response_sender, client_id),
            connect,
        ),
        call_ensures(MultiSender::notify_sub_channel, (sender, scid, name), announced),
        call_ensures(MultiSender::clone_ipc_sender, (sender,), copy),
        call_ensures(MultiSender::responses, (sender,), responses),
    ensures
        connect.to == *ipc_sender,
        connect.message == MultiMessage::Connect(response_sender, client_id),
        *announced.to == sender@.ipc_sender,
        announced.message == MultiMessage::SubChannelId(scid, name),
        copy.handle == sender@.ipc_sender.handle,
        responses == sender@.response_receiver,
{
}

/// The receiver of a subchannel that is watched over is as connected as its
/// proxy says. What is known of other receivers stays.
pub proof fn law_watched_receiver_is_known(
    channel: &mut MultiSender,
    scid: SubChannelId,
    proxy: SubReceiverProxy,
)
    requires
        call_ensures(MultiSender::insert_sub_receiver_proxy, (channel, scid, proxy), ()),
    ensures
        final(channel)@.proxies.contains_key(scid.0),
        final(channel)@.proxies[scid.0] == proxy@,
        forall|other: Uuid|
            #![trigger old(channel)@.proxies.contains_key(other)]
            #![trigger final(channel)@.proxies.contains_key(other)]
            other != scid.0 ==> {
                &&& final(channel)@.proxies.contains_key(other)
                    == old(channel)@.proxies.contains_key(other)
                &&& old(channel)@.proxies.contains_key(other) ==> final(channel)@.proxies[other]
                    == old(channel)@.proxies[other]
            },
        final(channel)@.client_id == old(channel)@.client_id,
        final(channel)@.ipc_sender == old(channel)@.ipc_sender,
        final(channel)@.uuid == old(channel)@.uuid,
        final(channel)@.sender_id == old(channel)@.sender_id,
        final(channel)@.response_receiver == old(channel)@.response_receiver,
{
}

/// A subsender of a new subchannel sends over the channel that it was created
/// on, and tells of the drop of its last copy as the source where it was
/// created.
pub open spec fn is_subsender_of(
    sender: SubChannelSender,
    channel: MultiSenderView,
    id: MultiSenderId,
    origin: Uuid,
) -> bool {
    &&& *sender.ipc_sender == channel.ipc_sender
    &&& sender.ipc_sender_uuid == channel.uuid
    &&& sender.sender_id == channel.sender_id
    &&& sender.multi_sender == id
    &&& sender.disconnector.sub_channel_id == sender.sub_channel_id
    &&& *sender.disconnector.ipc_sender == channel.ipc_sender
    &&& sender.disconnector.source == origin
    &&& sender.disconnector.multi_sender == id
}

/// A subsender belongs to the channel that it was created on. One that connects
/// to a one-shot server announces its subchannel there under the given name. A
/// copy of a subsender is like it.
pub proof fn law_new_subsender_is_of_its_channel<T>(
    channel: &MultiSender,
    id: MultiSenderId,
    origin: Uuid,
    sender: SubChannelSender,
    name: String,
    connected: (SubSender<T>, Outgoing),
    scid: SubChannelId,
    copy: SubChannelSender,
)
    requires
        call_ensures(SubChannelSender::new, (channel, id, origin), sender),
        call_ensures(SubSender::<T>::connect, (channel, id, origin, name), connected),
        call_ensures(SubChannelSender::sub_channel_id, (&sender,), scid),
        call_ensures(SubChannelSender::clone, (&sender,), copy),
    ensures
        is_subsender_of(sender, channel@, id, origin),
        is_subsender_of(connected.0.sub_channel_sender, channel@, id, origin),
        *connected.1.to == channel@.ipc_sender,
        connected.1.message == MultiMessage::SubChannelId(
            connected.0.sub_channel_sender.sub_channel_id,
            name,
        ),
        scid == sender.sub_channel_id,
        copy == sender,
{
}

/// A subsender that is put in a message is kept beside it, after those that were
/// put there before, with what identifies its subchannel and its channel. The
/// message itself holds its ids.
pub proof fn law_subsender_is_kept_beside_the_message(
    sender: &SubChannelSender,
    context: &mut TransmissionContext,
    ids: SubChannelSenderIds,
)
    requires
        call_ensures(SubChannelSender::serialize, (sender, context), ids),
    ensures
        final(context).senders@.len() == old(context).senders@.len() + 1,
        forall|i: int|
            #![trigger final(context).senders@[i]]
            0 <= i < old(context).senders@.len() ==> final(context).senders@[i]
                == old(context).senders@[i],
        final(context).senders@.last().0 == sender.ipc_sender_uuid,
        final(context).senders@.last().1 == sender.ipc_sender,
        final(context).serialized@.len() == old(context).serialized@.len() + 1,
        forall|i: int|
            #![trigger final(context).serialized@[i]]
            0 <= i < old(context).serialized@.len() ==> final(context).serialized@[i]
                == old(context).serialized@[i],
        final(context).serialized@.last().0 == sender.sub_channel_id,
        final(context).serialized@.last().1 == sender.ipc_sender,
        final(context).serialized@.last().2 == sender.sender_id,
        ids.sub_channel_id == sender.sub_channel_id,
        ids.ipc_sender_uuid@ == hyphenated(sender.ipc_sender_uuid),
{
}

/// For each subsender in a message, in order, the receiver of the subsender's
/// subchannel is told, over the subsender's own channel, that a copy is being
/// sent, from which source and over which subchannel. The channel that carries
/// the message is named by itself only if it has not been sent there before.
pub proof fn law_subsenders_are_announced(
    carrier: &SubChannelSender,
    serialized: &Vec<(SubChannelId, Arc<ForwardSender>, SourceId)>,
    origin: Uuid,
    sent: &Vec<bool>,
    notifications: Vec<Outgoing>,
    i: int,
)
    requires
        call_ensures(
            SubChannelSender::notifications_given,
            (carrier, serialized, origin, sent),
            notifications,
        ),
        0 <= i < serialized@.len(),
    ensures
        notifications@.len() == serialized@.len(),
        notifications@[i].to == serialized@[i].1,
        notifications@[i].message matches MultiMessage::Sending { scid, from, via, via_chan } && {
            &&& scid == serialized@[i].0
            &&& from == origin
            &&& via == carrier.sub_channel_id
            &&& is_name(
                via_chan,
                carrier.ipc_sender.handle,
                carrier.ipc_sender_uuid,
                sent@[i],
            )
        },
{
    assert(notifications@[i] == notifications@[i]);
}

/// The IPC senders that go beside a message are named in order, each by itself
/// only if it has not been sent before.
pub proof fn law_senders_are_named_in_order(
    senders: &Vec<(Uuid, Arc<ForwardSender>)>,
    sent: &Vec<bool>,
    named: Vec<IpcSenderAndOrId>,
    i: int,
)
    requires
        call_ensures(names_given, (senders, sent), named),
        0 <= i < senders@.len(),
    ensures
        named@.len() == senders@.len(),
        is_name(named@[i], senders@[i].1.handle, senders@[i].0, sent@[i]),
{
    assert(named@[i] == named@[i]);
}

/// A source sends the IPC sender that carries a message that holds one of its
/// subsenders.
pub open spec fn is_told_of(
    carrier: u64,
    serialized: Seq<(SubChannelId, Arc<ForwardSender>, SourceId)>,
    source: SourceId,
    handle: u64,
) -> bool {
    handle == carrier && exists|i: int|
        0 <= i < serialized.len() && (#[trigger] serialized[i]).2 == source
}

/// A source sends the IPC senders that go beside a message.
pub open spec fn is_sent_by(
    own: SourceId,
    senders: Seq<(Uuid, Arc<ForwardSender>)>,
    source: SourceId,
    handle: u64,
) -> bool {
    source == own && exists|i: int|
        0 <= i < senders.len() && (#[trigger] senders[i]).1.handle == handle
}

proof fn lemma_sources_notified(
    sources: Map<SourceId, Set<u64>>,
    carrier: u64,
    serialized: Seq<(SubChannelId, Arc<ForwardSender>, SourceId)>,
)
    ensures
        sources_notified(sources, carrier, serialized).dom() == sources.dom(),
        forall|source: SourceId, handle: u64|
            #![trigger sources_notified(sources, carrier, serialized)[source].contains(handle)]
            sources.contains_key(source) ==> sources_notified(
                sources,
                carrier,
                serialized,
            )[source].contains(handle) == (sources[source].contains(handle) || is_told_of(
                carrier,
                serialized,
                source,
                handle,
            )),
    decreases serialized.len(),
{
    let after = sources_notified(sources, carrier, serialized);
    if serialized.len() > 0 {
        let earlier = serialized.drop_last();
        let n = serialized.len() - 1;
        lemma_sources_notified(sources, carrier, earlier);
        let before = sources_notified(sources, carrier, earlier);
        assert(after == sources_with(before, serialized[n].2, carrier));
        assert(after.dom() =~= before.dom());
        assert forall|source: SourceId, handle: u64|
            #![trigger after[source].contains(handle)]
            sources.contains_key(source) implies after[source].contains(handle) == (
        sources[source].contains(handle) || is_told_of(carrier, serialized, source, handle)) by {
            assert(before[source].contains(handle) == (sources[source].contains(handle)
                || is_told_of(carrier, earlier, source, handle)));
            assert(before.dom().contains(source));
            if is_told_of(carrier, earlier, source, handle) {
                let i = choose|i: int|
                    0 <= i < earlier.len() && (#[trigger] earlier[i]).2 == source;
                assert(serialized[i].2 == source);
            }
            if is_told_of(carrier, serialized, source, handle) {
                let i = choose|i: int|
                    0 <= i < serialized.len() && (#[trigger] serialized[i]).2 == source;
                if i < n {
                    assert(earlier[i].2 == source);
                }
            }
            if serialized[n].2 == source && handle == carrier {
                assert(is_told_of(carrier, serialized, source, handle));
            }
        }
    } else {
        assert forall|source: SourceId, handle: u64| !#[trigger]
            is_told_of(carrier, serialized, source, handle) by {}
    }
}

pub(crate) proof fn lemma_sources_after(
    sources: Map<SourceId, Set<u64>>,
    own: SourceId,
    senders: Seq<(Uuid, Arc<ForwardSender>)>,
)
    ensures
        sources_after(sources, own, senders).dom() == sources.dom(),
        forall|source: SourceId, handle: u64|
            #![trigger sources_after(sources, own, senders)[source].contains(handle)]
            sources.contains_key(source) ==> sources_after(
                sources,
                own,
                senders,
            )[source].contains(handle) == (sources[source].contains(handle) || is_sent_by(
                own,
                senders,
                source,
                handle,
            )),
    decreases senders.len(),
{
    let after = sources_after(sources, own, senders);
    if senders.len() > 0 {
        let earlier = senders.drop_last();
        let n = senders.len() - 1;
        lemma_sources_after(sources, own, earlier);
        let before = sources_after(sources, own, earlier);
        assert(after == sources_with(before, own, senders[n].1.handle));
        assert(after.dom() =~= before.dom());
        assert forall|source: SourceId, handle: u64|
            #![trigger after[source].contains(handle)]
            sources.contains_key(source) implies after[source].contains(handle) == (
        sources[source].contains(handle) || is_sent_by(own, senders, source, handle)) by {
            assert(before[source].contains(handle) == (sources[source].contains(handle)
                || is_sent_by(own, earlier, source, handle)));
            assert(before.dom().contains(source));
            if is_sent_by(own, earlier, source, handle) {
                let i = choose|i: int|
                    0 <= i < earlier.len() && (#[trigger] earlier[i]).1.handle == handle;
                assert(senders[i].1.handle == handle);
            }
            if is_sent_by(own, senders, source, handle) {
                let i = choose|i: int|
                    0 <= i < senders.len() && (#[trigger] senders[i]).1.handle == handle;
                if i < n {
                    assert(earlier[i].1.handle == handle);
                }
            }
            if source == own && senders[n].1.handle == handle {
                assert(is_sent_by(own, senders, source, handle));
            }
        }
    } else {
        assert forall|source: SourceId, handle: u64| !#[trigger]
            is_sent_by(own, senders, source, handle) by {}
    }
}

/// A message is sent over the channel of its subchannel, with its bytes, its
/// source and all that goes beside it, in order. Before it, each subsender in it
/// is announced, over its own channel, as a copy in flight. Each source
/// remembers what it has sent, and nothing else. No subsender is announced
/// twice.
pub proof fn law_message_is_sent_with_its_subsenders(
    sender: &SubChannelSender,
    data: Vec<u8>,
    origin: Uuid,
    context: &mut TransmissionContext,
    sources: &mut SourceTable,
    plan: SendPlan,
)
    requires
        call_ensures(SubChannelSender::send, (sender, data, origin, context, sources), plan),
    ensures
        final(context).serialized@.len() == 0,
        final(sources)@.dom() == old(sources)@.dom(),
        forall|source: SourceId, handle: u64|
            #![trigger final(sources)@[source].contains(handle)]
            old(sources)@.contains_key(source) ==> final(sources)@[source].contains(handle) == (
            old(sources)@[source].contains(handle) || is_told_of(
                sender.ipc_sender.handle,
                old(context).serialized@,
                source,
                handle,
            ) || is_sent_by(sender.sender_id, old(context).senders@, source, handle)),
        plan.notifications@.len() == old(context).serialized@.len(),
        forall|i: int|
            #![trigger plan.notifications@[i]]
            0 <= i < plan.notifications@.len() ==> {
                let kept = old(context).serialized@[i];
                let notification = plan.notifications@[i];
                &&& notification.to == kept.1
                &&& notification.message matches MultiMessage::Sending {
                    scid,
                    from,
                    via,
                    via_chan,
                }
                &&& scid == kept.0
                &&& from == origin
                &&& via == sender.sub_channel_id
                &&& is_name(
                    via_chan,
                    sender.ipc_sender.handle,
                    sender.ipc_sender_uuid,
                    via_chan is IpcSenderId,
                )
            },
        plan.data.to == sender.ipc_sender,
        plan.data.message matches MultiMessage::Data(scid, bytes, senders, from) && {
            &&& scid == sender.sub_channel_id
            &&& bytes == data
            &&& from == origin
            &&& senders@.len() == old(context).senders@.len()
            &&& forall|i: int|
                #![trigger senders@[i]]
                0 <= i < senders@.len() ==> is_name(
                    senders@[i],
                    old(context).senders@[i].1.handle,
                    old(context).senders@[i].0,
                    senders@[i] is IpcSenderId,
                )
        },
{
    let notified = sources_notified(
        old(sources)@,
        sender.ipc_sender.handle,
        old(context).serialized@,
    );
    lemma_sources_notified(old(sources)@, sender.ipc_sender.handle, old(context).serialized@);
    lemma_sources_after(notified, sender.sender_id, old(context).senders@);
    assert forall|source: SourceId, handle: u64|
        #![trigger final(sources)@[source].contains(handle)]
        old(sources)@.contains_key(source) implies final(sources)@[source].contains(handle) == (
    old(sources)@[source].contains(handle) || is_told_of(
        sender.ipc_sender.handle,
        old(context).serialized@,
        source,
        handle,
    ) || is_sent_by(sender.sender_id, old(context).senders@, source, handle)) by {
        assert(notified.dom().contains(source));
        assert(notified[source].contains(handle) == (old(sources)@[source].contains(handle)
            || is_told_of(
            sender.ipc_sender.handle,
            old(context).serialized@,
            source,
            handle,
        )));
    }
}

/// An IPC sender that has not been sent from a source before is sent itself: the
/// first subsender of a channel that a message carries comes with its IPC
/// sender, unless an earlier message from that source held it.
pub proof fn law_unsent_sender_is_sent_itself(
    sender: &SubChannelSender,
    data: Vec<u8>,
    origin: Uuid,
    context: &mut TransmissionContext,
    sources: &mut SourceTable,
    plan: SendPlan,
    i: int,
)
    requires
        call_ensures(SubChannelSender::send, (sender, data, origin, context, sources), plan),
        0 <= i < old(context).senders@.len(),
        old(sources)@.contains_key(sender.sender_id) ==> !old(sources)@[sender.sender_id].contains(
            old(context).senders@[i].1.handle,
        ),
        forall|j: int|
            #![trigger old(context).senders@[j]]
            0 <= j < i ==> old(context).senders@[j].1.handle != old(context).senders@[i].1.handle,
        forall|j: int|
            #![trigger old(context).serialized@[j]]
            0 <= j < old(context).serialized@.len() ==> old(context).serialized@[j].2
                != sender.sender_id,
    ensures
        plan.data.message matches MultiMessage::Data(_, _, senders, _) && senders@[i] is IpcSender,
{
    let kept = old(context).senders@;
    let senders = plan.data.message->Data_2;
    let handle = kept[i].1.handle;
    let own = sender.sender_id;
    let notified = sources_notified(
        old(sources)@,
        sender.ipc_sender.handle,
        old(context).serialized@,
    );
    lemma_sources_notified(old(sources)@, sender.ipc_sender.handle, old(context).serialized@);
    let first = kept.take(i);
    lemma_sources_after(notified, own, first);
    let before = sources_after(notified, own, first);
    assert(senders@[i] == senders@[i]);
    if before.contains_key(own) {
        assert(notified.dom().contains(own));
        assert(old(sources)@.dom().contains(own));
        assert(!is_told_of(sender.ipc_sender.handle, old(context).serialized@, own, handle));
        assert(!notified[own].contains(handle));
        assert(!is_sent_by(own, first, own, handle)) by {
            if is_sent_by(own, first, own, handle) {
                let j = choose|j: int|
                    0 <= j < first.len() && (#[trigger] first[j]).1.handle == handle;
                assert(kept[j] == first[j]);
            }
        }
        assert(!before[own].contains(handle));
    }
}

/// The ends of a new channel: the sending end is connected, the receiving end
/// knows that one client and no subchannel and no sender.
pub open spec fn ends_meet(
    channel: Channel,
    ipc_sender: ForwardSender,
    response_sender: ResponseSender,
    response_receiver: ResponseReceiver,
    sources: Map<SourceId, Set<u64>>,
    sources_after: Map<SourceId, Set<u64>>,
) -> bool {
    let sender = channel.multi_sender@;
    let receiver = channel.multi_receiver@;
    &&& channel.multi_sender_id == ipc_sender.handle
    &&& sender.ipc_sender == ipc_sender
    &&& sender.response_receiver == response_receiver
    &&& forall|scid: Uuid| !#[trigger] sender.proxies.contains_key(scid)
    &&& has_new_source(sender.sender_id, sources, sources_after)
    &&& receiver.clients.contains_key(sender.client_id.0)
    &&& receiver.clients[sender.client_id.0] == response_sender
    &&& forall|other: Uuid| #[trigger]
        receiver.clients.contains_key(other) ==> other == sender.client_id.0
    &&& forall|scid: Uuid| !#[trigger] receiver.sub_channels.contains_key(scid)
    &&& forall|uuid: Uuid| !#[trigger] receiver.senders.contains_key(uuid)
    &&& forall|scid: Uuid| !#[trigger] receiver.disconnectors.contains_key(scid)
}

/// A channel is created if and only if both its IPC channels could be. Its ends
/// know each other: the client of the sending end is registered at the receiving
/// end. The first failure is the one that is told, and changes nothing.
pub proof fn law_new_channel_connects_its_ends(
    forward: Result<Arc<ForwardSender>, IpcError>,
    response: Result<(ResponseSender, ResponseReceiver), IpcError>,
    sources: &mut SourceTable,
    created: Result<Channel, MultiplexError>,
)
    requires
        call_ensures(Channel::new, (forward, response, sources), created) || call_ensures(
            multi_channel,
            (forward, response, sources),
            created,
        ),
    ensures
        created is Ok <==> forward is Ok && response is Ok,
        created matches Ok(channel) ==> ends_meet(
            channel,
            *forward->Ok_0,
            response->Ok_0.0,
            response->Ok_0.1,
            old(sources)@,
            final(sources)@,
        ),
        created is Err ==> final(sources)@ == old(sources)@,
        forward matches Err(e) ==> created == Err::<Channel, MultiplexError>(multiplex_error(e)),
        forward is Ok ==> (response matches Err(e) ==> created == Err::<Channel, MultiplexError>(
            multiplex_error(e),
        )),
{
}

/// Both ends of a new subchannel are for the same subchannel. Its subsender is
/// of the channel, its receiver is watched over and taken to be connected, and
/// the receiving end knows the subchannel: its messages go to the receiver's
/// mailbox, which is new, and the copy at its source is the one that is held.
pub proof fn law_new_subchannel_connects_its_ends<T>(
    channel: &mut Channel,
    origin: Uuid,
    mailboxes: &mut PayloadMailboxes,
    ends: (SubSender<T>, SubReceiver<T>),
)
    requires
        call_ensures(Channel::sub_channel::<T>, (channel, origin, mailboxes), ends),
        !old(channel).multi_receiver@.sub_channels.contains_key(
            ends.0.sub_channel_sender.sub_channel_id.0,
        ),
    ensures
        ({
            let sender = ends.0.sub_channel_sender;
            let receiver = ends.1.sub_channel_receiver;
            let scid = sender.sub_channel_id;
            let known = final(channel).multi_receiver@.sub_channels;
            let boxes = final(mailboxes)@;
            &&& receiver.sub_channel_id == scid
            &&& is_subsender_of(
                sender,
                old(channel).multi_sender@,
                old(channel).multi_sender_id,
                origin,
            )
            &&& final(channel).multi_sender@.proxies.contains_key(scid.0)
            &&& !final(channel).multi_sender@.proxies[scid.0]
            &&& known.contains_key(scid.0)
            &&& known[scid.0].sender == Some(receiver.mailbox)
            &&& forall|source: u128| #[trigger]
                known[scid.0].sources.contains(source) <==> source == origin
            &&& forall|copy: (u128, u128)| #[trigger] known[scid.0].in_flight.count(copy) == 0
            &&& !old(mailboxes)@.contains_key(receiver.mailbox)
            &&& boxes.contains_key(receiver.mailbox)
            &&& boxes[receiver.mailbox].messages.len() == 0
            &&& boxes[receiver.mailbox].senders == 1
            &&& boxes[receiver.mailbox].receiving
            &&& forall|id: MailboxId|
                #![trigger old(mailboxes)@.contains_key(id)]
                old(mailboxes)@.contains_key(id) ==> boxes.contains_key(id) && boxes[id]
                    == old(mailboxes)@[id]
            &&& forall|other: Uuid|
                #![trigger old(channel).multi_receiver@.sub_channels.contains_key(other)]
                old(channel).multi_receiver@.sub_channels.contains_key(other)
                    ==> known.contains_key(other) && known[other]
                    == old(channel).multi_receiver@.sub_channels[other]
        }),
{
}

/// A one-shot server accepts a subchannel if and only if it was announced under
/// the server's name, which is the one that was handed out for it.
pub proof fn law_server_accepts_its_own_name(
    name: String,
    created: (SubOneShotServer, String),
    server: &SubOneShotServer,
    scid: SubChannelId,
    announced: String,
    accepted: Result<SubChannelId, MultiplexError>,
)
    requires
        call_ensures(SubOneShotServer::new, (name,), created),
        *server == created.0,
        call_ensures(SubOneShotServer::accept, (server, scid, announced), accepted),
    ensures
        created.1@ == name@,
        accepted is Ok <==> announced@ == created.1@,
        accepted matches Ok(id) ==> id == scid,
        accepted matches Err(e) ==> e@ == MultiplexErrorView::InternalError(
            "unexpected sub channel name "@ + announced@,
        ),
{
}

/// A server that accepts a client has that client registered, and nobody else,
/// and has done nothing else.
pub proof fn law_accepted_client_is_known(
    response_sender: ResponseSender,
    client: ClientId,
    outcomes: VecDeque<ConnectOutcome>,
    context: &mut ReceptionContext,
    mailboxes: &mut PayloadMailboxes,
    accepted: Result<MultiReceiver, MultiplexError>,
)
    requires
        call_ensures(
            OneShotMultiServer::accept,
            (MultiMessage::Connect(response_sender, client), outcomes, context, mailboxes),
            accepted,
        ),
    ensures
        accepted matches Ok(receiver) && {
            &&& receiver@.clients.contains_key(client.0)
            &&& receiver@.clients[client.0] == response_sender
            &&& forall|other: Uuid| #[trigger]
                receiver@.clients.contains_key(other) ==> other == client.0
            &&& forall|scid: Uuid| !#[trigger] receiver@.sub_channels.contains_key(scid)
        },
        final(mailboxes)@ == old(mailboxes)@,
        *final(context) == *old(context),
{
}

} // verus!
