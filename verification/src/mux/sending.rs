//! What a sending end learns, what it sends, and what it remembers of it.

use crate::mux::error::{mux_error, IpcError, MuxError};
use crate::mux::ipc_handles::{OpaqueIpcReceiver, OpaqueIpcSender};
use crate::mux::protocol::{
    Attachments, ClientId, IpcSenderAndOrId, MultiMessage, MultiResponse, ResponseReceiver,
    ResponseSender, SubChannelId, SubChannelSenderIds, EMPTY_SUBCHANNEL_ID, ORIGIN,
};
use crate::mux::sender::{
    ipc_sender_and_or_uuid, name_given, sources_after, IpcChannelTransportParts, MultiSender,
    MultiSenderId, MultiSenderView, Outgoing, ResponseEvent, SendPlan, SentBefore,
    SerializationContext, SerializedSenderContext, SourceId, SourceTable, SubChannelDisconnector,
    SubChannelSender, TransportPlan,
};
use crate::mux::sender_id::ForwardSender;
use crate::mux::subchannel_lifecycle::SubReceiverProxy;
use crate::mux::uuids::{hyphenated, Uuid};
use std::sync::Arc;
use vstd::prelude::*;

verus! {

/// The first events are responses, and the one after them, if there is one, is
/// not.
pub open spec fn responses_up_to(events: Seq<ResponseEvent>, n: int) -> bool {
    &&& 0 <= n <= events.len()
    &&& forall|i: int| #![trigger events[i]] 0 <= i < n ==> events[i] is Response
    &&& n < events.len() ==> events[n] !is Response
}

/// One of the first events tells that the receiver of a subchannel has
/// disconnected.
pub open spec fn tells_of(events: Seq<ResponseEvent>, n: int, scid: Uuid) -> bool {
    exists|i: int|
        0 <= i < n && #[trigger] events[i] == ResponseEvent::Response(
            MultiResponse::SubReceiverDisconnected(SubChannelId(scid)),
        )
}

/// What has been read from a response channel has been taken in: each receiver
/// that is watched over and was reported to have disconnected has, no other
/// has, and a failure of the channel means that the channel is disconnected.
/// Nothing is read of a channel that is known to be, and nothing else changes.
pub open spec fn takes_in(
    before: MultiSenderView,
    events: Seq<ResponseEvent>,
    n: int,
    after: MultiSenderView,
) -> bool {
    let reads = !before.disconnected && before.response_receiver is Some;
    &&& after.client_id == before.client_id
    &&& after.ipc_sender == before.ipc_sender
    &&& after.uuid == before.uuid
    &&& after.sender_id == before.sender_id
    &&& after.response_receiver == before.response_receiver
    &&& after.disconnected == (before.disconnected || (reads && n < events.len() && events[n]
        is IpcError))
    &&& forall|scid: Uuid| #[trigger]
        after.proxies.contains_key(scid) == before.proxies.contains_key(scid)
    &&& forall|scid: Uuid| #[trigger]
        after.proxies.contains_key(scid) ==> after.proxies[scid] == (before.proxies[scid] || (reads
            && tells_of(events, n, scid)))
}

proof fn lemma_drained(before: MultiSenderView, events: Seq<ResponseEvent>, n: int)
    requires
        responses_up_to(events, n),
    ensures
        takes_in(before, events, n, before.drained(events)),
    decreases events.len(),
{
    let after = before.drained(events);
    if !before.disconnected && before.response_receiver is Some && events.len() > 0 {
        match events[0] {
            ResponseEvent::Response(response) => {
                assert(n > 0);
                let rest = events.drop_first();
                assert forall|i: int| #![trigger rest[i]] 0 <= i < n - 1 implies rest[i]
                    is Response by {
                    assert(rest[i] == events[i + 1]);
                }
                if n < events.len() {
                    assert(rest[n - 1] == events[n]);
                }
                let told = before.told(response);
                lemma_drained(told, rest, n - 1);
                assert forall|scid: Uuid| #[trigger]
                    tells_of(events, n, scid) == (tells_of(rest, n - 1, scid) || response
                        == MultiResponse::SubReceiverDisconnected(SubChannelId(scid))) by {
                    if tells_of(events, n, scid) {
                        let i = choose|i: int|
                            0 <= i < n && #[trigger] events[i] == ResponseEvent::Response(
                                MultiResponse::SubReceiverDisconnected(SubChannelId(scid)),
                            );
                        if i > 0 {
                            assert(rest[i - 1] == events[i]);
                        }
                    }
                    if tells_of(rest, n - 1, scid) {
                        let i = choose|i: int|
                            0 <= i < n - 1 && #[trigger] rest[i] == ResponseEvent::Response(
                                MultiResponse::SubReceiverDisconnected(SubChannelId(scid)),
                            );
                        assert(events[i + 1] == rest[i]);
                    }
                    if response == MultiResponse::SubReceiverDisconnected(SubChannelId(scid)) {
                        assert(events[0] == ResponseEvent::Response(response));
                    }
                }
                assert forall|scid: Uuid| #[trigger] after.proxies.contains_key(scid)
                    implies after.proxies[scid] == (before.proxies[scid] || tells_of(
                    events,
                    n,
                    scid,
                )) by {
                    assert(told.proxies.contains_key(scid));
                    assert(SubChannelId(scid).0 == scid);
                    match response {
                        MultiResponse::SubReceiverDisconnected(of) => {
                            assert(of == SubChannelId(of.0));
                        },
                    }
                }
            },
            _ => {
                assert(n == 0) by {
                    if n > 0 {
                        assert(events[0] is Response);
                    }
                }
            },
        }
    } else {
        if events.len() == 0 {
            assert forall|scid: Uuid| !#[trigger] tells_of(events, n, scid) by {}
        }
    }
    if n == 0 {
        assert forall|scid: Uuid| !#[trigger] tells_of(events, n, scid) by {}
    }
}

/// What is read from the response channel is taken in up to the point where
/// nothing more was to be read, and a sending end is alive as long as the
/// channel is not known to be disconnected. A receiver is connected if the
/// channel is and it has not been reported to have disconnected.
pub proof fn law_responses_are_taken_in(
    first: &mut MultiSender,
    second: &mut MultiSender,
    third: &mut MultiSender,
    scid: SubChannelId,
    events: &Vec<ResponseEvent>,
    n: int,
    alive: bool,
    probed: bool,
    connected: bool,
)
    requires
        responses_up_to(events@, n),
        call_ensures(MultiSender::drain_responses, (first, events), alive),
        call_ensures(MultiSender::probe, (second, events), probed),
        call_ensures(MultiSender::is_receiver_connected, (third, scid, events), connected),
    ensures
        takes_in(old(first)@, events@, n, final(first)@),
        alive == !final(first)@.disconnected,
        takes_in(old(second)@, events@, n, final(second)@),
        probed == !final(second)@.disconnected,
        takes_in(old(third)@, events@, n, final(third)@),
        connected <==> !final(third)@.disconnected && (final(third)@.proxies.contains_key(scid.0)
            ==> !final(third)@.proxies[scid.0]),
{
    lemma_drained(old(first)@, events@, n);
    lemma_drained(old(second)@, events@, n);
    lemma_drained(old(third)@, events@, n);
}

/// A message to a subchannel is refused if and only if its receiver is known to
/// have disconnected, after what was read from the response channel has been
/// taken in. Otherwise nothing is left beside the message from an earlier one.
pub proof fn law_disconnected_sender_refuses(
    sender: &SubChannelSender,
    channel: &mut MultiSender,
    events: &Vec<ResponseEvent>,
    context: &mut SerializationContext,
    ready: Result<(), MuxError>,
    n: int,
)
    requires
        responses_up_to(events@, n),
        call_ensures(SubChannelSender::prepare, (sender, channel, events, context), ready),
    ensures
        takes_in(old(channel)@, events@, n, final(channel)@),
        ready is Ok <==> !final(channel)@.disconnected && (final(channel)@.proxies.contains_key(
            sender.sub_channel_id.0,
        ) ==> !final(channel)@.proxies[sender.sub_channel_id.0]),
        ready is Ok ==> {
            &&& final(context).senders@.len() == 0
            &&& final(context).regions@.len() == 0
            &&& final(context).ipc_senders@.len() == 0
            &&& final(context).ipc_receivers@.len() == 0
        },
        ready matches Err(e) ==> e == MuxError::Disconnected && *final(context) == *old(context),
{
    lemma_drained(old(channel)@, events@, n);
}

/// When all copies of a subsender are gone from a source, the receiver of its
/// subchannel is told so, and of which source, unless it is known to have
/// disconnected.
pub proof fn law_receiver_is_told_of_the_last_drop(
    disconnector: &SubChannelDisconnector,
    channel: &mut MultiSender,
    events: &Vec<ResponseEvent>,
    told: Option<Outgoing>,
    n: int,
)
    requires
        responses_up_to(events@, n),
        call_ensures(SubChannelDisconnector::dropped, (disconnector, channel, events), told),
    ensures
        takes_in(old(channel)@, events@, n, final(channel)@),
        told is Some <==> !final(channel)@.disconnected && (final(channel)@.proxies.contains_key(
            disconnector.sub_channel_id.0,
        ) ==> !final(channel)@.proxies[disconnector.sub_channel_id.0]),
        told matches Some(outgoing) ==> {
            &&& outgoing.to == disconnector.ipc_sender
            &&& outgoing.message == MultiMessage::Disconnect(
                disconnector.sub_channel_id,
                disconnector.source,
            )
        },
{
    lemma_drained(old(channel)@, events@, n);
}

/// A name of an IPC sender holds the text of its UUID, and the sender itself
/// unless it has been sent before.
pub proof fn law_first_name_holds_the_sender(
    already_sent: bool,
    sender: &Arc<ForwardSender>,
    uuid: Uuid,
    named: IpcSenderAndOrId,
)
    requires
        call_ensures(ipc_sender_and_or_uuid, (already_sent, sender, uuid), named),
    ensures
        already_sent ==> (named matches IpcSenderAndOrId::IpcSenderId(text) && text@ == hyphenated(
            uuid,
        )),
        !already_sent ==> (named matches IpcSenderAndOrId::IpcSender(held, text) && held.handle
            == sender.handle && text@ == hyphenated(uuid)),
{
}

/// A name holds the text of a UUID, and the sender itself or not.
pub open spec fn is_name(named: IpcSenderAndOrId, handle: u64, uuid: Uuid, bare: bool) -> bool {
    match named {
        IpcSenderAndOrId::IpcSender(held, text) => !bare && held.handle == handle && text@
            == hyphenated(uuid),
        IpcSenderAndOrId::IpcSenderId(text) => bare && text@ == hyphenated(uuid),
    }
}

/// A message is sent over the channel of its subchannel, with its bytes and all
/// that goes beside it. For each subsender in it, in order, the receiver of the
/// subsender's subchannel is told, over the subsender's own channel, that a copy
/// is being sent, and over which subchannel. The IPC senders are named by
/// themselves only if they have not been sent before.
pub proof fn law_message_is_sent_with_its_subsenders(
    sender: &SubChannelSender,
    payload: Vec<u8>,
    contexts: &Vec<SerializedSenderContext>,
    attachments: Attachments,
    sent: &SentBefore,
    plan: SendPlan,
)
    requires
        call_ensures(
            SubChannelSender::plan_given,
            (sender, payload, contexts, attachments, sent),
            plan,
        ),
    ensures
        plan.data.to == sender.ipc_sender,
        plan.notifications@.len() == contexts@.len(),
        plan.data.message matches MultiMessage::Data(scid, bytes, senders, beside) && {
            &&& scid == sender.sub_channel_id
            &&& bytes == payload
            &&& beside == attachments
            &&& senders@.len() == contexts@.len()
            &&& forall|i: int|
                #![trigger senders@[i]]
                0 <= i < contexts@.len() ==> {
                    let context = contexts@[i];
                    let notification = plan.notifications@[i];
                    &&& senders@[i].0 == context.sub_channel_id
                    &&& is_name(
                        senders@[i].1,
                        context.ipc_sender.handle,
                        context.ipc_sender_uuid,
                        sent.carried@[i],
                    )
                    &&& notification.to == context.ipc_sender
                    &&& notification.message matches MultiMessage::Sending { scid, via, via_chan }
                    &&& scid == context.sub_channel_id
                    &&& via == sender.sub_channel_id
                    &&& is_name(
                        via_chan,
                        sender.ipc_sender.handle,
                        sender.ipc_sender_uuid,
                        sent.carriers@[i],
                    )
                }
        },
{
    let senders = plan.data.message->Data_2;
    assert forall|i: int| #![trigger senders@[i]] 0 <= i < contexts@.len() implies {
        let context = contexts@[i];
        let notification = plan.notifications@[i];
        &&& senders@[i].0 == context.sub_channel_id
        &&& is_name(
            senders@[i].1,
            context.ipc_sender.handle,
            context.ipc_sender_uuid,
            sent.carried@[i],
        )
        &&& notification.to == context.ipc_sender
        &&& notification.message matches MultiMessage::Sending { scid, via, via_chan }
        &&& scid == context.sub_channel_id
        &&& via == sender.sub_channel_id
        &&& is_name(
            via_chan,
            sender.ipc_sender.handle,
            sender.ipc_sender_uuid,
            sent.carriers@[i],
        )
    } by {
        lemma_name(
            senders@[i].1,
            contexts@[i].ipc_sender.handle,
            contexts@[i].ipc_sender_uuid,
            sent.carried@[i],
        );
        match plan.notifications@[i].message {
            MultiMessage::Sending { scid, via, via_chan } => {
                lemma_name(
                    via_chan,
                    sender.ipc_sender.handle,
                    sender.ipc_sender_uuid,
                    sent.carriers@[i],
                );
            },
            _ => {},
        }
    }
}

proof fn lemma_name(named: IpcSenderAndOrId, handle: u64, uuid: Uuid, bare: bool)
    ensures
        named@ == name_given(bare, handle, uuid) ==> is_name(
            named,
            handle,
            uuid,
            bare,
        ),
{
}

/// A source sends an IPC sender while the given subsenders are sent with a
/// carrier: the carrier's source sends the subsenders' IPC senders, and the
/// subsenders' sources send the carrier's.
pub open spec fn sends_along(
    carrier: SubChannelSender,
    contexts: Seq<SerializedSenderContext>,
    source: SourceId,
    handle: u64,
) -> bool {
    exists|i: int|
        {
            &&& 0 <= i < contexts.len()
            &&& {
                ||| (#[trigger] contexts[i]).sender_id == source && handle
                    == carrier.ipc_sender.handle
                ||| carrier.sender_id == source && handle == contexts[i].ipc_sender.handle
            }
        }
}

proof fn lemma_sources_after(
    sources: Map<SourceId, Set<u64>>,
    carrier: SubChannelSender,
    contexts: Seq<SerializedSenderContext>,
)
    ensures
        sources_after(sources, carrier, contexts).dom() == sources.dom(),
        forall|source: SourceId, handle: u64|
            #![trigger sources_after(sources, carrier, contexts)[source].contains(handle)]
            sources.contains_key(source) ==> sources_after(
                sources,
                carrier,
                contexts,
            )[source].contains(handle) == (sources[source].contains(handle) || sends_along(
                carrier,
                contexts,
                source,
                handle,
            )),
    decreases contexts.len(),
{
    let after = sources_after(sources, carrier, contexts);
    if contexts.len() > 0 {
        let earlier = contexts.drop_last();
        let n = contexts.len() - 1;
        lemma_sources_after(sources, carrier, earlier);
        let before = sources_after(sources, carrier, earlier);
        assert(after.dom() =~= before.dom());
        assert forall|source: SourceId, handle: u64|
            #![trigger after[source].contains(handle)]
            sources.contains_key(source) implies after[source].contains(handle) == (
        sources[source].contains(handle) || sends_along(carrier, contexts, source, handle)) by {
            assert(before[source].contains(handle) == (sources[source].contains(handle)
                || sends_along(carrier, earlier, source, handle)));
            assert(before.dom().contains(source));
            if sends_along(carrier, earlier, source, handle) {
                let i = choose|i: int|
                    {
                        &&& 0 <= i < earlier.len()
                        &&& {
                            ||| (#[trigger] earlier[i]).sender_id == source && handle
                                == carrier.ipc_sender.handle
                            ||| carrier.sender_id == source && handle
                                == earlier[i].ipc_sender.handle
                        }
                    };
                assert(contexts[i] == earlier[i]);
                assert(sends_along(carrier, contexts, source, handle));
            }
            if sends_along(carrier, contexts, source, handle) {
                let i = choose|i: int|
                    {
                        &&& 0 <= i < contexts.len()
                        &&& {
                            ||| (#[trigger] contexts[i]).sender_id == source && handle
                                == carrier.ipc_sender.handle
                            ||| carrier.sender_id == source && handle
                                == contexts[i].ipc_sender.handle
                        }
                    };
                if i < n {
                    assert(earlier[i] == contexts[i]);
                    assert(sends_along(carrier, earlier, source, handle));
                }
            }
            let last = contexts[n];
            if last.sender_id == source && handle == carrier.ipc_sender.handle {
                assert(sends_along(carrier, contexts, source, handle));
            }
            if carrier.sender_id == source && handle == last.ipc_sender.handle {
                assert(sends_along(carrier, contexts, source, handle));
            }
        }
    } else {
        assert forall|source: SourceId, handle: u64| !#[trigger]
            sends_along(carrier, contexts, source, handle) by {}
    }
}

/// Sending a message takes all that was kept beside it and leaves nothing. The
/// message holds it in the order in which it was kept. Each source remembers
/// what it has sent, and nothing else: the carrier's source the IPC senders of
/// the subsenders, and the subsenders' sources that of the carrier. A name is
/// bare only if the sender was sent from that source before.
pub proof fn law_sending_takes_and_remembers(
    sender: &SubChannelSender,
    payload: Vec<u8>,
    context: &mut SerializationContext,
    sources: &mut SourceTable,
    plan: SendPlan,
)
    requires
        call_ensures(SubChannelSender::send, (sender, payload, context, sources), plan),
    ensures
        final(context).senders@.len() == 0,
        final(context).regions@.len() == 0,
        final(context).ipc_senders@.len() == 0,
        final(context).ipc_receivers@.len() == 0,
        final(sources)@.dom() == old(sources)@.dom(),
        forall|source: SourceId, handle: u64|
            #![trigger final(sources)@[source].contains(handle)]
            old(sources)@.contains_key(source) ==> final(sources)@[source].contains(handle) == (
            old(sources)@[source].contains(handle) || sends_along(
                *sender,
                old(context).senders@,
                source,
                handle,
            )),
        plan.data.to == sender.ipc_sender,
        plan.notifications@.len() == old(context).senders@.len(),
        plan.data.message matches MultiMessage::Data(scid, bytes, senders, beside) && {
            &&& scid == sender.sub_channel_id
            &&& bytes == payload
            &&& beside.shmems@ == old(context).regions@
            &&& beside.ipc_senders@ == old(context).ipc_senders@
            &&& beside.ipc_receivers@ == old(context).ipc_receivers@
            &&& senders@.len() == old(context).senders@.len()
            &&& forall|i: int|
                #![trigger senders@[i]]
                0 <= i < senders@.len() ==> {
                    let kept = old(context).senders@[i];
                    let notification = plan.notifications@[i];
                    &&& senders@[i].0 == kept.sub_channel_id
                    &&& is_name(
                        senders@[i].1,
                        kept.ipc_sender.handle,
                        kept.ipc_sender_uuid,
                        senders@[i].1 is IpcSenderId,
                    )
                    &&& senders@[i].1 is IpcSenderId ==> final(sources)@.contains_key(
                        sender.sender_id,
                    )
                    &&& notification.to == kept.ipc_sender
                    &&& notification.message matches MultiMessage::Sending { scid, via, via_chan }
                    &&& scid == kept.sub_channel_id
                    &&& via == sender.sub_channel_id
                    &&& is_name(
                        via_chan,
                        sender.ipc_sender.handle,
                        sender.ipc_sender_uuid,
                        via_chan is IpcSenderId,
                    )
                }
        },
{
    lemma_sources_after(old(sources)@, *sender, old(context).senders@);
    let kept = old(context).senders@;
    let senders = plan.data.message->Data_2;
    assert forall|i: int|
        #![trigger senders@[i]]
        0 <= i < senders@.len() && senders@[i].1 is IpcSenderId implies old(
        sources,
    )@.contains_key(sender.sender_id) by {
        lemma_sources_after(old(sources)@, *sender, kept.take(i));
        let before = sources_after(old(sources)@, *sender, kept.take(i));
        assert(before.contains_key(sender.sender_id) ==> old(sources)@.dom().contains(
            sender.sender_id,
        ));
    }
}

/// An IPC sender that no message has been sent with before from a source is sent
/// itself: the first subsender of a channel that a message carries comes with
/// its IPC sender, unless an earlier message from that source held it.
pub proof fn law_unsent_sender_is_sent_itself(
    sender: &SubChannelSender,
    payload: Vec<u8>,
    context: &mut SerializationContext,
    sources: &mut SourceTable,
    plan: SendPlan,
    i: int,
)
    requires
        call_ensures(SubChannelSender::send, (sender, payload, context, sources), plan),
        0 <= i < old(context).senders@.len(),
        old(sources)@.contains_key(sender.sender_id) ==> !old(sources)@[sender.sender_id].contains(
            old(context).senders@[i].ipc_sender.handle,
        ),
        forall|j: int|
            #![trigger old(context).senders@[j]]
            0 <= j < i ==> old(context).senders@[j].ipc_sender.handle
                != old(context).senders@[i].ipc_sender.handle && old(context).senders@[j].sender_id
                != sender.sender_id,
        old(context).senders@[i].sender_id != sender.sender_id,
    ensures
        plan.data.message matches MultiMessage::Data(_, _, senders, _) && senders@[i].1 is IpcSender,
{
    let kept = old(context).senders@;
    let senders = plan.data.message->Data_2;
    let first = kept.take(i);
    let own = kept[i];
    lemma_sources_after(old(sources)@, *sender, first);
    let before = sources_after(old(sources)@, *sender, first);
    let handle = own.ipc_sender.handle;
    assert(senders@[i] == senders@[i]);
    if before.contains_key(sender.sender_id) {
        assert(old(sources)@.dom().contains(sender.sender_id));
        assert(!sends_along(*sender, first, sender.sender_id, handle)) by {
            if sends_along(*sender, first, sender.sender_id, handle) {
                let j = choose|j: int|
                    {
                        &&& 0 <= j < first.len()
                        &&& {
                            ||| (#[trigger] first[j]).sender_id == sender.sender_id && handle
                                == sender.ipc_sender.handle
                            ||| sender.sender_id == sender.sender_id && handle
                                == first[j].ipc_sender.handle
                        }
                    };
                assert(kept[j] == first[j]);
            }
        }
        assert(!before[sender.sender_id].contains(handle));
    }
}

/// A sending end of a channel that was created here, or of one whose sender was
/// received, is alive, watches over no receiver yet, and has a source of its own
/// that has sent nothing.
pub open spec fn is_connected_sender(
    sender: MultiSenderView,
    client_id: ClientId,
    ipc_sender: ForwardSender,
    response_receiver: ResponseReceiver,
    sources: Map<SourceId, Set<u64>>,
    sources_after: Map<SourceId, Set<u64>>,
) -> bool {
    &&& sender.client_id == client_id
    &&& sender.ipc_sender == ipc_sender
    &&& sender.response_receiver == Some(response_receiver)
    &&& !sender.disconnected
    &&& forall|scid: Uuid| !#[trigger] sender.proxies.contains_key(scid)
    &&& has_new_source(sender.sender_id, sources, sources_after)
}

/// A source is new and has sent nothing, and all others are as they were.
pub open spec fn has_new_source(
    id: SourceId,
    sources: Map<SourceId, Set<u64>>,
    sources_after: Map<SourceId, Set<u64>>,
) -> bool {
    &&& !sources.contains_key(id)
    &&& sources_after.contains_key(id)
    &&& forall|handle: u64| !#[trigger] sources_after[id].contains(handle)
    &&& forall|other: SourceId|
        #![trigger sources.contains_key(other)]
        #![trigger sources_after.contains_key(other)]
        other != id ==> {
            &&& sources_after.contains_key(other) == sources.contains_key(other)
            &&& sources.contains_key(other) ==> sources_after[other] == sources[other]
        }
}

/// The sending end of a new channel is connected.
pub proof fn law_new_sender_is_connected(
    client_id: ClientId,
    ipc_sender: Arc<ForwardSender>,
    response_receiver: ResponseReceiver,
    sources: &mut SourceTable,
    sender: MultiSender,
)
    requires
        call_ensures(MultiSender::new, (client_id, ipc_sender, response_receiver, sources), sender),
    ensures
        is_connected_sender(
            sender@,
            client_id,
            *ipc_sender,
            response_receiver,
            old(sources)@,
            final(sources)@,
        ),
{
}

/// The sending end of a channel whose sender was received is connected under the
/// UUID that came with the sender, if and only if a response channel could be
/// created and the client be registered. The first failure is the one that is
/// told, and changes nothing.
pub proof fn law_received_sender_is_connected(
    ipc_sender: Arc<ForwardSender>,
    uuid: Uuid,
    client_id: ClientId,
    response_channel: Result<ResponseReceiver, IpcError>,
    registered: Result<(), IpcError>,
    sources: &mut SourceTable,
    connected: Result<MultiSender, MuxError>,
)
    requires
        call_ensures(
            MultiSender::connect_sender,
            (ipc_sender, uuid, client_id, response_channel, registered, sources),
            connected,
        ),
    ensures
        connected is Ok <==> response_channel is Ok && registered is Ok,
        connected matches Ok(sender) ==> {
            &&& sender@.uuid == uuid
            &&& is_connected_sender(
                sender@,
                client_id,
                *ipc_sender,
                response_channel->Ok_0,
                old(sources)@,
                final(sources)@,
            )
        },
        connected is Err ==> final(sources)@ == old(sources)@,
        response_channel matches Err(e) ==> connected == Err::<MultiSender, MuxError>(
            mux_error(e),
        ),
        response_channel is Ok ==> (registered matches Err(e) ==> connected == Err::<
            MultiSender,
            MuxError,
        >(mux_error(e))),
{
}

/// A client is registered, a subchannel announced and any message sent over the
/// IPC channel of the sending end.
pub proof fn law_messages_go_to_the_other_end(
    sender: &MultiSender,
    ipc_sender: &Arc<ForwardSender>,
    response_sender: ResponseSender,
    client_id: ClientId,
    connect: Outgoing,
    message: MultiMessage,
    sent: Outgoing,
    scid: SubChannelId,
    name: String,
    announced: Outgoing,
)
    requires
        call_ensures(
            MultiSender::connect_message,
            (ipc_sender, response_sender, client_id),
            connect,
        ),
        call_ensures(MultiSender::send_message, (sender, message), sent),
        call_ensures(MultiSender::notify_sub_channel, (sender, scid, name), announced),
    ensures
        connect.to == *ipc_sender,
        connect.message == MultiMessage::Connect(response_sender, client_id),
        *sent.to == sender@.ipc_sender,
        sent.message == message,
        *announced.to == sender@.ipc_sender,
        announced.message == MultiMessage::SubChannelId(scid, name),
{
}

/// The receiver of a subchannel that is watched over is as connected as its
/// proxy says. What is known of other receivers stays.
pub proof fn law_watched_receiver_is_known(
    channel: &mut MultiSender,
    scid: SubChannelId,
    proxy: SubReceiverProxy,
)
    requires
        call_ensures(MultiSender::insert_sub_receiver_proxy, (channel, scid, proxy), ()),
    ensures
        final(channel)@.proxies.contains_key(scid.0),
        final(channel)@.proxies[scid.0] == proxy@,
        forall|other: Uuid|
            #![trigger old(channel)@.proxies.contains_key(other)]
            #![trigger final(channel)@.proxies.contains_key(other)]
            other != scid.0 ==> {
                &&& final(channel)@.proxies.contains_key(other)
                    == old(channel)@.proxies.contains_key(other)
                &&& old(channel)@.proxies.contains_key(other) ==> final(channel)@.proxies[other]
                    == old(channel)@.proxies[other]
            },
        final(channel)@.disconnected == old(channel)@.disconnected,
        final(channel)@.client_id == old(channel)@.client_id,
        final(channel)@.ipc_sender == old(channel)@.ipc_sender,
        final(channel)@.uuid == old(channel)@.uuid,
        final(channel)@.sender_id == old(channel)@.sender_id,
        final(channel)@.response_receiver == old(channel)@.response_receiver,
{
}

/// A subsender of a new subchannel sends over the channel that it was created
/// on, and tells of the drop of its last copy as the source where it was
/// created.
pub proof fn law_new_subsender_is_of_its_channel(
    channel: &MultiSender,
    id: MultiSenderId,
    sender: SubChannelSender,
)
    requires
        call_ensures(SubChannelSender::new, (channel, id), sender),
    ensures
        *sender.ipc_sender == channel@.ipc_sender,
        sender.ipc_sender_uuid == channel@.uuid,
        sender.sender_id == channel@.sender_id,
        sender.multi_sender == id,
        sender.disconnector.sub_channel_id == sender.sub_channel_id,
        *sender.disconnector.ipc_sender == channel@.ipc_sender,
        sender.disconnector.source == ORIGIN,
        sender.disconnector.multi_sender == id,
{
}

/// A subsender that is put in a message is kept beside it, after those that were
/// put there before, with what identifies its subchannel and its channel. The
/// message itself holds its ids.
pub proof fn law_subsender_is_kept_beside_the_message(
    sender: &SubChannelSender,
    context: &mut SerializationContext,
    ids: SubChannelSenderIds,
)
    requires
        call_ensures(SubChannelSender::serialize, (sender, context), ids),
    ensures
        final(context).senders@.len() == old(context).senders@.len() + 1,
        forall|i: int|
            #![trigger final(context).senders@[i]]
            0 <= i < old(context).senders@.len() ==> final(context).senders@[i]
                == old(context).senders@[i],
        ({
            let kept = final(context).senders@.last();
            &&& kept.sub_channel_id == sender.sub_channel_id
            &&& kept.ipc_sender_uuid == sender.ipc_sender_uuid
            &&& kept.ipc_sender == sender.ipc_sender
            &&& kept.sender_id == sender.sender_id
        }),
        final(context).regions@ == old(context).regions@,
        final(context).ipc_senders@ == old(context).ipc_senders@,
        final(context).ipc_receivers@ == old(context).ipc_receivers@,
        ids.sub_channel_id == sender.sub_channel_id,
        ids.ipc_sender_uuid@ == hyphenated(sender.ipc_sender_uuid),
{
}

/// A subsender that leaves over a raw IPC channel is announced to its receiver
/// first, as a copy in flight: with the keepalive receiver if there is one, and
/// otherwise as one that no subchannel carries. The other process gets what it
/// takes to send to the subchannel, and the keepalive sender.
pub proof fn law_transport_is_announced(
    sender: SubChannelSender,
    keepalive: Option<(OpaqueIpcSender, OpaqueIpcReceiver)>,
    begun: (Outgoing, TransportPlan),
)
    requires
        call_ensures(
            SubChannelSender::begin_ipc_channel_transport,
            (sender, keepalive),
            begun,
        ),
    ensures
        begun.0.to == sender.ipc_sender,
        keepalive matches Some((kept, sent)) ==> {
            &&& begun.0.message == MultiMessage::SendingViaIpcChannel {
                scid: sender.sub_channel_id,
                keepalive: sent,
            }
            &&& begun.1.parts.keepalive == Some(kept)
        },
        keepalive is None ==> {
            &&& begun.0.message matches MultiMessage::Sending { scid, via, via_chan }
            &&& scid == sender.sub_channel_id
            &&& via.0 == EMPTY_SUBCHANNEL_ID
            &&& is_name(via_chan, sender.ipc_sender.handle, sender.ipc_sender_uuid, false)
            &&& begun.1.parts.keepalive is None
        },
        begun.1.parts.sub_channel_id == sender.sub_channel_id,
        begun.1.parts.ipc_sender == sender.ipc_sender,
        begun.1.parts.ipc_sender_uuid == sender.ipc_sender_uuid,
        begun.1.disconnector == sender.disconnector,
{
}

/// A transport fails if and only if the receiver could not be notified and there
/// is no keepalive channel. In any case the subsender is to be let go of here.
pub proof fn law_transport_depends_on_its_announcement(
    plan: TransportPlan,
    sent: Result<(), IpcError>,
    outcome: (Result<IpcChannelTransportParts, MuxError>, Arc<SubChannelDisconnector>),
)
    requires
        call_ensures(TransportPlan::notified, (plan, sent), outcome),
    ensures
        outcome.0 is Err <==> sent is Err && plan.parts.keepalive is None,
        outcome.0 matches Ok(parts) ==> parts == plan.parts,
        outcome.0 matches Err(e) ==> e == mux_error(sent->Err_0),
        outcome.1 == plan.disconnector,
{
}

/// A source that is opened is new and has sent nothing. One that is closed is
/// forgotten. All others stay as they are.
pub proof fn law_sources_come_and_go(
    opened: &mut SourceTable,
    id: SourceId,
    closed: &mut SourceTable,
    gone: SourceId,
)
    requires
        call_ensures(SourceTable::open, (opened,), id),
        call_ensures(SourceTable::close, (closed, gone), ()),
    ensures
        has_new_source(id, old(opened)@, final(opened)@),
        !final(closed)@.contains_key(gone),
        forall|other: SourceId|
            #![trigger old(closed)@.contains_key(other)]
            #![trigger final(closed)@.contains_key(other)]
            other != gone ==> {
                &&& final(closed)@.contains_key(other) == old(closed)@.contains_key(other)
                &&& old(closed)@.contains_key(other) ==> final(closed)@[other]
                    == old(closed)@[other]
            },
{
}

} // verus!
