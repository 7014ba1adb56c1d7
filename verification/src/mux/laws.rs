//! Properties that hold of the sending and the receiving side together.

use crate::mux::demux::{
    failures, lists_once, message_handled, names_of, protos_of, resolved, resolved_all, Connection,
    DemuxerView, Effect, Handled, MailboxMap, ProtoSender, ResolvedMessageOrDisconnect,
};
use crate::mux::error::MuxError;
use crate::mux::mailbox::{accepts, MailboxId};
use crate::mux::protocol::{
    IpcSenderAndOrId, MultiMessage, MultiResponse, ResponseSender, SubChannelId,
};
use crate::mux::sender::{names_sender, Outgoing, SourceId};
use crate::mux::uuids::{hyphenated, parsed_uuid, Uuid};
use vstd::prelude::*;

verus! {

/// A message that arrives for a connected subchannel ends up at the end of its
/// mailbox, byte for byte and with all that came beside it, if every IPC sender
/// in it could be resolved. Every subsender in it comes with it, in order and
/// with its connection. No other mailbox changes.
pub proof fn law_message_reaches_its_mailbox(
    before: DemuxerView,
    boxes: MailboxMap,
    message: MultiMessage,
    receiver: Uuid,
    outcomes: Seq<Result<Connection, MuxError>>,
    outcome: Handled,
    after: DemuxerView,
    boxes_after: MailboxMap,
    scid: SubChannelId,
    id: MailboxId,
)
    requires
        message matches MultiMessage::Data(to, _, senders, _) && to == scid && resolved_all(
            before.senders,
            names_of(senders@),
            outcomes,
        ).error is None,
        before.sub_channels.contains_key(scid.0),
        before.sub_channels[scid.0].sender == Some(id),
        accepts(boxes, id),
        message_handled(before, boxes, message, receiver, outcomes, outcome, after, boxes_after),
    ensures
        outcome.result is Ok,
        outcome.effects@ == Seq::<Effect>::empty(),
        boxes_after.dom() == boxes.dom(),
        forall|other: MailboxId|
            #![trigger boxes_after[other]]
            other != id && boxes.contains_key(other) ==> boxes_after[other] == boxes[other],
        boxes_after[id].messages.len() == boxes[id].messages.len() + 1,
        boxes_after[id].messages.drop_last() == boxes[id].messages,
        (match boxes_after[id].messages.last() {
            ResolvedMessageOrDisconnect::ResolvedMessage(resolved) => {
                &&& resolved.scid == scid
                &&& resolved.payload == message->Data_1
                &&& resolved.attachments == message->Data_3
                &&& resolved.senders@.len() == message->Data_2@.len()
                &&& protos_of(
                    resolved.senders@,
                    message->Data_2@,
                    resolved_all(
                        before.senders,
                        names_of(message->Data_2@),
                        outcomes,
                    ).connections,
                    receiver,
                    before.disconnectors,
                )
            },
            ResolvedMessageOrDisconnect::Disconnect(_) => false,
        }),
{
    let senders = message->Data_2;
    lemma_all_resolved(before.senders, names_of(senders@), outcomes);
    assert(boxes_after.dom() =~= boxes.dom());
    assert(boxes_after[id].messages.drop_last() =~= boxes[id].messages);
}

pub(crate) proof fn lemma_failures_at(protos: Seq<ProtoSender>, via: SubChannelId, i: int)
    requires
        0 <= i < protos.len(),
    ensures
        failures(protos, via).len() == 2 * protos.len(),
        failures(protos, via)[2 * i] == Effect::Send(
            Outgoing {
                to: protos[i].connection.ipc_sender,
                message: MultiMessage::ReceiveFailed { scid: protos[i].scid, via },
            },
        ),
        failures(protos, via)[2 * i + 1] == Effect::Release(protos[i].disconnector),
    decreases protos.len(),
{
    reveal_with_fuel(failures, 2);
    let earlier = protos.drop_last();
    if i < earlier.len() {
        lemma_failures_at(earlier, via, i);
    } else if earlier.len() > 0 {
        lemma_failures_at(earlier, via, 0);
    }
}

/// No subsender in a message for an unknown subchannel is lost silently: the
/// receiver of each is told that it will not arrive.
pub proof fn law_undeliverable_subsenders_are_reported(
    before: DemuxerView,
    boxes: MailboxMap,
    message: MultiMessage,
    receiver: Uuid,
    outcomes: Seq<Result<Connection, MuxError>>,
    outcome: Handled,
    after: DemuxerView,
    boxes_after: MailboxMap,
    i: int,
)
    requires
        message is Data,
        !before.sub_channels.contains_key(message->Data_0.0),
        message_handled(before, boxes, message, receiver, outcomes, outcome, after, boxes_after),
        resolved_all(
            before.senders,
            names_of(message->Data_2@),
            outcomes,
        ).error is None,
        0 <= i < message->Data_2@.len(),
    ensures
        outcome.result is Err,
        exists|k: int|
            #![trigger outcome.effects@[k]]
            0 <= k < outcome.effects@.len() && (outcome.effects@[k] matches Effect::Send(sent)
                && sent.message == MultiMessage::ReceiveFailed {
                scid: message->Data_2@[i].0,
                via: message->Data_0,
            }),
        boxes_after == boxes,
{
    let senders = message->Data_2@;
    let scid = message->Data_0;
    let names = names_of(senders);
    let resolutions = resolved_all(before.senders, names, outcomes);
    lemma_all_resolved(before.senders, names, outcomes);
    let protos = choose|protos: Seq<ProtoSender>|
        {
            &&& #[trigger] protos_of(
                protos,
                senders,
                resolutions.connections,
                receiver,
                before.disconnectors,
            )
            &&& outcome.effects@ == failures(protos, scid)
        };
    lemma_failures_at(protos, scid, i);
    assert(protos[i].scid == senders[i].0);
    assert(outcome.effects@[2 * i] is Send);
}

proof fn lemma_all_resolved(
    senders: Map<Uuid, Connection>,
    named: Seq<IpcSenderAndOrId>,
    outcomes: Seq<Result<Connection, MuxError>>,
)
    requires
        resolved_all(senders, named, outcomes).error is None,
    ensures
        resolved_all(senders, named, outcomes).connections.len() == named.len(),
    decreases named.len(),
{
    if named.len() > 0 {
        lemma_all_resolved(senders, named.drop_last(), outcomes);
    }
}

/// The receiver of a subchannel learns that the last copy of its subsender has
/// been dropped: the news is the last thing in its mailbox, after every message
/// that arrived before.
pub proof fn law_last_drop_reaches_the_receiver(
    before: DemuxerView,
    boxes: MailboxMap,
    scid: SubChannelId,
    source: Uuid,
    outcome: Handled,
    after: DemuxerView,
    boxes_after: MailboxMap,
    receiver: Uuid,
    id: MailboxId,
)
    requires
        before.sub_channels.contains_key(scid.0),
        before.sub_channels[scid.0].sender == Some(id),
        before.sub_channels[scid.0].dropped_at(source).unreachable(),
        accepts(boxes, id),
        message_handled(
            before,
            boxes,
            MultiMessage::Disconnect(scid, source),
            receiver,
            Seq::empty(),
            outcome,
            after,
            boxes_after,
        ),
    ensures
        after.sub_channels[scid.0].sender is None,
        boxes_after.contains_key(id),
        boxes_after[id].messages == boxes[id].messages.push(
            ResolvedMessageOrDisconnect::Disconnect(scid),
        ),
{
}

/// Every client is told when the receiver of a subchannel disconnects.
pub proof fn law_every_client_is_told(
    state: DemuxerView,
    scid: SubChannelId,
    responses: Seq<(ResponseSender, MultiResponse)>,
    order: Seq<Uuid>,
    client: Uuid,
)
    requires
        lists_once(order, state.clients.dom()),
        responses == order.map_values(
            |client: Uuid|
                (state.clients[client], MultiResponse::SubReceiverDisconnected(scid)),
        ),
        state.clients.contains_key(client),
    ensures
        responses.contains((state.clients[client], MultiResponse::SubReceiverDisconnected(scid))),
{
    assert(state.clients.dom().contains(client));
    let k = choose|k: int| 0 <= k < order.len() && order[k] == client;
    assert(responses[k] == (state.clients[client], MultiResponse::SubReceiverDisconnected(scid)));
}

/// A target knows every IPC sender that a source has sent, each under the UUID
/// that identifies it, and no other under that UUID.
pub open spec fn in_step(
    ids: Map<u64, Uuid>,
    sent: Set<u64>,
    senders: Map<Uuid, Connection>,
) -> bool {
    &&& forall|handle: u64|
        #![trigger sent.contains(handle)]
        sent.contains(handle) ==> ids.contains_key(handle) && senders.contains_key(ids[handle])
    &&& forall|uuid: Uuid|
        #![trigger senders[uuid]]
        senders.contains_key(uuid) ==> {
            &&& ids.contains_key(senders[uuid].ipc_sender.handle)
            &&& ids[senders[uuid].ipc_sender.handle] == uuid
        }
}

/// However a source names an IPC sender, a target that has kept in step with it
/// finds the very sender, and stays in step: the sender itself need not be sent
/// again. UUIDs are unique and can be read back from their text.
pub proof fn law_named_sender_is_found(
    ids: Map<u64, Uuid>,
    sent: Map<SourceId, Set<u64>>,
    source: SourceId,
    senders: Map<Uuid, Connection>,
    named: IpcSenderAndOrId,
    handle: u64,
    outcomes: Seq<Result<Connection, MuxError>>,
)
    requires
        ids.is_injective(),
        ids.contains_key(handle),
        sent.contains_key(source),
        in_step(ids, sent[source], senders),
        names_sender(named@, handle, ids[handle], sent, source),
        (parsed_uuid(hyphenated(ids[handle])) == Ok::<Uuid, Seq<char>>(ids[handle])),
        named is IpcSender ==> outcomes.len() > 0 && (outcomes[0] matches Ok(connection)
            && connection.ipc_sender.handle == handle),
    ensures
        ({
            let resolution = resolved(senders, named, outcomes);
            &&& resolution.connection matches Ok(connection)
            &&& connection.ipc_sender.handle == handle
            &&& in_step(ids, sent[source].insert(handle), resolution.senders)
        }),
{
    let resolution = resolved(senders, named, outcomes);
    let uuid = ids[handle];
    if senders.contains_key(uuid) {
        assert(ids[senders[uuid].ipc_sender.handle] == uuid);
        assert(senders[uuid].ipc_sender.handle == handle);
    }
    assert(sent[source].contains(handle) ==> senders.contains_key(uuid));
}

} // verus!
