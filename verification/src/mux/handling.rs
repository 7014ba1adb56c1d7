//! What each kind of message does at a receiving end, in a set or not.

use crate::mux::demux::{
    message_handled, receivable, Connection, Demuxer, DemuxerView, Effect, Handled, LostChannels,
    MailboxMap, Probe, ResolvedMessageOrDisconnect, SubChannelMailboxes,
};
use crate::mux::error::{mux_error, MuxError, MuxErrorView};
use crate::mux::ipc_handles::OpaqueIpcReceiver;
use crate::mux::mailbox::MailboxId;
use crate::mux::protocol::{
    ClientId, IpcSenderAndOrId, MultiMessage, ResponseSender, SubChannelId, EMPTY_SUBCHANNEL_ID,
};
use crate::mux::receiver::{
    receiver_handled, MultiReceiver, MultiReceiverView, ReceiveEvent, TryReceiveError,
};
use crate::mux::subchannel_lifecycle::SubSenderView;
use crate::mux::subchannel_router::select::{
    selectable_handled, ReceiverId, SelectableMultiReceiver, SelectableView, Selectables, SetId,
};
use crate::mux::text::quoted;
use crate::mux::uuids::{hyphenated, parsed_uuid, Uuid};
use std::collections::VecDeque;
use vstd::multiset::Multiset;
use vstd::prelude::*;

verus! {

/// A message has been handled by the receiving end with the given UUID, which
/// may be in a set or not.
pub open spec fn handled_at(
    before: DemuxerView,
    boxes: MailboxMap,
    message: MultiMessage,
    receiver: Uuid,
    outcomes: Seq<Result<Connection, MuxError>>,
    outcome: Handled,
    after: DemuxerView,
    boxes_after: MailboxMap,
) -> bool {
    ||| message_handled(before, boxes, message, receiver, outcomes, outcome, after, boxes_after)
    ||| receiver_handled(
        MultiReceiverView { uuid: receiver, demuxer: before },
        boxes,
        message,
        outcomes,
        outcome,
        MultiReceiverView { uuid: receiver, demuxer: after },
        boxes_after,
    )
    ||| exists|set: SetId| #[trigger]
        selectable_handled(
            SelectableView { uuid: receiver, set, demuxer: before },
            boxes,
            message,
            outcomes,
            outcome,
            SelectableView { uuid: receiver, set, demuxer: after },
            boxes_after,
        )
}

/// A message was handled without a failure, and nothing is to be done outside.
pub open spec fn is_quiet(outcome: Handled) -> bool {
    outcome.result is Ok && outcome.effects@.len() == 0
}

/// Nothing is known differently but the senders of one subchannel and perhaps
/// the received IPC senders.
pub open spec fn differs_in_one(before: DemuxerView, after: DemuxerView, scid: SubChannelId) -> bool {
    &&& after.clients == before.clients
    &&& after.disconnectors == before.disconnectors
    &&& after.sub_channels.dom() == before.sub_channels.dom()
    &&& forall|other: Uuid|
        #![trigger after.sub_channels[other]]
        #![trigger before.sub_channels[other]]
        before.sub_channels.contains_key(other) && other != scid.0 ==> after.sub_channels[other]
            == before.sub_channels[other]
}

/// Some source holds a copy of a subsender, or some subchannel carries one.
pub open spec fn in_use(state: SubSenderView<MailboxId, Probe>) -> bool {
    ||| exists|source: u128| #[trigger] state.sources.contains(source)
    ||| exists|via: u128| #[trigger] state.in_flight.count(via) > 0
}

/// The mailbox of a subchannel has been told of the disconnection, after all
/// that it held, and has lost a sender. No other mailbox has changed.
pub open spec fn told_of_end(
    boxes: MailboxMap,
    id: MailboxId,
    scid: SubChannelId,
    boxes_after: MailboxMap,
) -> bool {
    &&& forall|other: MailboxId|
        #![trigger boxes.contains_key(other)]
        #![trigger boxes_after.contains_key(other)]
        other != id ==> {
            &&& boxes_after.contains_key(other) == boxes.contains_key(other)
            &&& boxes.contains_key(other) ==> boxes_after[other] == boxes[other]
        }
    &&& boxes.contains_key(id) && boxes[id].receiving ==> {
        &&& boxes_after.contains_key(id)
        &&& boxes_after[id].receiving
        &&& boxes_after[id].messages == boxes[id].messages.push(
            ResolvedMessageOrDisconnect::Disconnect(scid),
        )
        &&& boxes[id].senders > 0 ==> boxes_after[id].senders == boxes[id].senders - 1
        &&& boxes[id].senders == 0 ==> boxes_after[id].senders == 0
    }
    &&& boxes.contains_key(id) && !boxes[id].receiving ==> {
        &&& boxes[id].senders == 1 ==> !boxes_after.contains_key(id)
        &&& boxes[id].senders > 1 ==> {
            &&& boxes_after.contains_key(id)
            &&& boxes_after[id].senders == boxes[id].senders - 1
            &&& !boxes_after[id].receiving
            &&& boxes_after[id].messages == boxes[id].messages
        }
    }
    &&& !boxes.contains_key(id) ==> !boxes_after.contains_key(id)
}

/// A connected subchannel of which no copy is in use any more is disconnected,
/// and its mailbox is told. Any other keeps its mailbox, and no mailbox changes.
pub open spec fn ends_when_unused(
    before: SubSenderView<MailboxId, Probe>,
    boxes: MailboxMap,
    scid: SubChannelId,
    after: SubSenderView<MailboxId, Probe>,
    boxes_after: MailboxMap,
) -> bool {
    &&& before.sender is Some && !in_use(after) ==> {
        &&& after.sender is None
        &&& told_of_end(boxes, before.sender->0, scid, boxes_after)
    }
    &&& before.sender is None || in_use(after) ==> {
        &&& after.sender == before.sender
        &&& boxes_after == boxes
    }
}

proof fn lemma_in_use(state: SubSenderView<MailboxId, Probe>)
    ensures
        state.unreachable() == !in_use(state),
{
    if !in_use(state) {
        assert forall|source: u128| !state.sources.contains(source) by {}
        assert(state.sources =~= Set::<u128>::empty());
        assert forall|via: u128| state.in_flight.count(via) == 0 by {}
        assert(state.in_flight =~= Multiset::<u128>::empty());
    }
}

/// A client that connects is known from now on, by the sender for responses
/// that came with it. Every client that was known still is, by the sender that
/// it had, and nothing else changes.
pub proof fn law_connecting_client_is_known(
    before: DemuxerView,
    boxes: MailboxMap,
    sender: ResponseSender,
    client: ClientId,
    receiver: Uuid,
    outcomes: Seq<Result<Connection, MuxError>>,
    outcome: Handled,
    after: DemuxerView,
    boxes_after: MailboxMap,
)
    requires
        handled_at(
            before,
            boxes,
            MultiMessage::Connect(sender, client),
            receiver,
            outcomes,
            outcome,
            after,
            boxes_after,
        ),
    ensures
        is_quiet(outcome),
        after.clients.contains_key(client.0),
        after.clients[client.0] == sender,
        forall|other: Uuid|
            #![trigger after.clients.contains_key(other)]
            #![trigger before.clients.contains_key(other)]
            other != client.0 ==> {
                &&& after.clients.contains_key(other) == before.clients.contains_key(other)
                &&& before.clients.contains_key(other) ==> after.clients[other]
                    == before.clients[other]
            },
        after.sub_channels == before.sub_channels,
        after.disconnectors == before.disconnectors,
        after.senders == before.senders,
        boxes_after == boxes,
{
}

/// A subchannel is announced to a one-shot server before anything else. An
/// announcement at any other time is an error that tells of it, and changes
/// nothing.
pub proof fn law_late_announcement_is_an_error(
    before: DemuxerView,
    boxes: MailboxMap,
    scid: SubChannelId,
    name: String,
    receiver: Uuid,
    outcomes: Seq<Result<Connection, MuxError>>,
    outcome: Handled,
    after: DemuxerView,
    boxes_after: MailboxMap,
)
    requires
        handled_at(
            before,
            boxes,
            MultiMessage::SubChannelId(scid, name),
            receiver,
            outcomes,
            outcome,
            after,
            boxes_after,
        ),
    ensures
        outcome.result matches Err(e) && e@ == MuxErrorView::InternalError(
            "unexpected multi message SubChannelId(SubChannelId("@ + hyphenated(scid.0) + "), "@
                + quoted(name@) + ")"@,
        ),
        outcome.effects@.len() == 0,
        after == before,
        boxes_after == boxes,
{
}

/// The connection that an IPC sender named in a message stands for: one that
/// comes with the message has been connected with the first outcome, and one
/// that is named by its UUID was received under that UUID before.
pub open spec fn stands_for_connection(
    senders: Map<Uuid, Connection>,
    named: IpcSenderAndOrId,
    outcomes: Seq<Result<Connection, MuxError>>,
    connection: Connection,
) -> bool {
    match named {
        IpcSenderAndOrId::IpcSender(_, text) => {
            &&& parsed_uuid(text@) is Ok
            &&& outcomes.len() > 0
            &&& outcomes[0] == Ok::<Connection, MuxError>(connection)
        },
        IpcSenderAndOrId::IpcSenderId(text) => {
            &&& parsed_uuid(text@) is Ok
            &&& senders.contains_key(parsed_uuid(text@)->Ok_0)
            &&& senders[parsed_uuid(text@)->Ok_0] == connection
        },
    }
}

/// An IPC sender named in a message stands for no connection: its text is no
/// UUID, it could not be connected, or nothing was received under its UUID.
pub open spec fn stands_for_nothing(
    senders: Map<Uuid, Connection>,
    named: IpcSenderAndOrId,
    outcomes: Seq<Result<Connection, MuxError>>,
) -> bool {
    match named {
        IpcSenderAndOrId::IpcSender(_, text) => parsed_uuid(text@) is Err || outcomes[0] is Err,
        IpcSenderAndOrId::IpcSenderId(text) => match parsed_uuid(text@) {
            Ok(uuid) => !senders.contains_key(uuid),
            Err(_) => true,
        },
    }
}

/// One more copy is carried by a subchannel, whose channel is found to be alive
/// or gone by the given probe. Nothing else is known differently of the senders
/// of a subchannel.
pub open spec fn carries_one_more(
    before: SubSenderView<MailboxId, Probe>,
    via: Uuid,
    probe: Probe,
    after: SubSenderView<MailboxId, Probe>,
) -> bool {
    &&& after.sender == before.sender
    &&& after.sources == before.sources
    &&& after.in_flight.count(via) == before.in_flight.count(via) + 1
    &&& forall|other: u128|
        #![trigger after.in_flight.count(other)]
        #![trigger before.in_flight.count(other)]
        other != via ==> after.in_flight.count(other) == before.in_flight.count(other)
    &&& after.probes.contains_key(via)
    &&& after.probes[via] == probe
    &&& forall|other: u128|
        #![trigger after.probes.contains_key(other)]
        #![trigger before.probes.contains_key(other)]
        other != via ==> {
            &&& after.probes.contains_key(other) == before.probes.contains_key(other)
            &&& before.probes.contains_key(other) ==> after.probes[other] == before.probes[other]
        }
}

/// The news that a subsender is being sent over a subchannel counts one more
/// copy that this subchannel carries, and the channel under it is probed from
/// now on. Nothing is put in any mailbox.
pub proof fn law_sending_counts_a_copy(
    before: DemuxerView,
    boxes: MailboxMap,
    scid: SubChannelId,
    via: SubChannelId,
    via_chan: IpcSenderAndOrId,
    receiver: Uuid,
    outcomes: Seq<Result<Connection, MuxError>>,
    outcome: Handled,
    after: DemuxerView,
    boxes_after: MailboxMap,
    connection: Connection,
)
    requires
        handled_at(
            before,
            boxes,
            MultiMessage::Sending { scid, via, via_chan },
            receiver,
            outcomes,
            outcome,
            after,
            boxes_after,
        ),
        before.sub_channels.contains_key(scid.0),
        stands_for_connection(before.senders, via_chan, outcomes, connection),
    ensures
        is_quiet(outcome),
        differs_in_one(before, after, scid),
        carries_one_more(
            before.sub_channels[scid.0],
            via.0,
            Probe::MultiSender(connection.multi_sender),
            after.sub_channels[scid.0],
        ),
        boxes_after == boxes,
{
    assert(after.sub_channels.dom() =~= before.sub_channels.dom());
}

/// A copy that is being sent over a channel that is not known is lost at once:
/// the same copies are in flight as before, and a subchannel of which none is
/// in use is disconnected.
pub proof fn law_sending_nowhere_counts_nothing(
    before: DemuxerView,
    boxes: MailboxMap,
    scid: SubChannelId,
    via: SubChannelId,
    via_chan: IpcSenderAndOrId,
    receiver: Uuid,
    outcomes: Seq<Result<Connection, MuxError>>,
    outcome: Handled,
    after: DemuxerView,
    boxes_after: MailboxMap,
)
    requires
        handled_at(
            before,
            boxes,
            MultiMessage::Sending { scid, via, via_chan },
            receiver,
            outcomes,
            outcome,
            after,
            boxes_after,
        ),
        before.sub_channels.contains_key(scid.0),
        stands_for_nothing(before.senders, via_chan, outcomes),
    ensures
        is_quiet(outcome),
        differs_in_one(before, after, scid),
        after.senders == before.senders,
        ({
            let was = before.sub_channels[scid.0];
            let now = after.sub_channels[scid.0];
            &&& now.sources == was.sources
            &&& now.in_flight == was.in_flight
            &&& ends_when_unused(was, boxes, scid, now, boxes_after)
        }),
{
    let was = before.sub_channels[scid.0];
    let now = after.sub_channels[scid.0];
    assert(after.sub_channels.dom() =~= before.sub_channels.dom());
    let lost = was.sent_via(via.0, Probe::Lost).failed_via(via.0);
    assert(was.in_flight.insert(via.0).remove(via.0) =~= was.in_flight);
    lemma_in_use(lost);
    assert(lost.in_flight == was.in_flight);
    lemma_in_use(now);
}

/// A sender that comes with the news that a subsender is being sent is received:
/// it can be named by its UUID afterwards, unless another one already was.
pub proof fn law_carrier_is_remembered(
    before: DemuxerView,
    boxes: MailboxMap,
    scid: SubChannelId,
    via: SubChannelId,
    via_chan: IpcSenderAndOrId,
    receiver: Uuid,
    outcomes: Seq<Result<Connection, MuxError>>,
    outcome: Handled,
    after: DemuxerView,
    boxes_after: MailboxMap,
    connection: Connection,
)
    requires
        handled_at(
            before,
            boxes,
            MultiMessage::Sending { scid, via, via_chan },
            receiver,
            outcomes,
            outcome,
            after,
            boxes_after,
        ),
        stands_for_connection(before.senders, via_chan, outcomes, connection),
    ensures
        ({
            let id = match via_chan {
                IpcSenderAndOrId::IpcSender(_, text) => parsed_uuid(text@)->Ok_0,
                IpcSenderAndOrId::IpcSenderId(text) => parsed_uuid(text@)->Ok_0,
            };
            &&& after.senders.contains_key(id)
            &&& after.senders[id] == if before.senders.contains_key(id) {
                before.senders[id]
            } else {
                connection
            }
            &&& forall|other: Uuid|
                #![trigger after.senders.contains_key(other)]
                #![trigger before.senders.contains_key(other)]
                other != id ==> {
                    &&& after.senders.contains_key(other) == before.senders.contains_key(other)
                    &&& before.senders.contains_key(other) ==> after.senders[other]
                        == before.senders[other]
                }
        }),
{
}

/// The news that a subsender is being sent over a raw IPC channel counts one
/// more copy that no subchannel carries, which is found to be lost by its
/// keepalive receiver.
pub proof fn law_sending_via_ipc_channel_counts_a_copy(
    before: DemuxerView,
    boxes: MailboxMap,
    scid: SubChannelId,
    keepalive: OpaqueIpcReceiver,
    receiver: Uuid,
    outcomes: Seq<Result<Connection, MuxError>>,
    outcome: Handled,
    after: DemuxerView,
    boxes_after: MailboxMap,
)
    requires
        handled_at(
            before,
            boxes,
            MultiMessage::SendingViaIpcChannel { scid, keepalive },
            receiver,
            outcomes,
            outcome,
            after,
            boxes_after,
        ),
        before.sub_channels.contains_key(scid.0),
    ensures
        is_quiet(outcome),
        differs_in_one(before, after, scid),
        after.senders == before.senders,
        carries_one_more(
            before.sub_channels[scid.0],
            EMPTY_SUBCHANNEL_ID,
            Probe::Keepalive(keepalive.handle),
            after.sub_channels[scid.0],
        ),
        boxes_after == boxes,
{
    assert(after.sub_channels.dom() =~= before.sub_channels.dom());
}

/// A subchannel carries one copy fewer, if it carried any.
pub open spec fn carries_one_less(
    before: SubSenderView<MailboxId, Probe>,
    via: Uuid,
    after: SubSenderView<MailboxId, Probe>,
) -> bool {
    &&& before.in_flight.count(via) > 0 ==> after.in_flight.count(via) == before.in_flight.count(
        via,
    ) - 1
    &&& before.in_flight.count(via) == 0 ==> after.in_flight.count(via) == 0
    &&& forall|other: u128|
        #![trigger after.in_flight.count(other)]
        #![trigger before.in_flight.count(other)]
        other != via ==> after.in_flight.count(other) == before.in_flight.count(other)
}

/// A copy that has been received is in flight no longer and is held where it
/// was received. The channel that carried the last copy is probed no longer.
/// The subchannel stays as connected as it was, and nothing is put in any
/// mailbox.
pub proof fn law_received_copy_is_held(
    before: DemuxerView,
    boxes: MailboxMap,
    scid: SubChannelId,
    via: SubChannelId,
    new_source: Uuid,
    receiver: Uuid,
    outcomes: Seq<Result<Connection, MuxError>>,
    outcome: Handled,
    after: DemuxerView,
    boxes_after: MailboxMap,
)
    requires
        handled_at(
            before,
            boxes,
            MultiMessage::Received { scid, via, new_source },
            receiver,
            outcomes,
            outcome,
            after,
            boxes_after,
        ),
        before.sub_channels.contains_key(scid.0),
    ensures
        is_quiet(outcome),
        differs_in_one(before, after, scid),
        after.senders == before.senders,
        boxes_after == boxes,
        ({
            let was = before.sub_channels[scid.0];
            let now = after.sub_channels[scid.0];
            &&& now.sender == was.sender
            &&& carries_one_less(was, via.0, now)
            &&& now.sources.contains(new_source)
            &&& forall|source: u128|
                #![trigger now.sources.contains(source)]
                #![trigger was.sources.contains(source)]
                source != new_source ==> now.sources.contains(source) == was.sources.contains(
                    source,
                )
            &&& now.probes.contains_key(via.0) == (was.probes.contains_key(via.0)
                && now.in_flight.count(via.0) > 0)
            &&& forall|other: u128|
                #![trigger now.probes.contains_key(other)]
                #![trigger was.probes.contains_key(other)]
                now.probes.contains_key(other) ==> now.probes[other] == was.probes[other]
            &&& forall|other: u128|
                #![trigger now.probes.contains_key(other)]
                #![trigger was.probes.contains_key(other)]
                other != via.0 ==> now.probes.contains_key(other) == was.probes.contains_key(
                    other,
                )
        }),
{
    assert(after.sub_channels.dom() =~= before.sub_channels.dom());
}

/// A copy that was lost on its way is in flight no longer, and the subchannel is
/// disconnected if no copy is left in use.
pub proof fn law_failed_copy_is_given_up(
    before: DemuxerView,
    boxes: MailboxMap,
    scid: SubChannelId,
    via: SubChannelId,
    receiver: Uuid,
    outcomes: Seq<Result<Connection, MuxError>>,
    outcome: Handled,
    after: DemuxerView,
    boxes_after: MailboxMap,
)
    requires
        handled_at(
            before,
            boxes,
            MultiMessage::ReceiveFailed { scid, via },
            receiver,
            outcomes,
            outcome,
            after,
            boxes_after,
        ),
        before.sub_channels.contains_key(scid.0),
    ensures
        is_quiet(outcome),
        differs_in_one(before, after, scid),
        after.senders == before.senders,
        ({
            let was = before.sub_channels[scid.0];
            let now = after.sub_channels[scid.0];
            &&& carries_one_less(was, via.0, now)
            &&& now.sources == was.sources
            &&& now.probes == was.probes
            &&& ends_when_unused(was, boxes, scid, now, boxes_after)
        }),
{
    assert(after.sub_channels.dom() =~= before.sub_channels.dom());
    let was = before.sub_channels[scid.0];
    lemma_in_use(was.failed_via(via.0));
    lemma_in_use(after.sub_channels[scid.0]);
}

/// A source that has dropped its last copy holds none, and the subchannel is
/// disconnected if no copy is left in use. Copies in flight are still in flight.
pub proof fn law_source_lets_go(
    before: DemuxerView,
    boxes: MailboxMap,
    scid: SubChannelId,
    source: Uuid,
    receiver: Uuid,
    outcomes: Seq<Result<Connection, MuxError>>,
    outcome: Handled,
    after: DemuxerView,
    boxes_after: MailboxMap,
)
    requires
        handled_at(
            before,
            boxes,
            MultiMessage::Disconnect(scid, source),
            receiver,
            outcomes,
            outcome,
            after,
            boxes_after,
        ),
        before.sub_channels.contains_key(scid.0),
    ensures
        is_quiet(outcome),
        differs_in_one(before, after, scid),
        after.senders == before.senders,
        ({
            let was = before.sub_channels[scid.0];
            let now = after.sub_channels[scid.0];
            &&& now.in_flight == was.in_flight
            &&& now.probes == was.probes
            &&& !now.sources.contains(source)
            &&& forall|other: u128|
                #![trigger now.sources.contains(other)]
                #![trigger was.sources.contains(other)]
                other != source ==> now.sources.contains(other) == was.sources.contains(other)
            &&& ends_when_unused(was, boxes, scid, now, boxes_after)
        }),
{
    assert(after.sub_channels.dom() =~= before.sub_channels.dom());
    let was = before.sub_channels[scid.0];
    lemma_in_use(was.dropped_at(source));
    lemma_in_use(after.sub_channels[scid.0]);
}

/// The subchannel that a message about copies of a subsender concerns.
pub open spec fn concerned_by(message: MultiMessage) -> Option<SubChannelId> {
    match message {
        MultiMessage::Sending { scid, .. } => Some(scid),
        MultiMessage::SendingViaIpcChannel { scid, .. } => Some(scid),
        MultiMessage::ReceiveFailed { scid, .. } => Some(scid),
        MultiMessage::Received { scid, .. } => Some(scid),
        MultiMessage::Disconnect(scid, _) => Some(scid),
        _ => None,
    }
}

/// A message about the copies of a subsender for a subchannel that is not known
/// here is passed over.
pub proof fn law_unknown_subchannel_is_passed_over(
    before: DemuxerView,
    boxes: MailboxMap,
    message: MultiMessage,
    receiver: Uuid,
    outcomes: Seq<Result<Connection, MuxError>>,
    outcome: Handled,
    after: DemuxerView,
    boxes_after: MailboxMap,
)
    requires
        handled_at(before, boxes, message, receiver, outcomes, outcome, after, boxes_after),
        concerned_by(message) matches Some(scid) && !before.sub_channels.contains_key(scid.0),
    ensures
        is_quiet(outcome),
        after.sub_channels == before.sub_channels,
        after.clients == before.clients,
        after.disconnectors == before.disconnectors,
        message !is Sending ==> after.senders == before.senders,
        boxes_after == boxes,
{
}

/// A copy in flight keeps a subchannel connected: once it is known that a
/// subsender is being sent over a subchannel, the last source that lets go of
/// its copies leaves the subchannel where it was, and its mailbox untouched.
pub proof fn law_copy_in_flight_outlives_sources(
    before: DemuxerView,
    boxes: MailboxMap,
    scid: SubChannelId,
    via: SubChannelId,
    via_chan: IpcSenderAndOrId,
    receiver: Uuid,
    outcomes: Seq<Result<Connection, MuxError>>,
    sending: Handled,
    middle: DemuxerView,
    boxes_between: MailboxMap,
    connection: Connection,
    source: Uuid,
    letting_go: Handled,
    after: DemuxerView,
    boxes_after: MailboxMap,
)
    requires
        before.sub_channels.contains_key(scid.0),
        stands_for_connection(before.senders, via_chan, outcomes, connection),
        handled_at(
            before,
            boxes,
            MultiMessage::Sending { scid, via, via_chan },
            receiver,
            outcomes,
            sending,
            middle,
            boxes_between,
        ),
        handled_at(
            middle,
            boxes_between,
            MultiMessage::Disconnect(scid, source),
            receiver,
            Seq::empty(),
            letting_go,
            after,
            boxes_after,
        ),
    ensures
        middle.sub_channels[scid.0].in_flight.count(via.0)
            == before.sub_channels[scid.0].in_flight.count(via.0) + 1,
        after.sub_channels[scid.0].sender == before.sub_channels[scid.0].sender,
        after.sub_channels[scid.0].in_flight.count(via.0)
            == before.sub_channels[scid.0].in_flight.count(via.0) + 1,
        boxes_after == boxes,
{
    law_sending_counts_a_copy(
        before,
        boxes,
        scid,
        via,
        via_chan,
        receiver,
        outcomes,
        sending,
        middle,
        boxes_between,
        connection,
    );
    law_source_lets_go(
        middle,
        boxes_between,
        scid,
        source,
        receiver,
        Seq::empty(),
        letting_go,
        after,
        boxes_after,
    );
    assert(after.sub_channels[scid.0].in_flight.count(via.0) > 0);
}

/// A demuxer handles every message that is handed to it.
pub proof fn law_demuxer_handles(
    demuxer: &mut Demuxer,
    message: MultiMessage,
    receiver: Uuid,
    outcomes: VecDeque<Result<Connection, MuxError>>,
    mailboxes: &mut SubChannelMailboxes,
    outcome: Handled,
)
    requires
        call_ensures(Demuxer::handle, (demuxer, message, receiver, outcomes, mailboxes), outcome),
    ensures
        handled_at(
            old(demuxer)@,
            old(mailboxes)@,
            message,
            receiver,
            outcomes@,
            outcome,
            final(demuxer)@,
            final(mailboxes)@,
        ),
{
}

/// A demuxer that is asked to try handles a message, unless it does not have
/// the outcomes that the message needs, and then leaves all as it was.
pub proof fn law_demuxer_tries(
    demuxer: &mut Demuxer,
    message: MultiMessage,
    receiver: Uuid,
    outcomes: VecDeque<Result<Connection, MuxError>>,
    mailboxes: &mut SubChannelMailboxes,
    outcome: Option<Handled>,
)
    requires
        call_ensures(
            Demuxer::try_handle,
            (demuxer, message, receiver, outcomes, mailboxes),
            outcome,
        ),
    ensures
        outcome is Some == receivable(old(demuxer)@, message, outcomes@),
        (match outcome {
            Some(outcome) => handled_at(
                old(demuxer)@,
                old(mailboxes)@,
                message,
                receiver,
                outcomes@,
                outcome,
                final(demuxer)@,
                final(mailboxes)@,
            ),
            None => final(demuxer)@ == old(demuxer)@ && final(mailboxes)@ == old(mailboxes)@,
        }),
{
}

/// A receiving end that is in no set handles every message that arrives, as the
/// end with its own UUID, which it keeps.
pub proof fn law_receiving_end_handles(
    end: &mut MultiReceiver,
    message: MultiMessage,
    outcomes: VecDeque<Result<Connection, MuxError>>,
    mailboxes: &mut SubChannelMailboxes,
    outcome: Handled,
)
    requires
        call_ensures(
            MultiReceiver::handle_initial_message,
            (end, message, outcomes, mailboxes),
            outcome,
        ),
    ensures
        final(end)@.uuid == old(end)@.uuid,
        handled_at(
            old(end)@.demuxer,
            old(mailboxes)@,
            message,
            old(end)@.uuid,
            outcomes@,
            outcome,
            final(end)@.demuxer,
            final(mailboxes)@,
        ),
{
}

/// A receiving end in a set handles every message that arrives, as the end with
/// its own UUID, which it keeps, and stays in its set.
pub proof fn law_set_member_handles(
    end: &mut SelectableMultiReceiver,
    message: MultiMessage,
    outcomes: VecDeque<Result<Connection, MuxError>>,
    mailboxes: &mut SubChannelMailboxes,
    outcome: Handled,
)
    requires
        call_ensures(
            SelectableMultiReceiver::handle,
            (end, message, outcomes, mailboxes),
            outcome,
        ),
    ensures
        final(end)@.uuid == old(end)@.uuid,
        final(end)@.set == old(end)@.set,
        handled_at(
            old(end)@.demuxer,
            old(mailboxes)@,
            message,
            old(end)@.uuid,
            outcomes@,
            outcome,
            final(end)@.demuxer,
            final(mailboxes)@,
        ),
{
    assert(selectable_handled(
        SelectableView {
            uuid: old(end)@.uuid,
            set: old(end)@.set,
            demuxer: old(end)@.demuxer,
        },
        old(mailboxes)@,
        message,
        outcomes@,
        outcome,
        SelectableView {
            uuid: old(end)@.uuid,
            set: old(end)@.set,
            demuxer: final(end)@.demuxer,
        },
        final(mailboxes)@,
    ));
}

/// A message from an IPC receiver registered in a set is handled by the
/// receiving end that is registered under its id, and by no other. If that is
/// gone, or nothing is registered, the message is dropped. The sets stay as they
/// are.
pub proof fn law_registered_end_handles(
    selectables: &mut Selectables,
    set: SetId,
    id: u64,
    message: MultiMessage,
    outcomes: VecDeque<Result<Connection, MuxError>>,
    mailboxes: &mut SubChannelMailboxes,
    outcome: Handled,
)
    requires
        call_ensures(
            Selectables::message_received,
            (selectables, set, id, message, outcomes, mailboxes),
            outcome,
        ) || call_ensures(
            Selectables::checked_message_received,
            (selectables, set, id, message, outcomes, mailboxes),
            Some(outcome),
        ),
    ensures
        ({
            let before = old(selectables)@;
            let after = final(selectables)@;
            let registered = before.sets.contains_key(set)
                && before.sets[set].multi_receivers.contains_key(id);
            let end = before.sets[set].multi_receivers[id];
            &&& registered && before.receivers.contains_key(end) ==> {
                &&& after.sets == before.sets
                &&& after.receivers.dom() == before.receivers.dom()
                &&& forall|other: ReceiverId|
                    #![trigger after.receivers[other]]
                    other != end && before.receivers.contains_key(other) ==> after.receivers[other]
                        == before.receivers[other]
                &&& after.receivers[end].uuid == before.receivers[end].uuid
                &&& after.receivers[end].set == before.receivers[end].set
                &&& handled_at(
                    before.receivers[end].demuxer,
                    old(mailboxes)@,
                    message,
                    before.receivers[end].uuid,
                    outcomes@,
                    outcome,
                    after.receivers[end].demuxer,
                    final(mailboxes)@,
                )
            }
            &&& !registered || !before.receivers.contains_key(end) ==> {
                &&& is_quiet(outcome)
                &&& after == before
                &&& final(mailboxes)@ == old(mailboxes)@
            }
        }),
{
    let before = old(selectables)@;
    let after = final(selectables)@;
    if before.sets.contains_key(set) && before.sets[set].multi_receivers.contains_key(id) {
        let end = before.sets[set].multi_receivers[id];
        if before.receivers.contains_key(end) {
            assert(after.receivers.dom() =~= before.receivers.dom());
            assert(selectable_handled(
                SelectableView {
                    uuid: before.receivers[end].uuid,
                    set: before.receivers[end].set,
                    demuxer: before.receivers[end].demuxer,
                },
                old(mailboxes)@,
                message,
                outcomes@,
                outcome,
                SelectableView {
                    uuid: before.receivers[end].uuid,
                    set: before.receivers[end].set,
                    demuxer: after.receivers[end].demuxer,
                },
                final(mailboxes)@,
            ));
        }
    }
}

/// A non-blocking receive from the IPC channel of a receiving end handles the
/// message, if there is one, and tells its caller that it did or why it failed.
/// If there is none, or the channel failed, all stays as it was.
pub proof fn law_tried_receive_handles(
    end: &mut MultiReceiver,
    event: ReceiveEvent,
    mailboxes: &mut SubChannelMailboxes,
    outcome: (TryReceiveError, Vec<Effect>),
)
    requires
        call_ensures(MultiReceiver::try_recv, (end, event, mailboxes), outcome),
    ensures
        event matches ReceiveEvent::Message(message, outcomes) ==> exists|handled: Handled|
            {
                &&& #[trigger] handled_at(
                    old(end)@.demuxer,
                    old(mailboxes)@,
                    message,
                    old(end)@.uuid,
                    outcomes@,
                    handled,
                    final(end)@.demuxer,
                    final(mailboxes)@,
                )
                &&& outcome.1@ == handled.effects@
                &&& handled.result is Ok ==> outcome.0 is Handled
                &&& handled.result matches Err(e) ==> outcome.0 == TryReceiveError::MuxError(e)
            },
        event !is Message ==> {
            &&& final(end)@ == old(end)@
            &&& final(mailboxes)@ == old(mailboxes)@
            &&& outcome.1@.len() == 0
        },
        event is Empty ==> outcome.0 is Empty,
        event matches ReceiveEvent::IpcError(e) ==> outcome.0 == TryReceiveError::MuxError(
            mux_error(e),
        ),
        final(end)@.uuid == old(end)@.uuid,
{
    match event {
        ReceiveEvent::Message(message, outcomes) => {
            let handled = choose|handled: Handled|
                {
                    &&& #[trigger] receiver_handled(
                        old(end)@,
                        old(mailboxes)@,
                        message,
                        outcomes@,
                        handled,
                        final(end)@,
                        final(mailboxes)@,
                    )
                    &&& outcome.0 == match handled.result {
                        Ok(()) => TryReceiveError::Handled,
                        Err(e) => TryReceiveError::MuxError(e),
                    }
                    &&& outcome.1 == handled.effects
                };
            assert(handled_at(
                old(end)@.demuxer,
                old(mailboxes)@,
                message,
                old(end)@.uuid,
                outcomes@,
                handled,
                final(end)@.demuxer,
                final(mailboxes)@,
            ));
        },
        _ => {},
    }
}

/// A receive from the IPC channel of a receiving end that waits handles the
/// message, if there is one. If the channel failed, all stays as it was, and the
/// failure is told.
pub proof fn law_timed_receive_handles(
    end: &mut MultiReceiver,
    event: ReceiveEvent,
    lost: &LostChannels,
    mailboxes: &mut SubChannelMailboxes,
    outcome: Handled,
)
    requires
        call_ensures(MultiReceiver::try_recv_timeout, (end, event, lost, mailboxes), outcome),
    ensures
        event matches ReceiveEvent::Message(message, outcomes) ==> handled_at(
            old(end)@.demuxer,
            old(mailboxes)@,
            message,
            old(end)@.uuid,
            outcomes@,
            outcome,
            final(end)@.demuxer,
            final(mailboxes)@,
        ),
        event matches ReceiveEvent::IpcError(e) ==> {
            &&& outcome.result == Err::<(), MuxError>(mux_error(e))
            &&& outcome.effects@.len() == 0
            &&& final(end)@ == old(end)@
            &&& final(mailboxes)@ == old(mailboxes)@
        },
        event is Empty ==> is_quiet(outcome),
        final(end)@.uuid == old(end)@.uuid,
{
}

} // verus!
