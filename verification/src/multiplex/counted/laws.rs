//! What each kind of message, a poll and a receive do at a receiving end.

use crate::multiplex::counted::channel::OneShotMultiServer;
use crate::multiplex::counted::error::{multiplex_error, MultiplexError, MultiplexErrorView};
use crate::multiplex::counted::protocol::MultiMessage;
use crate::multiplex::counted::receiver::{
    message_handled, named_in, payload_sorted, polled_in_order, polled_one, probes_by, recv_next,
    sender_resolved, senders_resolved, to_connect, ConnectOutcome, MultiReceiver,
    MultiReceiverView, Polled, ReceptionContext, RecvOutcome, RecvStep, SubChannelReceiver,
    SubChannelState,
};
use crate::multiplex::counted::sender::{Outgoing, SubChannelSender};
use crate::multiplex::receiver::{Mail, PayloadMailboxes, PayloadMap};
use crate::multiplex::subchannel_lifecycle::lost_vias;
use crate::mux::demux::lists_once;
use crate::mux::error::IpcError;
use crate::mux::mailbox::MailboxId;
use crate::mux::protocol::{
    ClientId, IpcSenderAndOrId, MultiResponse, ResponseSender, SubChannelId, SubChannelSenderIds,
};
use crate::mux::receiving::is_foreign;
use crate::mux::sender::{SourceTable, SubChannelDisconnector};
use crate::mux::sender_id::ForwardSender;
use crate::mux::sending::has_new_source;
use crate::mux::sorting::{brought_by, text_of};
use crate::mux::text::quoted;
use crate::mux::uuids::{hyphenated, parsed_uuid, Uuid};
use std::collections::VecDeque;
use std::sync::Arc;
use vstd::multiset::Multiset;
use vstd::prelude::*;

verus! {

/// Some source holds a copy of a subsender, or some subchannel carries one.
pub open spec fn in_use(state: SubChannelState) -> bool {
    ||| exists|source: u128| #[trigger] state.sources.contains(source)
    ||| exists|copy: (u128, u128)| #[trigger] state.in_flight.count(copy) > 0
}

proof fn lemma_in_use(state: SubChannelState)
    ensures
        state.unreachable() == !in_use(state),
{
    if !in_use(state) {
        assert forall|source: u128| !state.sources.contains(source) by {}
        assert(state.sources =~= Set::<u128>::empty());
        assert forall|copy: (u128, u128)| state.in_flight.count(copy) == 0 by {}
        assert(state.in_flight =~= Multiset::<(u128, u128)>::empty());
    }
}

/// Nothing is known differently but the senders of one subchannel and perhaps
/// the received IPC senders.
pub open spec fn differs_in_one(
    before: MultiReceiverView,
    after: MultiReceiverView,
    scid: SubChannelId,
) -> bool {
    &&& after.uuid == before.uuid
    &&& after.clients == before.clients
    &&& after.disconnectors == before.disconnectors
    &&& after.sub_channels.dom() == before.sub_channels.dom()
    &&& forall|other: Uuid|
        #![trigger after.sub_channels[other]]
        #![trigger before.sub_channels[other]]
        before.sub_channels.contains_key(other) && other != scid.0 ==> after.sub_channels[other]
            == before.sub_channels[other]
}

/// A mailbox has one sender less, and is gone if nobody sends to it or receives
/// from it any more. Its messages stay, and no other mailbox changes.
pub open spec fn loses_sender(
    boxes: PayloadMap,
    id: MailboxId,
    boxes_after: PayloadMap,
) -> bool {
    &&& forall|other: MailboxId|
        #![trigger boxes.contains_key(other)]
        #![trigger boxes_after.contains_key(other)]
        other != id ==> {
            &&& boxes_after.contains_key(other) == boxes.contains_key(other)
            &&& boxes.contains_key(other) ==> boxes_after[other] == boxes[other]
        }
    &&& !boxes.contains_key(id) ==> !boxes_after.contains_key(id)
    &&& boxes.contains_key(id) && (boxes[id].senders > 1 || boxes[id].receiving) ==> {
        &&& boxes_after.contains_key(id)
        &&& boxes[id].senders > 0 ==> boxes_after[id].senders == boxes[id].senders - 1
        &&& boxes[id].senders == 0 ==> boxes_after[id].senders == 0
        &&& boxes_after[id].messages == boxes[id].messages
        &&& boxes_after[id].receiving == boxes[id].receiving
    }
    &&& boxes.contains_key(id) && boxes[id].senders == 1 && !boxes[id].receiving
        ==> !boxes_after.contains_key(id)
}

/// A message has been handled.
pub proof fn law_receiving_end_handles(
    end: &mut MultiReceiver,
    message: MultiMessage,
    outcomes: VecDeque<ConnectOutcome>,
    context: &mut ReceptionContext,
    mailboxes: &mut PayloadMailboxes,
    result: Result<(), MultiplexError>,
)
    requires
        call_ensures(MultiReceiver::handle, (end, message, outcomes, context, mailboxes), result),
    ensures
        message_handled(
            old(end)@,
            old(mailboxes)@,
            *old(context),
            message,
            outcomes@,
            result,
            final(end)@,
            final(mailboxes)@,
            *final(context),
        ),
{
}

/// A receiving end that is asked to try handles a message, unless it does not
/// have the outcomes that the message needs, and then leaves all as it was.
pub proof fn law_receiving_end_tries(
    end: &mut MultiReceiver,
    message: MultiMessage,
    outcomes: VecDeque<ConnectOutcome>,
    context: &mut ReceptionContext,
    mailboxes: &mut PayloadMailboxes,
    result: Option<Result<(), MultiplexError>>,
)
    requires
        call_ensures(
            MultiReceiver::try_handle,
            (end, message, outcomes, context, mailboxes),
            result,
        ),
    ensures
        (match result {
            Some(result) => message_handled(
                old(end)@,
                old(mailboxes)@,
                *old(context),
                message,
                outcomes@,
                result,
                final(end)@,
                final(mailboxes)@,
                *final(context),
            ),
            None => {
                &&& final(end)@ == old(end)@
                &&& final(mailboxes)@ == old(mailboxes)@
                &&& *final(context) == *old(context)
            },
        }),
{
}

/// A client that connects is known from now on, by the sender for responses
/// that came with it. Every client that was known still is, and nothing else
/// changes.
pub proof fn law_connecting_client_is_known(
    before: MultiReceiverView,
    boxes: PayloadMap,
    context: ReceptionContext,
    sender: ResponseSender,
    client: ClientId,
    outcomes: Seq<ConnectOutcome>,
    result: Result<(), MultiplexError>,
    after: MultiReceiverView,
    boxes_after: PayloadMap,
    context_after: ReceptionContext,
)
    requires
        message_handled(
            before,
            boxes,
            context,
            MultiMessage::Connect(sender, client),
            outcomes,
            result,
            after,
            boxes_after,
            context_after,
        ),
    ensures
        result is Ok,
        after.clients.contains_key(client.0),
        after.clients[client.0] == sender,
        forall|other: Uuid|
            #![trigger after.clients.contains_key(other)]
            #![trigger before.clients.contains_key(other)]
            other != client.0 ==> {
                &&& after.clients.contains_key(other) == before.clients.contains_key(other)
                &&& before.clients.contains_key(other) ==> after.clients[other]
                    == before.clients[other]
            },
        after.uuid == before.uuid,
        after.sub_channels == before.sub_channels,
        after.disconnectors == before.disconnectors,
        after.senders == before.senders,
        boxes_after == boxes,
        context_after == context,
{
}

/// A probe does nothing where it arrives, and an announcement of a subchannel
/// other than to a one-shot server is an error that tells of it and does nothing
/// either.
pub proof fn law_probes_and_late_announcements_change_nothing(
    before: MultiReceiverView,
    boxes: PayloadMap,
    context: ReceptionContext,
    message: MultiMessage,
    outcomes: Seq<ConnectOutcome>,
    result: Result<(), MultiplexError>,
    after: MultiReceiverView,
    boxes_after: PayloadMap,
    context_after: ReceptionContext,
)
    requires
        message_handled(
            before,
            boxes,
            context,
            message,
            outcomes,
            result,
            after,
            boxes_after,
            context_after,
        ),
        message is Probe || message is SubChannelId,
    ensures
        message is Probe ==> result is Ok,
        message matches MultiMessage::SubChannelId(scid, name) ==> (result matches Err(e) && e@
            == MultiplexErrorView::InternalError(
            "unexpected multi message SubChannelId(SubChannelId("@ + hyphenated(scid.0) + "), "@
                + quoted(name@) + ")"@,
        )),
        after == before,
        boxes_after == boxes,
        context_after == context,
{
}

/// The news that a subsender is being sent from a source over a subchannel whose
/// IPC sender comes with it counts one more such copy, which is probed by that
/// IPC sender. Nothing is put in any mailbox, and the subchannel is as connected
/// as it was.
pub proof fn law_sending_counts_a_copy(
    before: MultiReceiverView,
    boxes: PayloadMap,
    context: ReceptionContext,
    scid: SubChannelId,
    from: Uuid,
    via: SubChannelId,
    via_chan: IpcSenderAndOrId,
    outcomes: Seq<ConnectOutcome>,
    result: Result<(), MultiplexError>,
    after: MultiReceiverView,
    boxes_after: PayloadMap,
    context_after: ReceptionContext,
)
    requires
        message_handled(
            before,
            boxes,
            context,
            MultiMessage::Sending { scid, from, via, via_chan },
            outcomes,
            result,
            after,
            boxes_after,
            context_after,
        ),
    ensures
        boxes_after == boxes,
        context_after == context,
        differs_in_one(before, after, scid),
        result is Err ==> after.sub_channels == before.sub_channels,
        result is Ok && before.sub_channels.contains_key(scid.0) ==> {
            let was = before.sub_channels[scid.0];
            let now = after.sub_channels[scid.0];
            &&& now.sender == was.sender
            &&& now.sources == was.sources
            &&& now.in_flight.count((from, via.0)) == was.in_flight.count((from, via.0)) + 1
            &&& forall|copy: (u128, u128)|
                #![trigger now.in_flight.count(copy)]
                #![trigger was.in_flight.count(copy)]
                copy != (from, via.0) ==> now.in_flight.count(copy) == was.in_flight.count(copy)
            &&& now.probes.contains_key(via.0)
            &&& forall|other: u128|
                #![trigger now.probes.contains_key(other)]
                #![trigger was.probes.contains_key(other)]
                other != via.0 ==> {
                    &&& now.probes.contains_key(other) == was.probes.contains_key(other)
                    &&& was.probes.contains_key(other) ==> now.probes[other] == was.probes[other]
                }
        },
        !before.sub_channels.contains_key(scid.0) ==> after.sub_channels == before.sub_channels,
        via_chan matches IpcSenderAndOrId::IpcSender(_, text) ==> match parsed_uuid(text@) {
            Ok(uuid) => match outcomes[0] {
                Ok(sender) => {
                    &&& result is Ok
                    &&& before.sub_channels.contains_key(scid.0)
                        ==> after.sub_channels[scid.0].probes[via.0] == sender
                    &&& after.senders.contains_key(uuid)
                    &&& !before.senders.contains_key(uuid) ==> after.senders[uuid] == sender.handle
                },
                Err(e) => result matches Err(error) && error@ == e@ && after.senders
                    == before.senders,
            },
            Err(reason) => result matches Err(error) && error@ == MultiplexErrorView::InternalError(
                "invalid UUID: "@ + reason,
            ) && after.senders == before.senders,
        },
        via_chan matches IpcSenderAndOrId::IpcSenderId(text) ==> {
            &&& after.senders == before.senders
            &&& match parsed_uuid(text@) {
                Ok(uuid) => {
                    &&& !before.senders.contains_key(uuid) ==> result is Err
                    &&& result matches Err(error) ==> error@ == MultiplexErrorView::Disconnected
                    &&& result is Ok && before.sub_channels.contains_key(scid.0)
                        ==> after.sub_channels[scid.0].probes[via.0].handle
                        == before.senders[uuid]
                },
                Err(reason) => result matches Err(error) && error@
                    == MultiplexErrorView::InternalError("invalid UUID: "@ + reason),
            }
        },
{
    assert(after.sub_channels.dom() =~= before.sub_channels.dom());
}

/// The news that a copy has been received ends the transmission that it tells of
/// and one more like it, as far as there are any: such a message is counted as
/// two receipts. The copy is held where it was received. Nothing is put in
/// any mailbox, and the subchannel is as connected as it was.
pub proof fn law_received_copy_is_held(
    before: MultiReceiverView,
    boxes: PayloadMap,
    context: ReceptionContext,
    scid: SubChannelId,
    from: Uuid,
    via: SubChannelId,
    new_source: Uuid,
    outcomes: Seq<ConnectOutcome>,
    result: Result<(), MultiplexError>,
    after: MultiReceiverView,
    boxes_after: PayloadMap,
    context_after: ReceptionContext,
)
    requires
        message_handled(
            before,
            boxes,
            context,
            MultiMessage::Received { scid, from, via, new_source },
            outcomes,
            result,
            after,
            boxes_after,
            context_after,
        ),
    ensures
        result is Ok,
        boxes_after == boxes,
        context_after == context,
        after.senders == before.senders,
        differs_in_one(before, after, scid),
        before.sub_channels.contains_key(scid.0) ==> {
            let was = before.sub_channels[scid.0];
            let now = after.sub_channels[scid.0];
            let copies = was.in_flight.count((from, via.0));
            &&& now.sender == was.sender
            &&& now.probes == was.probes
            &&& copies >= 2 ==> now.in_flight.count((from, via.0)) == copies - 2
            &&& copies < 2 ==> now.in_flight.count((from, via.0)) == 0
            &&& forall|copy: (u128, u128)|
                #![trigger now.in_flight.count(copy)]
                #![trigger was.in_flight.count(copy)]
                copy != (from, via.0) ==> now.in_flight.count(copy) == was.in_flight.count(copy)
            &&& now.sources.contains(new_source)
            &&& forall|source: u128|
                #![trigger now.sources.contains(source)]
                #![trigger was.sources.contains(source)]
                source != new_source ==> now.sources.contains(source) == was.sources.contains(
                    source,
                )
        },
{
    assert(after.sub_channels.dom() =~= before.sub_channels.dom());
}

/// A source that has dropped its last copy holds none. If no copy is left in
/// use, a connected subchannel is disconnected, and its mailbox loses its
/// sender. Otherwise it stays as connected as it was, and no mailbox changes.
pub proof fn law_source_lets_go(
    before: MultiReceiverView,
    boxes: PayloadMap,
    context: ReceptionContext,
    scid: SubChannelId,
    source: Uuid,
    outcomes: Seq<ConnectOutcome>,
    result: Result<(), MultiplexError>,
    after: MultiReceiverView,
    boxes_after: PayloadMap,
    context_after: ReceptionContext,
)
    requires
        message_handled(
            before,
            boxes,
            context,
            MultiMessage::Disconnect(scid, source),
            outcomes,
            result,
            after,
            boxes_after,
            context_after,
        ),
    ensures
        result is Ok,
        context_after == context,
        after.senders == before.senders,
        differs_in_one(before, after, scid),
        before.sub_channels.contains_key(scid.0) ==> {
            let was = before.sub_channels[scid.0];
            let now = after.sub_channels[scid.0];
            &&& now.in_flight == was.in_flight
            &&& now.probes == was.probes
            &&& !now.sources.contains(source)
            &&& forall|other: u128|
                #![trigger now.sources.contains(other)]
                #![trigger was.sources.contains(other)]
                other != source ==> now.sources.contains(other) == was.sources.contains(other)
            &&& was.sender is Some && !in_use(now) ==> now.sender is None && loses_sender(
                boxes,
                was.sender->0,
                boxes_after,
            )
            &&& was.sender is None || in_use(now) ==> now.sender == was.sender && boxes_after
                == boxes
        },
        !before.sub_channels.contains_key(scid.0) ==> boxes_after == boxes && after == before,
{
    assert(after.sub_channels.dom() =~= before.sub_channels.dom());
    if before.sub_channels.contains_key(scid.0) {
        lemma_in_use(before.sub_channels[scid.0].dropped_at(source));
        lemma_in_use(after.sub_channels[scid.0]);
    }
}

/// A receive returns every message that it takes out of its mailbox, and no
/// other. It fails if the mailbox is disconnected, if the IPC channel failed, or
/// if something that is not for another subchannel alone could not be handled,
/// with the reason for that, and for nothing else.
pub proof fn law_receive_returns_what_it_takes(
    own: SubChannelId,
    outcome: RecvOutcome,
    payload: Vec<u8>,
    e: MultiplexError,
)
    ensures
        recv_next(own, RecvOutcome::Local(Mail::Payload(payload))) == RecvStep::Return(Ok(payload)),
        recv_next(own, outcome) == RecvStep::Return(Ok(payload)) ==> outcome == RecvOutcome::Local(
            Mail::Payload(payload),
        ),
        recv_next(own, outcome) == RecvStep::Return(Err(e)) <==> (match outcome {
            RecvOutcome::Local(found) => found is Disconnected && e == MultiplexError::Disconnected,
            RecvOutcome::Handled(about, result) => !is_foreign(about, own) && result == Err::<
                (),
                MultiplexError,
            >(e),
            RecvOutcome::IpcError(reason) => e == MultiplexError::IpcError(reason),
            _ => false,
        }),
{
    match outcome {
        RecvOutcome::Handled(Some(scid), _) => {
            assert(scid.0 != own.0 ==> is_foreign(Some(scid), own));
        },
        _ => {},
    }
}

/// A receive that is not over waits for a message for a second while its mailbox
/// is empty, polls if none came, and looks in the mailbox again when a message
/// was handled or a probe failed.
pub proof fn law_receive_goes_on(own: SubChannelId, about: Option<SubChannelId>)
    ensures
        recv_next(own, RecvOutcome::Local(Mail::Empty)) == RecvStep::Receive(1_000_000),
        recv_next(own, RecvOutcome::Empty) is Poll,
        recv_next(own, RecvOutcome::Polled(true)) is TryLocal,
        recv_next(own, RecvOutcome::Polled(false)) == RecvStep::Receive(1_000_000),
        recv_next(own, RecvOutcome::Handled(about, Ok(()))) is TryLocal,
        forall|result: Result<(), MultiplexError>|
            is_foreign(about, own) ==> #[trigger] recv_next(
                own,
                RecvOutcome::Handled(about, result),
            ) is TryLocal,
{
}

/// The receiver of a subchannel goes on with a receive as the laws here say.
pub proof fn law_receiver_goes_on(
    receiver: &SubChannelReceiver,
    outcome: RecvOutcome,
    step: RecvStep,
)
    requires
        call_ensures(SubChannelReceiver::recv, (receiver, outcome), step),
    ensures
        step == recv_next(receiver.sub_channel_id, outcome),
        outcome matches RecvOutcome::Local(Mail::Payload(payload)) ==> step == RecvStep::Return(
            Ok(payload),
        ),
{
}

/// A receiver finds the first message in its mailbox, which is then gone from
/// it, with all others left in order. It finds nothing only if there is nothing
/// and somebody sends to the mailbox. Looking changes no other mailbox.
pub proof fn law_receiver_finds_the_first(
    receiver: &SubChannelReceiver,
    mailboxes: &mut PayloadMailboxes,
    found: Mail,
)
    requires
        call_ensures(SubChannelReceiver::local, (receiver, mailboxes), found),
    ensures
        ({
            let own = receiver.mailbox;
            let boxes = old(mailboxes)@;
            let after = final(mailboxes)@;
            let held = boxes.contains_key(own) && boxes[own].messages.len() > 0;
            &&& held ==> {
                &&& found == Mail::Payload(boxes[own].messages[0])
                &&& after.contains_key(own)
                &&& after[own].messages.len() == boxes[own].messages.len() - 1
                &&& forall|k: int|
                    #![trigger after[own].messages[k]]
                    0 <= k < boxes[own].messages.len() - 1 ==> after[own].messages[k]
                        == boxes[own].messages[k + 1]
                &&& after[own].senders == boxes[own].senders
                &&& after[own].receiving == boxes[own].receiving
                &&& forall|other: MailboxId|
                    #![trigger boxes.contains_key(other)]
                    #![trigger after.contains_key(other)]
                    other != own ==> {
                        &&& after.contains_key(other) == boxes.contains_key(other)
                        &&& boxes.contains_key(other) ==> after[other] == boxes[other]
                    }
            }
            &&& !held ==> {
                &&& after == boxes
                &&& found is Empty <==> boxes.contains_key(own) && boxes[own].senders > 0
                &&& found is Disconnected <==> !(boxes.contains_key(own) && boxes[own].senders > 0)
            }
        }),
{
}

/// A receiver that is closed hands back everything that was left in its mailbox,
/// in order. The mailbox takes no more messages, and is gone if nobody sends to
/// it. No other mailbox changes.
pub proof fn law_closing_hands_back_what_is_left(
    receiver: SubChannelReceiver,
    mailboxes: &mut PayloadMailboxes,
    unreceived: VecDeque<Vec<u8>>,
)
    requires
        call_ensures(SubChannelReceiver::close, (receiver, mailboxes), unreceived),
    ensures
        ({
            let own = receiver.mailbox;
            let boxes = old(mailboxes)@;
            let after = final(mailboxes)@;
            &&& boxes.contains_key(own) ==> {
                &&& unreceived@ == boxes[own].messages
                &&& boxes[own].senders == 0 ==> !after.contains_key(own)
                &&& boxes[own].senders > 0 ==> {
                    &&& after.contains_key(own)
                    &&& after[own].messages.len() == 0
                    &&& after[own].senders == boxes[own].senders
                    &&& !after[own].receiving
                }
            }
            &&& !boxes.contains_key(own) ==> unreceived@.len() == 0 && after == boxes
            &&& forall|other: MailboxId|
                #![trigger boxes.contains_key(other)]
                #![trigger after.contains_key(other)]
                other != own ==> {
                    &&& after.contains_key(other) == boxes.contains_key(other)
                    &&& boxes.contains_key(other) ==> after[other] == boxes[other]
                }
        }),
{
}

/// When the receiver of a subchannel disconnects, every client is told so at its
/// sender for responses, once, and nobody else is.
pub proof fn law_each_client_is_told_once(
    end: &MultiReceiver,
    scid: SubChannelId,
    responses: Vec<(ResponseSender, MultiResponse)>,
) -> (told: Seq<Uuid>)
    requires
        call_ensures(MultiReceiver::disconnection_responses, (end, scid), responses),
    ensures
        told.no_duplicates(),
        told.len() == responses@.len(),
        forall|client: Uuid|
            #![trigger end@.clients.contains_key(client)]
            #![trigger told.contains(client)]
            end@.clients.contains_key(client) <==> told.contains(client),
        forall|k: int|
            #![trigger responses@[k]]
            0 <= k < responses@.len() ==> responses@[k].0 == end@.clients[told[k]]
                && responses@[k].1 == MultiResponse::SubReceiverDisconnected(scid),
{
    let clients = end@.clients;
    let order = choose|order: Seq<Uuid>|
        {
            &&& #[trigger] lists_once(order, clients.dom())
            &&& responses@ == order.map_values(
                |client: Uuid| (clients[client], MultiResponse::SubReceiverDisconnected(scid)),
            )
        };
    assert forall|client: Uuid|
        #![trigger clients.contains_key(client)]
        #![trigger order.contains(client)]
        clients.contains_key(client) <==> order.contains(client) by {
        assert(clients.dom().contains(client) <==> order.contains(client));
    }
    order
}

/// A one-shot server takes the announced subchannel and the name from the first
/// message, and nothing else for it.
pub proof fn law_server_takes_an_announcement(
    received: Result<MultiMessage, IpcError>,
    described: String,
    announced: Result<(SubChannelId, String), MultiplexError>,
)
    requires
        call_ensures(MultiReceiver::receive_sub_channel, (received, described), announced),
    ensures
        announced matches Ok((scid, name)) ==> received == Ok::<MultiMessage, IpcError>(
            MultiMessage::SubChannelId(scid, name),
        ),
        received matches Ok(message) ==> (message is SubChannelId <==> announced is Ok),
        received matches Ok(message) && message !is SubChannelId ==> (announced matches Err(e)
            && e@ == MultiplexErrorView::InternalError(
            "unexpected multi message "@ + described@,
        )),
        received matches Err(e) ==> announced == Err::<(SubChannelId, String), MultiplexError>(
            multiplex_error(e),
        ),
{
}

/// A sender under a UUID that is known after the first names in a message have
/// been resolved was known before, or came with one of those names.
pub open spec fn comes_from(
    senders: Map<Uuid, u64>,
    named: Seq<IpcSenderAndOrId>,
    outcomes: Seq<ConnectOutcome>,
    n: int,
    uuid: Uuid,
    handle: u64,
) -> bool {
    ||| senders.contains_pair(uuid, handle)
    ||| exists|j: int|
        {
            &&& 0 <= j < n
            &&& (#[trigger] named[j]) is IpcSender
            &&& parsed_uuid(text_of(named[j])) == Ok::<Uuid, Seq<char>>(uuid)
            &&& outcomes[brought_by(named, j) as int] is Ok
            &&& outcomes[brought_by(named, j) as int]->Ok_0.handle == handle
        }
}

/// What a name that could be resolved stands for: the sender that came with it
/// and was connected, or one that is known under its UUID.
pub open spec fn name_means(
    senders: Map<Uuid, u64>,
    named: Seq<IpcSenderAndOrId>,
    outcomes: Seq<ConnectOutcome>,
    i: int,
    found: (Arc<ForwardSender>, Uuid),
) -> bool {
    &&& parsed_uuid(text_of(named[i])) == Ok::<Uuid, Seq<char>>(found.1)
    &&& if named[i] is IpcSender {
        &&& brought_by(named, i) < outcomes.len()
        &&& outcomes[brought_by(named, i) as int] is Ok
        &&& outcomes[brought_by(named, i) as int]->Ok_0 == found.0
    } else {
        comes_from(senders, named, outcomes, i, found.1, found.0.handle)
    }
}

proof fn lemma_resolving(
    senders: Map<Uuid, u64>,
    named: Seq<IpcSenderAndOrId>,
    outcomes: Seq<ConnectOutcome>,
    steps: Seq<(Map<Uuid, u64>, Seq<ConnectOutcome>)>,
    found: Seq<(Arc<ForwardSender>, Uuid)>,
    error: Option<MultiplexErrorView>,
    n: int,
)
    requires
        senders_resolved(named, steps, found, error),
        steps[0] == (senders, outcomes),
        0 <= n <= found.len(),
    ensures
        brought_by(named, n) <= outcomes.len(),
        steps[n].1 == outcomes.skip(brought_by(named, n) as int),
        forall|uuid: Uuid|
            #![trigger steps[n].0.contains_key(uuid)]
            steps[n].0.contains_key(uuid) ==> comes_from(
                senders,
                named,
                outcomes,
                n,
                uuid,
                steps[n].0[uuid],
            ),
        forall|uuid: Uuid|
            #![trigger steps[n].0.contains_key(uuid)]
            senders.contains_key(uuid) ==> steps[n].0.contains_key(uuid),
        forall|i: int|
            #![trigger found[i]]
            0 <= i < n ==> name_means(senders, named, outcomes, i, found[i]),
    decreases n,
{
    if n == 0 {
        assert(outcomes.skip(0) =~= outcomes);
    } else {
        lemma_resolving(senders, named, outcomes, steps, found, error, n - 1);
        let last = found[n - 1];
        let name = named[n - 1];
        let before = steps[n - 1];
        let after = steps[n - 1 + 1];
        assert(sender_resolved(
            before,
            name,
            after,
            Ok::<(Arc<ForwardSender>, Uuid), MultiplexErrorView>(last),
        ));
        let taken = brought_by(named, n - 1);
        if name is IpcSender {
            assert(before.1[0] == outcomes[taken as int]);
            assert(before.1.drop_first() =~= outcomes.skip((taken + 1) as int));
        }
        assert forall|uuid: Uuid|
            #![trigger after.0.contains_key(uuid)]
            after.0.contains_key(uuid) implies comes_from(
            senders,
            named,
            outcomes,
            n,
            uuid,
            after.0[uuid],
        ) by {
            if before.0.contains_key(uuid) && after.0[uuid] == before.0[uuid] {
                assert(comes_from(senders, named, outcomes, n - 1, uuid, before.0[uuid]));
                if !senders.contains_pair(uuid, before.0[uuid]) {
                    let j = choose|j: int|
                        {
                            &&& 0 <= j < n - 1
                            &&& (#[trigger] named[j]) is IpcSender
                            &&& parsed_uuid(text_of(named[j])) == Ok::<Uuid, Seq<char>>(uuid)
                            &&& outcomes[brought_by(named, j) as int] is Ok
                            &&& outcomes[brought_by(named, j) as int]->Ok_0.handle
                                == before.0[uuid]
                        };
                    assert(named[j] is IpcSender);
                }
            } else {
                assert(named[n - 1] is IpcSender);
            }
        }
        assert forall|uuid: Uuid|
            #![trigger after.0.contains_key(uuid)]
            senders.contains_key(uuid) implies after.0.contains_key(uuid) by {
            assert(before.0.contains_key(uuid));
        }
        if name is IpcSenderId {
            assert(before.0.contains_key(last.1));
        }
    }
}

/// A name cannot be resolved, for the given reason, whoever holds what.
pub open spec fn name_fails(
    senders: Map<Uuid, u64>,
    named: Seq<IpcSenderAndOrId>,
    outcomes: Seq<ConnectOutcome>,
    i: int,
    reason: MultiplexErrorView,
) -> bool {
    match parsed_uuid(text_of(named[i])) {
        Ok(uuid) => if named[i] is IpcSender {
            &&& brought_by(named, i) < outcomes.len()
            &&& outcomes[brought_by(named, i) as int] matches Err(e)
            &&& e@ == reason
        } else {
            reason == MultiplexErrorView::Disconnected
        },
        Err(text) => reason == MultiplexErrorView::InternalError("invalid UUID: "@ + text),
    }
}

/// What becomes of a message for a subchannel.
///
/// The IPC senders in it are resolved in order. If one cannot be, that is the
/// failure of the message, and nothing is put anywhere. Otherwise they, the
/// source and the subchannel of the message are what came beside it, and its
/// bytes are put in the mailbox of its subchannel after all that it held. They
/// are refused as disconnected if the subchannel is or if nobody receives from
/// the mailbox, and as invalid if the subchannel is not known.
pub proof fn law_message_is_sorted(
    before: MultiReceiverView,
    boxes: PayloadMap,
    context: ReceptionContext,
    scid: SubChannelId,
    data: Vec<u8>,
    senders: Vec<IpcSenderAndOrId>,
    source: Uuid,
    outcomes: Seq<ConnectOutcome>,
    result: Result<(), MultiplexError>,
    after: MultiReceiverView,
    boxes_after: PayloadMap,
    context_after: ReceptionContext,
) -> (failed: Option<int>)
    requires
        message_handled(
            before,
            boxes,
            context,
            MultiMessage::Data(scid, data, senders, source),
            outcomes,
            result,
            after,
            boxes_after,
            context_after,
        ),
    ensures
        after.uuid == before.uuid,
        after.clients == before.clients,
        after.sub_channels == before.sub_channels,
        after.disconnectors == before.disconnectors,
        failed matches Some(i) ==> {
            &&& 0 <= i < senders@.len()
            &&& result matches Err(e)
            &&& name_fails(before.senders, senders@, outcomes, i, e@)
            &&& boxes_after == boxes
            &&& context_after == context
        },
        failed is None ==> {
            &&& context_after.senders@.len() == senders@.len()
            &&& forall|i: int|
                #![trigger context_after.senders@[i]]
                0 <= i < senders@.len() ==> name_means(
                    before.senders,
                    senders@,
                    outcomes,
                    i,
                    context_after.senders@[i],
                )
            &&& context_after.from == source
            &&& context_after.via == scid
            &&& before.sub_channels.contains_key(scid.0)
                ==> match before.sub_channels[scid.0].sender {
                Some(id) => if boxes.contains_key(id) && boxes[id].receiving {
                    &&& result is Ok
                    &&& boxes_after.contains_key(id)
                    &&& boxes_after[id].messages == boxes[id].messages.push(data)
                    &&& boxes_after[id].senders == boxes[id].senders
                    &&& boxes_after[id].receiving
                    &&& forall|other: MailboxId|
                        #![trigger boxes.contains_key(other)]
                        #![trigger boxes_after.contains_key(other)]
                        other != id ==> {
                            &&& boxes_after.contains_key(other) == boxes.contains_key(other)
                            &&& boxes.contains_key(other) ==> boxes_after[other] == boxes[other]
                        }
                } else {
                    &&& result == Err::<(), MultiplexError>(MultiplexError::Disconnected)
                    &&& boxes_after == boxes
                },
                None => {
                    &&& result == Err::<(), MultiplexError>(MultiplexError::Disconnected)
                    &&& boxes_after == boxes
                },
            }
            &&& !before.sub_channels.contains_key(scid.0) ==> {
                &&& result matches Err(e)
                &&& e@ == MultiplexErrorView::InternalError(
                    "invalid subchannel id "@ + hyphenated(scid.0),
                )
                &&& boxes_after == boxes
            }
        },
        (forall|i: int|
            #![trigger senders@[i]]
            0 <= i < senders@.len() ==> {
                &&& senders@[i] is IpcSender
                &&& parsed_uuid(text_of(senders@[i])) is Ok
                &&& outcomes[brought_by(senders@, i) as int] is Ok
            }) ==> failed is None,
{
    let (steps, found, error) = choose|
        steps: Seq<(Map<Uuid, u64>, Seq<ConnectOutcome>)>,
        found: Seq<(Arc<ForwardSender>, Uuid)>,
        error: Option<MultiplexErrorView>,
    |
        {
            &&& #[trigger] senders_resolved(senders@, steps, found, error)
            &&& steps[0] == (before.senders, outcomes)
            &&& after == before.with_senders(steps.last().0)
            &&& match error {
                Some(e) => {
                    &&& result is Err
                    &&& result->Err_0@ == e
                    &&& boxes_after == boxes
                    &&& context_after == context
                },
                None => {
                    &&& context_after.senders@ == found
                    &&& context_after.from == source
                    &&& context_after.via == scid
                    &&& payload_sorted(
                        before.sub_channels,
                        boxes,
                        scid,
                        data,
                        result,
                        boxes_after,
                    )
                },
            }
        };
    let n = found.len() as int;
    lemma_resolving(before.senders, senders@, outcomes, steps, found, error, n);
    match error {
        Some(e) => {
            let name = senders@[n];
            if name is IpcSender && parsed_uuid(text_of(name)) is Ok {
                assert(steps[n].1[0] == outcomes[brought_by(senders@, n) as int]);
            }
            assert(senders@[n] == name);
            Some(n)
        },
        None => None,
    }
}

/// The channel that carries copies of a subsender over a subchannel is probed by
/// an IPC sender that could not be sent a probe.
pub open spec fn carrier_gone(state: SubChannelState, via: u128, lost: Seq<u64>) -> bool {
    &&& state.probes.contains_key(via)
    &&& exists|i: int| 0 <= i < lost.len() && #[trigger] lost[i] == state.probes[via].handle
}

/// All copies of a subsender whose channel is gone have been given up, and no
/// others, and the subchannel is disconnected if no copy is left in use.
pub open spec fn gives_up_lost(
    was: SubChannelState,
    lost: Seq<u64>,
    now: SubChannelState,
) -> bool {
    &&& now.sources == was.sources
    &&& forall|copy: (u128, u128)| #[trigger]
        now.in_flight.count(copy) == if carrier_gone(was, copy.1, lost) {
            0
        } else {
            was.in_flight.count(copy)
        }
    &&& forall|via: u128| #[trigger]
        now.probes.contains_key(via) == (was.probes.contains_key(via) && !(carrier_gone(
            was,
            via,
            lost,
        ) && exists|from: u128| #[trigger] was.in_flight.count((from, via)) > 0))
    &&& forall|via: u128| #[trigger]
        now.probes.contains_key(via) ==> now.probes[via] == was.probes[via]
    &&& in_use(now) ==> now.sender == was.sender
    &&& !in_use(now) ==> now.sender is None
}

proof fn lemma_gone(state: SubChannelState, lost: Seq<u64>, via: u128)
    ensures
        lost_vias(state, lost).contains(via) == carrier_gone(state, via, lost),
{
    if state.probes.contains_key(via) && lost.contains(state.probes[via].handle) {
        let i = choose|i: int| 0 <= i < lost.len() && lost[i] == state.probes[via].handle;
        assert(lost[i] == state.probes[via].handle);
    }
}

spec fn polled_state(state: SubChannelState, lost: Seq<u64>) -> SubChannelState {
    state.lost_via(lost_vias(state, lost)).settled()
}

proof fn lemma_polled_state(state: SubChannelState, lost: Seq<u64>)
    ensures
        gives_up_lost(state, lost, polled_state(state, lost)),
{
    let gone = lost_vias(state, lost);
    let after = state.lost_via(gone);
    let now = polled_state(state, lost);
    assert forall|via: u128| gone.contains(via) == carrier_gone(state, via, lost) by {
        lemma_gone(state, lost, via);
    }
    assert forall|copy: (u128, u128)| #[trigger]
        now.in_flight.count(copy) == if carrier_gone(state, copy.1, lost) {
            0
        } else {
            state.in_flight.count(copy)
        } by {
        assert(gone.contains(copy.1) == carrier_gone(state, copy.1, lost));
    }
    assert forall|via: u128| #[trigger]
        now.probes.contains_key(via) == (state.probes.contains_key(via) && !(carrier_gone(
            state,
            via,
            lost,
        ) && exists|from: u128| #[trigger] state.in_flight.count((from, via)) > 0)) by {
        assert(gone.contains(via) == carrier_gone(state, via, lost));
        if exists|from: u128| #[trigger] state.in_flight.count((from, via)) > 0 {
            let from = choose|from: u128| #[trigger] state.in_flight.count((from, via)) > 0;
            assert(state.in_flight.contains((from, via)));
        }
        if state.carried_by(via) {
            let from = choose|from: u128| #[trigger] state.in_flight.contains((from, via));
            assert(state.in_flight.count((from, via)) > 0);
        }
    }
    lemma_in_use(after);
    lemma_in_use(now);
}

/// How many subchannels that delivered to a mailbox have been disconnected.
spec fn told(before: MultiReceiverView, order: Seq<Uuid>, lost: Seq<u64>, id: MailboxId) -> nat
    decreases order.len(),
{
    if order.len() == 0 {
        0
    } else {
        let state = before.sub_channels[order.last()];
        told(before, order.drop_last(), lost, id) + if state.sender == Some(id) && polled_state(
            state,
            lost,
        ).sender is None {
            1nat
        } else {
            0
        }
    }
}

proof fn lemma_polled_in_order(before: Polled, order: Seq<Uuid>, lost: Seq<u64>, id: MailboxId)
    requires
        order.no_duplicates(),
        forall|i: int|
            0 <= i < order.len() ==> before.state.sub_channels.contains_key(#[trigger] order[i]),
    ensures
        ({
            let after = polled_in_order(before, order, lost);
            let ended = told(before.state, order, lost, id);
            &&& after.state.uuid == before.state.uuid
            &&& after.state.clients == before.state.clients
            &&& after.state.disconnectors == before.state.disconnectors
            &&& after.state.senders == before.state.senders
            &&& after.state.sub_channels.dom() == before.state.sub_channels.dom()
            &&& forall|scid: Uuid|
                #![trigger after.state.sub_channels[scid]]
                before.state.sub_channels.contains_key(scid) ==> after.state.sub_channels[scid]
                    == if order.contains(scid) {
                    polled_state(before.state.sub_channels[scid], lost)
                } else {
                    before.state.sub_channels[scid]
                }
            &&& after.failed == (before.failed || exists|i: int, via: u128|
                {
                    &&& 0 <= i < order.len()
                    &&& #[trigger] carrier_gone(
                        before.state.sub_channels[#[trigger] order[i]],
                        via,
                        lost,
                    )
                })
            &&& before.boxes.contains_key(id) && before.boxes[id].receiving ==> {
                &&& after.boxes.contains_key(id)
                &&& after.boxes[id].receiving
                &&& after.boxes[id].messages == before.boxes[id].messages
                &&& ended <= before.boxes[id].senders ==> after.boxes[id].senders
                    == before.boxes[id].senders - ended
                &&& ended > before.boxes[id].senders ==> after.boxes[id].senders == 0
            }
            &&& ended == 0 ==> {
                &&& after.boxes.contains_key(id) == before.boxes.contains_key(id)
                &&& before.boxes.contains_key(id) ==> after.boxes[id] == before.boxes[id]
            }
        }),
    decreases order.len(),
{
    let after = polled_in_order(before, order, lost);
    if order.len() > 0 {
        let earlier = order.drop_last();
        let last = order[order.len() - 1];
        lemma_polled_in_order(before, earlier, lost, id);
        let middle = polled_in_order(before, earlier, lost);
        assert(before.state.sub_channels.contains_key(last));
        assert(middle.state.sub_channels.dom().contains(last));
        assert(!earlier.contains(last));
        let state = before.state.sub_channels[last];
        assert(middle.state.sub_channels[last] == state);
        assert(after == polled_one(middle, last, lost));
        assert(after.state.sub_channels.dom() =~= middle.state.sub_channels.dom());
        assert forall|scid: Uuid|
            #![trigger after.state.sub_channels[scid]]
            before.state.sub_channels.contains_key(scid) implies after.state.sub_channels[scid]
            == if order.contains(scid) {
            polled_state(before.state.sub_channels[scid], lost)
        } else {
            before.state.sub_channels[scid]
        } by {
            if scid == last {
                assert(order.contains(scid));
            } else {
                assert(order.contains(scid) == earlier.contains(scid)) by {
                    if earlier.contains(scid) {
                        let i = choose|i: int| 0 <= i < earlier.len() && earlier[i] == scid;
                        assert(order[i] == scid);
                    }
                    if order.contains(scid) {
                        let i = choose|i: int| 0 <= i < order.len() && order[i] == scid;
                        assert(earlier[i] == scid);
                    }
                }
                assert(after.state.sub_channels[scid] == middle.state.sub_channels[scid]);
            }
        }
        let gone = lost_vias(state, lost);
        assert forall|via: u128| gone.contains(via) == carrier_gone(state, via, lost) by {
            lemma_gone(state, lost, via);
        }
        if middle.failed && !before.failed {
            let (i, via) = choose|i: int, via: u128|
                {
                    &&& 0 <= i < earlier.len()
                    &&& #[trigger] carrier_gone(
                        before.state.sub_channels[#[trigger] earlier[i]],
                        via,
                        lost,
                    )
                };
            assert(order[i] == earlier[i]);
            assert(carrier_gone(before.state.sub_channels[order[i]], via, lost));
        }
        if gone != Set::<u128>::empty() {
            assert(exists|via: u128| gone.contains(via)) by {
                if forall|via: u128| !gone.contains(via) {
                    assert(gone =~= Set::<u128>::empty());
                }
            }
            let via = choose|via: u128| gone.contains(via);
            assert(carrier_gone(before.state.sub_channels[order[order.len() - 1]], via, lost));
        }
        if exists|i: int, via: u128|
            {
                &&& 0 <= i < order.len()
                &&& #[trigger] carrier_gone(
                    before.state.sub_channels[#[trigger] order[i]],
                    via,
                    lost,
                )
            } {
            let (i, via) = choose|i: int, via: u128|
                {
                    &&& 0 <= i < order.len()
                    &&& #[trigger] carrier_gone(
                        before.state.sub_channels[#[trigger] order[i]],
                        via,
                        lost,
                    )
                };
            if i < earlier.len() {
                assert(order[i] == earlier[i]);
                assert(carrier_gone(before.state.sub_channels[earlier[i]], via, lost));
            } else {
                assert(gone.contains(via));
            }
        }
    }
}

/// The senders of all subchannels have been polled.
pub open spec fn all_polled(
    before: MultiReceiverView,
    boxes: PayloadMap,
    lost: Seq<u64>,
    failed: bool,
    after: MultiReceiverView,
    boxes_after: PayloadMap,
) -> bool {
    exists|order: Seq<Uuid>|
        {
            &&& #[trigger] lists_once(order, before.sub_channels.dom())
            &&& Polled { state: after, boxes: boxes_after, failed } == polled_in_order(
                Polled { state: before, boxes, failed: false },
                order,
                lost,
            )
        }
}

/// A receiving end that polls polls all its subchannels.
pub proof fn law_receiving_end_polls(
    end: &mut MultiReceiver,
    lost: &Vec<u64>,
    mailboxes: &mut PayloadMailboxes,
    failed: bool,
)
    requires
        call_ensures(MultiReceiver::poll, (end, lost, mailboxes), failed),
    ensures
        all_polled(
            old(end)@,
            old(mailboxes)@,
            lost@,
            failed,
            final(end)@,
            final(mailboxes)@,
        ),
{
}

/// Polling gives up the copies of a subsender in flight whose channels are gone,
/// and no others. It tells whether a probe failed. No message in a mailbox that
/// is received from is lost, and a mailbox to which no subchannel that ended
/// delivered does not change.
pub proof fn law_poll_gives_up_lost_copies(
    before: MultiReceiverView,
    boxes: PayloadMap,
    lost: Seq<u64>,
    failed: bool,
    after: MultiReceiverView,
    boxes_after: PayloadMap,
    scid: Uuid,
    id: MailboxId,
)
    requires
        all_polled(before, boxes, lost, failed, after, boxes_after),
    ensures
        after.uuid == before.uuid,
        after.clients == before.clients,
        after.disconnectors == before.disconnectors,
        after.senders == before.senders,
        after.sub_channels.dom() == before.sub_channels.dom(),
        before.sub_channels.contains_key(scid) ==> gives_up_lost(
            before.sub_channels[scid],
            lost,
            after.sub_channels[scid],
        ),
        failed == exists|s: Uuid, via: u128|
            {
                &&& #[trigger] before.sub_channels.contains_key(s)
                &&& #[trigger] carrier_gone(before.sub_channels[s], via, lost)
            },
        boxes.contains_key(id) && boxes[id].receiving ==> {
            &&& boxes_after.contains_key(id)
            &&& boxes_after[id].receiving
            &&& boxes_after[id].messages == boxes[id].messages
        },
        (forall|s: Uuid|
            #![trigger before.sub_channels[s]]
            before.sub_channels.contains_key(s) && before.sub_channels[s].sender == Some(id)
                ==> after.sub_channels[s].sender is Some) ==> {
            &&& boxes_after.contains_key(id) == boxes.contains_key(id)
            &&& boxes.contains_key(id) ==> boxes_after[id] == boxes[id]
        },
        boxes.contains_key(id) && boxes[id].receiving && before.sub_channels.contains_key(scid)
            && before.sub_channels[scid].sender == Some(id) && after.sub_channels[scid].sender
            is None && (forall|s: Uuid|
            #![trigger before.sub_channels[s]]
            before.sub_channels.contains_key(s) && before.sub_channels[s].sender == Some(id) ==> s
                == scid) && boxes[id].senders > 0 ==> boxes_after[id].senders == boxes[id].senders
            - 1,
{
    let order = choose|order: Seq<Uuid>|
        {
            &&& #[trigger] lists_once(order, before.sub_channels.dom())
            &&& Polled { state: after, boxes: boxes_after, failed } == polled_in_order(
                Polled { state: before, boxes, failed: false },
                order,
                lost,
            )
        };
    assert forall|i: int| 0 <= i < order.len() implies before.sub_channels.contains_key(
        #[trigger] order[i],
    ) by {
        assert(order.contains(order[i]));
        assert(before.sub_channels.dom().contains(order[i]));
    }
    lemma_polled_in_order(Polled { state: before, boxes, failed: false }, order, lost, id);
    if before.sub_channels.contains_key(scid) {
        assert(before.sub_channels.dom().contains(scid));
        lemma_polled_state(before.sub_channels[scid], lost);
    }
    if failed {
        let (i, via) = choose|i: int, via: u128|
            {
                &&& 0 <= i < order.len()
                &&& #[trigger] carrier_gone(before.sub_channels[#[trigger] order[i]], via, lost)
            };
        assert(before.sub_channels.contains_key(order[i]));
        assert(carrier_gone(before.sub_channels[order[i]], via, lost));
    }
    if exists|s: Uuid, via: u128|
        {
            &&& #[trigger] before.sub_channels.contains_key(s)
            &&& #[trigger] carrier_gone(before.sub_channels[s], via, lost)
        } {
        let (s, via) = choose|s: Uuid, via: u128|
            {
                &&& #[trigger] before.sub_channels.contains_key(s)
                &&& #[trigger] carrier_gone(before.sub_channels[s], via, lost)
            };
        assert(before.sub_channels.dom().contains(s));
        let i = choose|i: int| 0 <= i < order.len() && order[i] == s;
        assert(carrier_gone(before.sub_channels[order[i]], via, lost));
    }
    lemma_told(before, order, lost, id, scid);
    assert forall|s: Uuid|
        #![trigger before.sub_channels[s]]
        before.sub_channels.contains_key(s) implies after.sub_channels[s] == polled_state(
        before.sub_channels[s],
        lost,
    ) by {
        assert(before.sub_channels.dom().contains(s));
        assert(order.contains(s));
    }
}

proof fn lemma_told(
    before: MultiReceiverView,
    order: Seq<Uuid>,
    lost: Seq<u64>,
    id: MailboxId,
    scid: Uuid,
)
    requires
        order.no_duplicates(),
        forall|i: int|
            0 <= i < order.len() ==> before.sub_channels.contains_key(#[trigger] order[i]),
    ensures
        (forall|s: Uuid|
            #![trigger before.sub_channels[s]]
            before.sub_channels.contains_key(s) && before.sub_channels[s].sender == Some(id)
                ==> polled_state(before.sub_channels[s], lost).sender is Some) ==> told(
            before,
            order,
            lost,
            id,
        ) == 0,
        (forall|s: Uuid|
            #![trigger before.sub_channels[s]]
            before.sub_channels.contains_key(s) && before.sub_channels[s].sender == Some(id) ==> s
                == scid) && before.sub_channels[scid].sender == Some(id) && polled_state(
            before.sub_channels[scid],
            lost,
        ).sender is None ==> told(before, order, lost, id) == if order.contains(scid) {
            1nat
        } else {
            0
        },
    decreases order.len(),
{
    if order.len() > 0 {
        let earlier = order.drop_last();
        let last = order[order.len() - 1];
        lemma_told(before, earlier, lost, id, scid);
        assert(before.sub_channels.contains_key(last));
        assert(!earlier.contains(last));
        assert(order.contains(scid) == (earlier.contains(scid) || scid == last)) by {
            if earlier.contains(scid) {
                let i = choose|i: int| 0 <= i < earlier.len() && earlier[i] == scid;
                assert(order[i] == scid);
            }
            if order.contains(scid) {
                let i = choose|i: int| 0 <= i < order.len() && order[i] == scid;
                if i < earlier.len() {
                    assert(earlier[i] == scid);
                }
            }
            if scid == last {
                assert(order[order.len() - 1] == scid);
            }
        }
    }
}

/// A connected subchannel of which no source holds a copy, and of which every
/// copy in flight is carried by a channel that is gone, is disconnected by a
/// poll. Its mailbox loses the sender, so that its receiver learns of it once it
/// has received all messages, and the poll tells of the loss.
pub proof fn law_poll_ends_lost_subchannel(
    before: MultiReceiverView,
    boxes: PayloadMap,
    lost: Seq<u64>,
    failed: bool,
    after: MultiReceiverView,
    boxes_after: PayloadMap,
    scid: Uuid,
    id: MailboxId,
    copy: (u128, u128),
)
    requires
        all_polled(before, boxes, lost, failed, after, boxes_after),
        before.sub_channels.contains_key(scid),
        before.sub_channels[scid].sender == Some(id),
        forall|source: u128| !#[trigger] before.sub_channels[scid].sources.contains(source),
        before.sub_channels[scid].in_flight.count(copy) > 0,
        forall|other: (u128, u128)| #[trigger]
            before.sub_channels[scid].in_flight.count(other) > 0 ==> carrier_gone(
                before.sub_channels[scid],
                other.1,
                lost,
            ),
        forall|s: Uuid|
            #![trigger before.sub_channels[s]]
            before.sub_channels.contains_key(s) && before.sub_channels[s].sender == Some(id) ==> s
                == scid,
        boxes.contains_key(id),
        boxes[id].receiving,
        boxes[id].senders > 0,
    ensures
        after.sub_channels[scid].sender is None,
        boxes_after.contains_key(id),
        boxes_after[id].senders == boxes[id].senders - 1,
        boxes_after[id].messages == boxes[id].messages,
        failed,
{
    law_poll_gives_up_lost_copies(before, boxes, lost, failed, after, boxes_after, scid, id);
    let was = before.sub_channels[scid];
    let now = after.sub_channels[scid];
    assert forall|source: u128| !#[trigger] now.sources.contains(source) by {
        assert(!was.sources.contains(source));
    }
    assert forall|other: (u128, u128)| !(#[trigger] now.in_flight.count(other) > 0) by {
        assert(was.in_flight.count(other) > 0 ==> carrier_gone(was, other.1, lost));
    }
    assert(!in_use(now));
    assert(before.sub_channels.contains_key(scid) && carrier_gone(
        before.sub_channels[scid],
        copy.1,
        lost,
    ));
}

/// The IPC senders that are sent a probe are those by which subchannels that
/// carry copies are watched, and no others.
pub proof fn law_watched_carriers_are_probed(
    end: &MultiReceiver,
    handles: Vec<u64>,
    handle: u64,
)
    requires
        call_ensures(MultiReceiver::probes, (end,), handles),
    ensures
        (exists|i: int| 0 <= i < handles@.len() && #[trigger] handles@[i] == handle) <==> exists|
            scid: Uuid,
            via: Uuid,
        |
            {
                &&& #[trigger] end@.sub_channels.contains_key(scid)
                &&& #[trigger] end@.sub_channels[scid].probes.contains_key(via)
                &&& end@.sub_channels[scid].probes[via].handle == handle
            },
{
    if exists|i: int| 0 <= i < handles@.len() && #[trigger] handles@[i] == handle {
        assert(handles@.contains(handle));
        let (scid, via) = choose|scid: Uuid, via: Uuid| #[trigger]
            probes_by(end@, scid, via, handle);
        assert(end@.sub_channels.contains_key(scid)
            && end@.sub_channels[scid].probes.contains_key(via));
    }
    if exists|scid: Uuid, via: Uuid|
        {
            &&& #[trigger] end@.sub_channels.contains_key(scid)
            &&& #[trigger] end@.sub_channels[scid].probes.contains_key(via)
            &&& end@.sub_channels[scid].probes[via].handle == handle
        } {
        let (scid, via) = choose|scid: Uuid, via: Uuid|
            {
                &&& #[trigger] end@.sub_channels.contains_key(scid)
                &&& #[trigger] end@.sub_channels[scid].probes.contains_key(via)
                &&& end@.sub_channels[scid].probes[via].handle == handle
            };
        assert(probes_by(end@, scid, via, handle));
        assert(handles@.contains(handle));
    }
}

/// A subchannel that a receiving end starts to receive from is connected, its
/// messages go to a new mailbox, and one copy of its subsender is held, at the
/// source where it was created. Nothing else is known differently.
pub proof fn law_attached_subchannel_is_connected(
    end: &mut MultiReceiver,
    scid: SubChannelId,
    origin: Uuid,
    mailboxes: &mut PayloadMailboxes,
    receiver: SubChannelReceiver,
)
    requires
        call_ensures(MultiReceiver::attach, (end, scid, origin, mailboxes), receiver),
        !old(end)@.sub_channels.contains_key(scid.0),
    ensures
        receiver.sub_channel_id == scid,
        !old(mailboxes)@.contains_key(receiver.mailbox),
        final(mailboxes)@.contains_key(receiver.mailbox),
        final(mailboxes)@[receiver.mailbox].messages.len() == 0,
        final(mailboxes)@[receiver.mailbox].senders == 1,
        final(mailboxes)@[receiver.mailbox].receiving,
        forall|other: MailboxId|
            #![trigger old(mailboxes)@.contains_key(other)]
            #![trigger final(mailboxes)@.contains_key(other)]
            other != receiver.mailbox ==> {
                &&& final(mailboxes)@.contains_key(other) == old(mailboxes)@.contains_key(other)
                &&& old(mailboxes)@.contains_key(other) ==> final(mailboxes)@[other]
                    == old(mailboxes)@[other]
            },
        final(end)@.sub_channels.contains_key(scid.0),
        ({
            let state = final(end)@.sub_channels[scid.0];
            &&& state.sender == Some(receiver.mailbox)
            &&& forall|source: u128| #[trigger] state.sources.contains(source) <==> source == origin
            &&& forall|copy: (u128, u128)| #[trigger] state.in_flight.count(copy) == 0
            &&& forall|via: u128| !#[trigger] state.probes.contains_key(via)
        }),
        forall|other: Uuid|
            #![trigger old(end)@.sub_channels.contains_key(other)]
            #![trigger final(end)@.sub_channels.contains_key(other)]
            other != scid.0 ==> {
                &&& final(end)@.sub_channels.contains_key(other)
                    == old(end)@.sub_channels.contains_key(other)
                &&& old(end)@.sub_channels.contains_key(other) ==> final(end)@.sub_channels[other]
                    == old(end)@.sub_channels[other]
            },
        final(end)@.uuid == old(end)@.uuid,
        final(end)@.clients == old(end)@.clients,
        final(end)@.senders == old(end)@.senders,
{
}

/// The subsenders in a message are taken from what came beside it in order. Each
/// is for the subchannel that the message names and sends over the IPC sender
/// that came for it. The receiver of its subchannel is told that it has arrived
/// at the receiving end, from which source and over which subchannel. If nothing
/// is left beside the message, that is an error, and nothing changes.
pub proof fn law_subsender_is_received(
    ids: &SubChannelSenderIds,
    end: &mut MultiReceiver,
    context: &mut ReceptionContext,
    sources: &mut SourceTable,
    received: Result<(Outgoing, SubChannelSender), MultiplexError>,
)
    requires
        call_ensures(SubChannelSender::deserialize, (ids, end, context, sources), received),
    ensures
        received is Ok <==> old(context).senders@.len() > 0,
        received matches Ok((notification, sender)) ==> {
            let came = old(context).senders@[0];
            &&& final(context).senders@ == old(context).senders@.skip(1)
            &&& final(context).from == old(context).from
            &&& final(context).via == old(context).via
            &&& notification.to == came.0
            &&& notification.message == MultiMessage::Received {
                scid: ids.sub_channel_id,
                from: old(context).from,
                via: old(context).via,
                new_source: old(end)@.uuid,
            }
            &&& sender.sub_channel_id == ids.sub_channel_id
            &&& sender.ipc_sender == came.0
            &&& sender.ipc_sender_uuid == came.1
            &&& has_new_source(sender.sender_id, old(sources)@, final(sources)@)
            &&& final(end)@.disconnectors.contains_pair(
                ids.sub_channel_id.0,
                *sender.disconnector,
            )
            &&& !old(end)@.disconnectors.contains_key(ids.sub_channel_id.0) ==> {
                &&& sender.disconnector.sub_channel_id == ids.sub_channel_id
                &&& sender.disconnector.ipc_sender == came.0
                &&& sender.disconnector.source == old(end)@.uuid
            }
            &&& final(end)@.sub_channels == old(end)@.sub_channels
            &&& final(end)@.clients == old(end)@.clients
        },
        received matches Err(e) ==> {
            &&& e@ == MultiplexErrorView::InternalError("IpcSender missing from message"@)
            &&& final(end)@ == old(end)@
            &&& final(sources)@ == old(sources)@
        },
{
    if old(context).senders@.len() > 0 {
        assert(old(context).senders@.skip(1) =~= old(context).senders@.drop_first());
    }
}

/// A receiving end is known by the UUID that it was given, and knows nothing at
/// first but the client that it was given, if it was.
pub proof fn law_first_client_is_known(
    uuid: Uuid,
    created: MultiReceiver,
    client: ClientId,
    response_sender: ResponseSender,
    with_client: MultiReceiver,
    told: Uuid,
)
    requires
        call_ensures(MultiReceiver::new, (uuid,), created),
        call_ensures(MultiReceiver::with_client, (uuid, client, response_sender), with_client),
        call_ensures(MultiReceiver::uuid, (&created,), told),
    ensures
        told == uuid,
        with_client@.uuid == uuid,
        forall|other: Uuid| !#[trigger] created@.clients.contains_key(other),
        forall|other: Uuid| #[trigger]
            with_client@.clients.contains_key(other) <==> other == client.0,
        with_client@.clients[client.0] == response_sender,
        forall|scid: Uuid| !#[trigger] created@.sub_channels.contains_key(scid),
        forall|scid: Uuid| !#[trigger] with_client@.sub_channels.contains_key(scid),
        forall|id: Uuid| !#[trigger] created@.senders.contains_key(id),
        forall|id: Uuid| !#[trigger] with_client@.senders.contains_key(id),
        forall|scid: Uuid| !#[trigger] created@.disconnectors.contains_key(scid),
        forall|scid: Uuid| !#[trigger] with_client@.disconnectors.contains_key(scid),
{
}

/// The IPC senders that a message names.
pub open spec fn names_in(message: MultiMessage) -> Seq<IpcSenderAndOrId> {
    match message {
        MultiMessage::Data(_, _, senders, _) => senders@,
        MultiMessage::Sending { via_chan, .. } => seq![via_chan],
        _ => Seq::empty(),
    }
}

proof fn lemma_brought_shift(named: Seq<IpcSenderAndOrId>, i: int)
    requires
        0 < i <= named.len(),
    ensures
        brought_by(named, i) == brought_by(named.drop_first(), i - 1) + if named[0] is IpcSender {
            1nat
        } else {
            0
        },
    decreases i,
{
    reveal_with_fuel(brought_by, 2);
    if i > 1 {
        lemma_brought_shift(named, i - 1);
        assert(named.drop_first()[i - 2] == named[i - 1]);
    }
}

proof fn lemma_to_connect(named: Seq<IpcSenderAndOrId>, n: int)
    requires
        0 <= n <= named.len(),
        forall|i: int|
            #![trigger named[i]]
            0 <= i < n ==> parsed_uuid(text_of(named[i])) is Ok,
        n < named.len() ==> parsed_uuid(text_of(named[n])) is Err,
    ensures
        to_connect(named).len() == brought_by(named, n),
        forall|i: int|
            #![trigger named[i]]
            0 <= i < n && named[i] is IpcSender ==> {
                &&& brought_by(named, i) < brought_by(named, n)
                &&& to_connect(named)[brought_by(named, i) as int].0
                    == named[i]->IpcSender_0.handle
                &&& parsed_uuid(text_of(named[i])) == Ok::<Uuid, Seq<char>>(
                    to_connect(named)[brought_by(named, i) as int].1,
                )
            },
    decreases named.len(),
{
    if n > 0 {
        let rest = named.drop_first();
        assert(parsed_uuid(text_of(named[0])) is Ok);
        assert forall|i: int| #![trigger rest[i]] 0 <= i < n - 1 implies parsed_uuid(
            text_of(rest[i]),
        ) is Ok by {
            assert(rest[i] == named[i + 1]);
        }
        if n < named.len() {
            assert(rest[n - 1] == named[n]);
        }
        lemma_to_connect(rest, n - 1);
        lemma_brought_shift(named, n);
        let all = to_connect(named);
        let later = to_connect(rest);
        assert forall|i: int|
            #![trigger named[i]]
            0 <= i < n && named[i] is IpcSender implies {
            &&& brought_by(named, i) < brought_by(named, n)
            &&& all[brought_by(named, i) as int].0 == named[i]->IpcSender_0.handle
            &&& parsed_uuid(text_of(named[i])) == Ok::<Uuid, Seq<char>>(
                all[brought_by(named, i) as int].1,
            )
        } by {
            if i > 0 {
                lemma_brought_shift(named, i);
                assert(rest[i - 1] == named[i]);
                let at = brought_by(rest, i - 1) as int;
                if named[0] is IpcSender {
                    assert(all[at + 1] == later[at]);
                } else {
                    assert(all == later);
                }
            }
        }
    }
}

/// The IPC senders that have to be connected before a message is handled are
/// those that came with the names in it, in order and under their UUIDs, up to
/// the first name whose text is no UUID.
pub proof fn law_senders_to_connect_came_along(
    message: &MultiMessage,
    senders: Vec<(Arc<ForwardSender>, Uuid)>,
    n: int,
    i: int,
)
    requires
        call_ensures(MultiReceiver::senders_to_connect, (message,), senders),
        0 <= n <= names_in(*message).len(),
        forall|j: int|
            #![trigger names_in(*message)[j]]
            0 <= j < n ==> parsed_uuid(text_of(names_in(*message)[j])) is Ok,
        n < names_in(*message).len() ==> parsed_uuid(text_of(names_in(*message)[n])) is Err,
    ensures
        senders@.len() == brought_by(names_in(*message), n),
        0 <= i < n ==> (names_in(*message)[i] matches IpcSenderAndOrId::IpcSender(sender, text) ==> {
            let at = brought_by(names_in(*message), i) as int;
            &&& at < senders@.len()
            &&& senders@[at].0.handle == sender.handle
            &&& parsed_uuid(text@) == Ok::<Uuid, Seq<char>>(senders@[at].1)
        }),
{
    let named = names_in(*message);
    assert(named_in(*message) =~= named);
    lemma_to_connect(named, n);
    let all = to_connect(named);
    let plain = senders@.map_values(
        |sender: (Arc<ForwardSender>, Uuid)| (sender.0.handle, sender.1),
    );
    assert(plain == all);
    assert(plain.len() == senders@.len());
    if 0 <= i < n && named[i] is IpcSender {
        let at = brought_by(named, i) as int;
        assert(at < all.len());
        assert(plain[at] == (senders@[at].0.handle, senders@[at].1));
    }
}

/// A message can be handled with given outcomes if and only if the copy that it
/// may tell of can be counted, and the outcomes are those of connecting, in
/// order, the senders that have to be connected, up to the first failure. A
/// message can be taken if the copy can be counted.
pub proof fn law_message_can_be_handled_with_its_outcomes(
    end: &MultiReceiver,
    message: &MultiMessage,
    senders: Vec<(Arc<ForwardSender>, Uuid)>,
    outcomes: &VecDeque<ConnectOutcome>,
    can_take: bool,
    can_handle: bool,
)
    requires
        call_ensures(MultiReceiver::senders_to_connect, (message,), senders),
        call_ensures(MultiReceiver::can_take, (end, message), can_take),
        call_ensures(MultiReceiver::can_handle, (end, message, outcomes), can_handle),
    ensures
        can_take <==> (*message matches MultiMessage::Sending { scid, .. } ==> (
        end@.sub_channels.contains_key(scid.0) ==> end@.sub_channels[scid.0].in_flight.len()
            < usize::MAX)),
        can_handle <==> {
            &&& can_take
            &&& outcomes@.len() <= senders@.len()
            &&& outcomes@.len() < senders@.len() ==> outcomes@.len() > 0 && outcomes@.last() is Err
            &&& forall|i: int|
                #![trigger outcomes@[i]]
                0 <= i < outcomes@.len() ==> (outcomes@[i] matches Ok(connected)
                    ==> connected.handle == senders@[i].0.handle)
        },
{
    let all = to_connect(named_in(*message));
    let plain = senders@.map_values(
        |sender: (Arc<ForwardSender>, Uuid)| (sender.0.handle, sender.1),
    );
    assert(plain == all);
    assert(plain.len() == senders@.len());
    assert forall|i: int| #![trigger plain[i]] 0 <= i < senders@.len() implies plain[i] == (
        senders@[i].0.handle,
        senders@[i].1,
    ) by {}
    if can_handle {
        assert forall|i: int|
            #![trigger outcomes@[i]]
            0 <= i < outcomes@.len() implies (outcomes@[i] matches Ok(connected)
            ==> connected.handle == senders@[i].0.handle) by {
            assert(plain[i] == all[i]);
        }
    }
    if can_take && outcomes@.len() <= senders@.len() && (outcomes@.len() < senders@.len()
        ==> outcomes@.len() > 0 && outcomes@.last() is Err) && (forall|i: int|
        #![trigger outcomes@[i]]
        0 <= i < outcomes@.len() ==> (outcomes@[i] matches Ok(connected) ==> connected.handle
            == senders@[i].0.handle)) {
        assert forall|i: int|
            #![trigger outcomes@[i]]
            0 <= i < outcomes@.len() && outcomes@[i] is Ok implies outcomes@[i]->Ok_0.handle
            == all[i].0 by {
            assert(plain[i] == all[i]);
        }
    }
}

/// Copies of a subsender that arrive at one place share a disconnector: one that
/// was found is used, and otherwise a new one is made, for the subchannel, the
/// IPC sender and the place, and recorded.
pub proof fn law_copies_share_a_disconnector(
    end: &mut MultiReceiver,
    found: Option<Arc<SubChannelDisconnector>>,
    scid: SubChannelId,
    ipc_sender: &Arc<ForwardSender>,
    disconnector: Arc<SubChannelDisconnector>,
)
    requires
        call_ensures(
            MultiReceiver::disconnector_given,
            (end, found, scid, ipc_sender),
            disconnector,
        ),
    ensures
        found matches Some(shared) ==> disconnector == shared && final(end)@ == old(end)@,
        found is None ==> {
            &&& disconnector.sub_channel_id == scid
            &&& disconnector.ipc_sender == *ipc_sender
            &&& disconnector.source == old(end)@.uuid
            &&& final(end)@.disconnectors.contains_key(scid.0)
            &&& final(end)@.disconnectors[scid.0] == *disconnector
            &&& forall|other: Uuid|
                #![trigger old(end)@.disconnectors.contains_key(other)]
                #![trigger final(end)@.disconnectors.contains_key(other)]
                other != scid.0 ==> {
                    &&& final(end)@.disconnectors.contains_key(other)
                        == old(end)@.disconnectors.contains_key(other)
                    &&& old(end)@.disconnectors.contains_key(other)
                        ==> final(end)@.disconnectors[other] == old(end)@.disconnectors[other]
                }
            &&& final(end)@.uuid == old(end)@.uuid
            &&& final(end)@.clients == old(end)@.clients
            &&& final(end)@.sub_channels == old(end)@.sub_channels
            &&& final(end)@.senders == old(end)@.senders
        },
{
}

/// Nothing has come beside a message at first. A message that has been decoded
/// leaves no senders beside it, and its source and subchannel stay.
pub proof fn law_decoded_message_leaves_no_senders(
    origin: Uuid,
    empty: SubChannelId,
    created: ReceptionContext,
    context: &mut ReceptionContext,
)
    requires
        call_ensures(ReceptionContext::new, (origin, empty), created),
        call_ensures(SubChannelReceiver::decoded, (context,), ()),
    ensures
        created.senders@.len() == 0,
        created.from == origin,
        created.via == empty,
        final(context).senders@.len() == 0,
        final(context).from == old(context).from,
        final(context).via == old(context).via,
{
}

/// A message for a subchannel and one that tells of a copy of its subsender are
/// about that subchannel. No other message is about one.
pub proof fn law_message_is_about_its_subchannel(
    message: &MultiMessage,
    about: Option<SubChannelId>,
)
    requires
        call_ensures(MultiMessage::about, (message,), about),
    ensures
        *message matches MultiMessage::Data(scid, _, _, _) ==> about == Some(scid),
        *message matches MultiMessage::Sending { scid, .. } ==> about == Some(scid),
        *message !is Data && *message !is Sending ==> about is None,
{
}

/// A server that checks the first message accepts a client that connects, and
/// then knows that client only. It accepts none with outcomes that nothing asked
/// for.
pub proof fn law_checking_server_knows_its_client(
    response_sender: ResponseSender,
    client: ClientId,
    outcomes: VecDeque<ConnectOutcome>,
    context: &mut ReceptionContext,
    mailboxes: &mut PayloadMailboxes,
    accepted: Option<Result<MultiReceiver, MultiplexError>>,
)
    requires
        call_ensures(
            OneShotMultiServer::checked_accept,
            (MultiMessage::Connect(response_sender, client), outcomes, context, mailboxes),
            accepted,
        ),
    ensures
        accepted is Some <==> outcomes@.len() == 0,
        accepted matches Some(accepted) ==> {
            &&& accepted matches Ok(end)
            &&& forall|other: Uuid| #[trigger]
                end@.clients.contains_key(other) <==> other == client.0
            &&& end@.clients[client.0] == response_sender
        },
        final(mailboxes)@ == old(mailboxes)@,
        *final(context) == *old(context),
{
    let none = named_in(MultiMessage::Connect(response_sender, client));
    assert(none.len() == 0);
    assert(to_connect(none).len() == 0);
}

} // verus!
