//! What happens at the receiving end of a channel over time, and what holds
//! throughout.

use crate::mux::channel::{new_sub_channel, Channel};
use crate::mux::demux::{
    clients_told, closed_off, lists_once, lost_vias, message_handled, named_in, names_of, polled_in_order,
    polled_one, resolved, resolved_all, to_connect, Connection, DemuxerView, Handled, LostChannels,
    MailboxMap, Polled, Probe, ResolvedMessageOrDisconnect,
};
use crate::mux::error::{MuxError, MuxErrorView};
use crate::mux::mailbox::{left_by_receiver, MailboxId, MailboxView};
use crate::mux::protocol::{
    Attachments, ClientId, IpcSenderAndOrId, MultiMessage, MultiResponse, ResponseSender,
    SubChannelId, ORIGIN,
};
use crate::mux::receiver::{
    found_in, recv_next, sub_channel_attached, Local, RecvAction, RecvEvent, SubChannelReceiver,
};
use crate::mux::sender::SubChannelSender;
use crate::mux::sender_id::ForwardSender;
use crate::mux::subchannel_lifecycle::SubSenderView;
use crate::mux::uuids::{parsed_uuid, Uuid};
use vstd::multiset::Multiset;
use vstd::prelude::*;

verus! {

/// What can happen at the receiving end of a channel.
pub enum Happening {
    /// A message arrives and is handled.
    Handled {
        message: MultiMessage,
        outcomes: Seq<Result<Connection, MuxError>>,
        outcome: Handled,
    },
    /// A subchannel is created.
    Attached { scid: SubChannelId, mailbox: MailboxId },
    /// The senders of all subchannels are polled.
    Polled { lost: LostChannels, failed: bool },
    /// A receiver takes what it finds in its mailbox.
    Taken { mailbox: MailboxId, found: Local },
    /// A receiver stops receiving.
    Closed { mailbox: MailboxId },
    /// Mailboxes of other channels change.
    Elsewhere { others: Set<MailboxId> },
}

/// The receiving end of a channel, and the mailboxes.
pub type End = (DemuxerView, MailboxMap);

/// The outcome of something that happens at the receiving end with the given
/// UUID.
pub open spec fn happens(uuid: Uuid, before: End, what: Happening, after: End) -> bool {
    match what {
        Happening::Handled { message, outcomes, outcome } => message_handled(
            before.0,
            before.1,
            message,
            uuid,
            outcomes,
            outcome,
            after.0,
            after.1,
        ),
        Happening::Attached { scid, mailbox } => sub_channel_attached(
            before.0,
            before.1,
            scid,
            mailbox,
            after.0,
            after.1,
        ),
        Happening::Polled { lost, failed } => exists|order: Seq<Uuid>|
            {
                &&& #[trigger] lists_once(order, before.0.sub_channels.dom())
                &&& Polled { state: after.0, boxes: after.1, failed } == polled_in_order(
                    Polled { state: before.0, boxes: before.1, failed: false },
                    order,
                    lost,
                )
            },
        Happening::Taken { mailbox, found } => {
            &&& after.0 == before.0
            &&& found == found_in(before.1, mailbox).0
            &&& after.1 == found_in(before.1, mailbox).1
        },
        Happening::Closed { mailbox } => {
            &&& after.0 == before.0
            &&& after.1 == left_by_receiver(before.1, mailbox)
        },
        Happening::Elsewhere { others } => {
            &&& after.0 == before.0
            &&& forall|id: MailboxId|
                #![trigger after.1.contains_key(id)]
                #![trigger before.1.contains_key(id)]
                !others.contains(id) ==> {
                    &&& after.1.contains_key(id) == before.1.contains_key(id)
                    &&& after.1[id] == before.1[id]
                }
        },
    }
}

/// A series of happenings, with the states before, between and after.
pub open spec fn history(uuid: Uuid, ends: Seq<End>, what: Seq<Happening>) -> bool {
    &&& ends.len() == what.len() + 1
    &&& forall|i: int|
        #![trigger what[i]]
        0 <= i < what.len() ==> happens(uuid, ends[i], what[i], ends[i + 1])
}

/// What a message brings to its receiver: bytes, and what came beside them.
pub type Content = (Vec<u8>, Attachments);

/// The contents of the messages for a subchannel that have been accepted, in
/// order.
pub open spec fn accepted(what: Seq<Happening>, scid: SubChannelId) -> Seq<Content>
    decreases what.len(),
{
    if what.len() == 0 {
        Seq::empty()
    } else {
        let earlier = accepted(what.drop_last(), scid);
        match what.last() {
            Happening::Handled {
                message: MultiMessage::Data(to, payload, _, attachments),
                outcome,
                ..
            } => if to == scid && outcome.result is Ok {
                earlier.push((payload, attachments))
            } else {
                earlier
            },
            _ => earlier,
        }
    }
}

/// The contents of the messages that have been taken from a mailbox, in order.
pub open spec fn received(what: Seq<Happening>, mailbox: MailboxId) -> Seq<Content>
    decreases what.len(),
{
    if what.len() == 0 {
        Seq::empty()
    } else {
        let earlier = received(what.drop_last(), mailbox);
        match what.last() {
            Happening::Taken { mailbox: from, found: Local::Message(message) } => if from
                == mailbox {
                earlier.push((message.payload, message.attachments))
            } else {
                earlier
            },
            _ => earlier,
        }
    }
}

/// The subchannel is not created again, its receiver does not stop receiving,
/// and what happens elsewhere does not concern its mailbox.
pub open spec fn undisturbed(what: Happening, scid: SubChannelId, own: MailboxId) -> bool {
    match what {
        Happening::Attached { scid: attached, .. } => attached != scid,
        Happening::Closed { mailbox } => mailbox != own,
        Happening::Elsewhere { others } => !others.contains(own),
        _ => true,
    }
}

/// No other subchannel delivers its messages to the mailbox.
pub open spec fn exclusive(state: DemuxerView, scid: SubChannelId, own: MailboxId) -> bool {
    forall|other: Uuid|
        #![trigger state.sub_channels[other]]
        state.sub_channels.contains_key(other) && other != scid.0
            ==> state.sub_channels[other].sender != Some(own)
}

/// A mailbox holds what has been accepted for its subchannel and not yet been
/// received, followed by the news of the disconnection if there is any to tell.
spec fn in_order(
    end: End,
    scid: SubChannelId,
    own: MailboxId,
    pending: Seq<Content>,
) -> bool {
    let state = end.0.sub_channels[scid.0];
    let mailbox = end.1[own];
    let n = pending.len() as int;
    &&& end.0.sub_channels.contains_key(scid.0)
    &&& exclusive(end.0, scid, own)
    &&& end.1.contains_key(own)
    &&& mailbox.receiving
    &&& state.sender is Some ==> state.sender == Some(own) && mailbox.senders == 1
        && mailbox.messages.len() == n
    &&& state.sender is None ==> mailbox.senders == 0 && (mailbox.messages.len() == n || (
    mailbox.messages.len() == n + 1 && mailbox.messages[n]
        == ResolvedMessageOrDisconnect::Disconnect(scid)))
    &&& forall|k: int|
        #![trigger mailbox.messages[k]]
        0 <= k < n ==> (mailbox.messages[k] matches ResolvedMessageOrDisconnect::ResolvedMessage(
            message,
        ) && message.scid == scid && message.payload == pending[k].0 && message.attachments
            == pending[k].1)
}

/// Disconnecting another subchannel leaves a mailbox alone.
proof fn lemma_closed_off_elsewhere(
    boxes: MailboxMap,
    handed_back: Option<MailboxId>,
    scid: SubChannelId,
    own: MailboxId,
)
    requires
        handed_back != Some(own),
    ensures
        closed_off(boxes, handed_back, scid).contains_key(own) == boxes.contains_key(own),
        boxes.contains_key(own) ==> closed_off(boxes, handed_back, scid)[own] == boxes[own],
{
}

proof fn lemma_poll_keeps_order(
    before: Polled,
    order: Seq<Uuid>,
    lost: LostChannels,
    scid: SubChannelId,
    own: MailboxId,
    pending: Seq<Content>,
)
    requires
        in_order((before.state, before.boxes), scid, own, pending),
        forall|i: int|
            0 <= i < order.len() ==> before.state.sub_channels.contains_key(#[trigger] order[i]),
    ensures
        ({
            let after = polled_in_order(before, order, lost);
            &&& in_order((after.state, after.boxes), scid, own, pending)
            &&& after.state.sub_channels.dom() == before.state.sub_channels.dom()
        }),
    decreases order.len(),
{
    if order.len() > 0 {
        lemma_poll_keeps_order(before, order.drop_last(), lost, scid, own, pending);
        let middle = polled_in_order(before, order.drop_last(), lost);
        let last = order[order.len() - 1];
        assert(before.state.sub_channels.contains_key(last));
        assert(middle.state.sub_channels.dom().contains(last));
        let after = polled_one(middle, last, lost);
        assert(after.state.sub_channels.dom() =~= middle.state.sub_channels.dom());
        let state = middle.state.sub_channels[last];
        let handed_back = state.lost_via(lost_vias(state, lost)).handed_back();
        if last != scid.0 {
            lemma_closed_off_elsewhere(middle.boxes, handed_back, SubChannelId(last), own);
        }
        assert(in_order((after.state, after.boxes), scid, own, pending));
    }
}

/// What is still to be received after something has happened.
spec fn pending_after(
    pending: Seq<Content>,
    what: Happening,
    scid: SubChannelId,
    own: MailboxId,
) -> Seq<Content> {
    match what {
        Happening::Handled {
            message: MultiMessage::Data(to, payload, _, attachments),
            outcome,
            ..
        } => if to == scid && outcome.result is Ok {
            pending.push((payload, attachments))
        } else {
            pending
        },
        Happening::Taken { mailbox, found: Local::Message(_) } => if mailbox == own {
            pending.drop_first()
        } else {
            pending
        },
        _ => pending,
    }
}

proof fn lemma_handling_keeps_order(
    uuid: Uuid,
    before: End,
    message: MultiMessage,
    outcomes: Seq<Result<Connection, MuxError>>,
    outcome: Handled,
    after: End,
    scid: SubChannelId,
    own: MailboxId,
    pending: Seq<Content>,
)
    requires
        in_order(before, scid, own, pending),
        message_handled(before.0, before.1, message, uuid, outcomes, outcome, after.0, after.1),
    ensures
        in_order(
            after,
            scid,
            own,
            pending_after(pending, Happening::Handled { message, outcomes, outcome }, scid, own),
        ),
{
    match message {
        MultiMessage::Data(to, payload, senders, attachments) => {
            assert(after.0.sub_channels == before.0.sub_channels);
        },
        MultiMessage::Sending { scid: to, via, via_chan } => {
            let state = before.0.sub_channels[to.0];
            let lost = state.sent_via(via.0, Probe::Lost).failed_via(via.0);
            if to != scid && before.0.sub_channels.contains_key(to.0) {
                lemma_closed_off_elsewhere(before.1, lost.handed_back(), to, own);
            }
        },
        MultiMessage::ReceiveFailed { scid: to, via } => {
            if to != scid && before.0.sub_channels.contains_key(to.0) {
                lemma_closed_off_elsewhere(
                    before.1,
                    before.0.sub_channels[to.0].failed_via(via.0).handed_back(),
                    to,
                    own,
                );
            }
        },
        MultiMessage::Disconnect(to, source) => {
            if to != scid && before.0.sub_channels.contains_key(to.0) {
                lemma_closed_off_elsewhere(
                    before.1,
                    before.0.sub_channels[to.0].dropped_at(source).handed_back(),
                    to,
                    own,
                );
            }
        },
        _ => {},
    }
}

proof fn lemma_happening_keeps_order(
    uuid: Uuid,
    before: End,
    what: Happening,
    after: End,
    scid: SubChannelId,
    own: MailboxId,
    pending: Seq<Content>,
)
    requires
        in_order(before, scid, own, pending),
        happens(uuid, before, what, after),
        undisturbed(what, scid, own),
    ensures
        in_order(after, scid, own, pending_after(pending, what, scid, own)),
        what matches Happening::Taken { mailbox, found: Local::Message(message) } ==> (mailbox == own
            ==> pending.len() > 0 && pending[0] == (message.payload, message.attachments)),
{
    match what {
        Happening::Handled { message, outcomes, outcome } => {
            lemma_handling_keeps_order(
                uuid,
                before,
                message,
                outcomes,
                outcome,
                after,
                scid,
                own,
                pending,
            );
        },
        Happening::Attached { scid: attached, mailbox } => {},
        Happening::Polled { lost, failed } => {
            let order = choose|order: Seq<Uuid>|
                {
                    &&& #[trigger] lists_once(order, before.0.sub_channels.dom())
                    &&& Polled { state: after.0, boxes: after.1, failed } == polled_in_order(
                        Polled { state: before.0, boxes: before.1, failed: false },
                        order,
                        lost,
                    )
                };
            assert forall|i: int| 0 <= i < order.len() implies before.0.sub_channels.contains_key(
                #[trigger] order[i],
            ) by {
                assert(order.contains(order[i]));
                assert(before.0.sub_channels.dom().contains(order[i]));
            }
            lemma_poll_keeps_order(
                Polled { state: before.0, boxes: before.1, failed: false },
                order,
                lost,
                scid,
                own,
                pending,
            );
        },
        Happening::Taken { mailbox, found } => {
            if mailbox == own {
                let messages = before.1[own].messages;
                if messages.len() > 0 {
                    assert(messages.drop_first() =~= after.1[own].messages);
                    assert(messages[0] == messages[0]);
                }
            }
        },
        Happening::Closed { mailbox } => {},
        Happening::Elsewhere { others } => {
            assert(before.1.contains_key(own));
        },
    }
}

/// A subchannel has just got a mailbox of its own.
pub open spec fn newly_attached(end: End, scid: SubChannelId, own: MailboxId) -> bool {
    &&& end.0.sub_channels.contains_key(scid.0)
    &&& end.0.sub_channels[scid.0] == SubSenderView::<MailboxId, Probe>::initial(own, ORIGIN)
    &&& exclusive(end.0, scid, own)
    &&& end.1.contains_key(own)
    &&& end.1[own] == MailboxView::<ResolvedMessageOrDisconnect>::opened()
}

proof fn lemma_order_is_kept(
    uuid: Uuid,
    ends: Seq<End>,
    what: Seq<Happening>,
    scid: SubChannelId,
    own: MailboxId,
)
    requires
        history(uuid, ends, what),
        newly_attached(ends[0], scid, own),
        forall|i: int|
            #![trigger what[i]]
            0 <= i < what.len() ==> undisturbed(what[i], scid, own),
    ensures
        ({
            let sent = accepted(what, scid);
            let n = received(what, own).len();
            &&& n <= sent.len()
            &&& received(what, own) == sent.take(n as int)
            &&& in_order(ends.last(), scid, own, sent.skip(n as int))
        }),
    decreases what.len(),
{
    let sent = accepted(what, scid);
    let got = received(what, own);
    if what.len() == 0 {
        assert(sent.take(0) =~= got);
        assert(sent.skip(0) =~= Seq::<Content>::empty());
    } else {
        let earlier = what.drop_last();
        let last = what[what.len() - 1];
        assert forall|i: int| #![trigger earlier[i]] 0 <= i < earlier.len() implies happens(
            uuid,
            ends.drop_last()[i],
            earlier[i],
            ends.drop_last()[i + 1],
        ) && undisturbed(earlier[i], scid, own) by {
            assert(earlier[i] == what[i]);
        }
        lemma_order_is_kept(uuid, ends.drop_last(), earlier, scid, own);
        let sent_before = accepted(earlier, scid);
        let got_before = received(earlier, own);
        let pending = sent_before.skip(got_before.len() as int);
        let before = ends[ends.len() - 2];
        assert(ends.drop_last().last() == before);
        assert(happens(uuid, before, last, ends.last()));
        lemma_happening_keeps_order(uuid, before, last, ends.last(), scid, own, pending);
        assert(pending_after(pending, last, scid, own) =~= sent.skip(got.len() as int));
        assert(got =~= sent.take(got.len() as int));
    }
}

/// The messages of a subchannel are received in the order in which they were
/// accepted, each once and as it was sent, whatever else happens at the
/// receiving end in between. After the last of them the receiver waits for more
/// as long as the subchannel is connected, and learns of its disconnection when
/// it no longer is.
pub proof fn law_messages_are_received_in_order(
    uuid: Uuid,
    ends: Seq<End>,
    what: Seq<Happening>,
    scid: SubChannelId,
    own: MailboxId,
)
    requires
        history(uuid, ends, what),
        newly_attached(ends[0], scid, own),
        forall|i: int|
            #![trigger what[i]]
            0 <= i < what.len() ==> undisturbed(what[i], scid, own),
    ensures
        ({
            let sent = accepted(what, scid);
            let n = received(what, own).len();
            let found = found_in(ends.last().1, own).0;
            &&& n <= sent.len()
            &&& received(what, own) == sent.take(n as int)
            &&& ends.last().0.sub_channels.contains_key(scid.0)
            &&& if n < sent.len() {
                found matches Local::Message(message) && message.scid == scid && (
                    message.payload,
                    message.attachments,
                ) == sent[n as int]
            } else if ends.last().0.sub_channels[scid.0].sender is Some {
                found is Empty
            } else {
                found is Disconnected
            }
        }),
{
    lemma_order_is_kept(uuid, ends, what, scid, own);
    let sent = accepted(what, scid);
    let n = received(what, own).len();
    let pending = sent.skip(n as int);
    let messages = ends.last().1[own].messages;
    if n < sent.len() {
        assert(pending[0] == sent[n as int]);
        assert(messages[0] == messages[0]);
    }
}

/// No copy of the subsender is sent anywhere.
pub open spec fn stays_home(what: Happening, scid: SubChannelId) -> bool {
    match what {
        Happening::Handled { message, .. } => match message {
            MultiMessage::Sending { scid: to, .. } => to != scid,
            MultiMessage::SendingViaIpcChannel { scid: to, .. } => to != scid,
            MultiMessage::Received { scid: to, .. } => to != scid,
            _ => true,
        },
        _ => true,
    }
}

/// The news arrives that the process in which a subchannel was created has
/// dropped its last copy of the subsender.
pub open spec fn drops_last(what: Happening, scid: SubChannelId) -> bool {
    what matches Happening::Handled { message: MultiMessage::Disconnect(to, source), .. } && to
        == scid && source == ORIGIN
}

/// The news has arrived that the last copy of a subsender has been dropped.
pub open spec fn last_dropped(what: Seq<Happening>, scid: SubChannelId) -> bool {
    exists|i: int| 0 <= i < what.len() && drops_last(#[trigger] what[i], scid)
}

/// The subsender is held where it was created, if anywhere.
spec fn at_home(state: SubSenderView<MailboxId, Probe>, dropped: bool) -> bool {
    &&& state.in_flight == Multiset::<u128>::empty()
    &&& state.sources == if dropped {
        Set::empty()
    } else {
        set![ORIGIN]
    }
    &&& state.sender is None == dropped
}

proof fn lemma_poll_keeps_home(
    before: Polled,
    order: Seq<Uuid>,
    lost: LostChannels,
    scid: SubChannelId,
    dropped: bool,
)
    requires
        at_home(before.state.sub_channels[scid.0], dropped),
    ensures
        at_home(polled_in_order(before, order, lost).state.sub_channels[scid.0], dropped),
    decreases order.len(),
{
    if order.len() > 0 {
        lemma_poll_keeps_home(before, order.drop_last(), lost, scid, dropped);
        let middle = polled_in_order(before, order.drop_last(), lost);
        let state = middle.state.sub_channels[scid.0];
        let gone = lost_vias(state, lost);
        assert(state.lost_via(gone).in_flight =~= Multiset::<u128>::empty());
        if !dropped {
            assert(state.lost_via(gone).sources.contains(ORIGIN));
        }
    }
}

proof fn lemma_happening_keeps_home(
    uuid: Uuid,
    before: End,
    what: Happening,
    after: End,
    scid: SubChannelId,
    own: MailboxId,
    dropped: bool,
)
    requires
        happens(uuid, before, what, after),
        undisturbed(what, scid, own),
        stays_home(what, scid),
        before.0.sub_channels.contains_key(scid.0),
        at_home(before.0.sub_channels[scid.0], dropped),
    ensures
        at_home(after.0.sub_channels[scid.0], dropped || drops_last(what, scid)),
{
    let state = before.0.sub_channels[scid.0];
    if !dropped {
        assert(state.sources.contains(ORIGIN));
    }
    match what {
        Happening::Handled { message: MultiMessage::Disconnect(to, source), .. } => {
            if to == scid {
                let left = state.dropped_at(source);
                if source == ORIGIN {
                    assert(left.sources =~= Set::<u128>::empty());
                } else if !dropped {
                    assert(left.sources =~= set![ORIGIN]);
                    assert(left.sources.contains(ORIGIN));
                } else {
                    assert(left.sources =~= Set::<u128>::empty());
                }
            }
        },
        Happening::Handled { message: MultiMessage::ReceiveFailed { scid: to, via }, .. } => {
            if to == scid {
                let left = state.failed_via(via.0);
                assert(left.in_flight =~= Multiset::<u128>::empty());
            }
        },
        Happening::Polled { lost, failed } => {
            let order = choose|order: Seq<Uuid>|
                {
                    &&& #[trigger] lists_once(order, before.0.sub_channels.dom())
                    &&& Polled { state: after.0, boxes: after.1, failed } == polled_in_order(
                        Polled { state: before.0, boxes: before.1, failed: false },
                        order,
                        lost,
                    )
                };
            lemma_poll_keeps_home(
                Polled { state: before.0, boxes: before.1, failed: false },
                order,
                lost,
                scid,
                dropped,
            );
        },
        _ => {},
    }
}

proof fn lemma_home_is_kept(
    uuid: Uuid,
    ends: Seq<End>,
    what: Seq<Happening>,
    scid: SubChannelId,
    own: MailboxId,
)
    requires
        history(uuid, ends, what),
        newly_attached(ends[0], scid, own),
        forall|i: int|
            #![trigger what[i]]
            0 <= i < what.len() ==> undisturbed(what[i], scid, own) && stays_home(what[i], scid),
    ensures
        at_home(ends.last().0.sub_channels[scid.0], last_dropped(what, scid)),
    decreases what.len(),
{
    if what.len() > 0 {
        let earlier = what.drop_last();
        let last = what[what.len() - 1];
        assert forall|i: int| #![trigger earlier[i]] 0 <= i < earlier.len() implies happens(
            uuid,
            ends.drop_last()[i],
            earlier[i],
            ends.drop_last()[i + 1],
        ) && undisturbed(earlier[i], scid, own) && stays_home(earlier[i], scid) by {
            assert(earlier[i] == what[i]);
        }
        lemma_home_is_kept(uuid, ends.drop_last(), earlier, scid, own);
        lemma_order_is_kept(uuid, ends.drop_last(), earlier, scid, own);
        let before = ends[ends.len() - 2];
        assert(ends.drop_last().last() == before);
        assert(happens(uuid, before, last, ends.last()));
        lemma_happening_keeps_home(
            uuid,
            before,
            last,
            ends.last(),
            scid,
            own,
            last_dropped(earlier, scid),
        );
        if last_dropped(earlier, scid) {
            let i = choose|i: int| 0 <= i < earlier.len() && drops_last(#[trigger] earlier[i], scid);
            assert(drops_last(what[i], scid));
        }
        if last_dropped(what, scid) {
            let i = choose|i: int| 0 <= i < what.len() && drops_last(#[trigger] what[i], scid);
            if i < earlier.len() {
                assert(drops_last(earlier[i], scid));
            }
        }
    }
}

/// A receiver gets everything that was sent over its subchannel in order, each
/// message once, and an error only when the last copy of the subsender has been
/// dropped and nothing is left to receive, whether it looks in its mailbox or
/// waits there. This is for a subsender of which no copy is sent to another
/// process.
pub proof fn law_receiver_gets_all_before_disconnection(
    uuid: Uuid,
    ends: Seq<End>,
    what: Seq<Happening>,
    scid: SubChannelId,
    own: MailboxId,
)
    requires
        history(uuid, ends, what),
        newly_attached(ends[0], scid, own),
        forall|i: int|
            #![trigger what[i]]
            0 <= i < what.len() ==> undisturbed(what[i], scid, own) && stays_home(what[i], scid),
    ensures
        ({
            let sent = accepted(what, scid);
            let n = received(what, own).len();
            let found = found_in(ends.last().1, own).0;
            &&& n <= sent.len()
            &&& received(what, own) == sent.take(n as int)
            &&& recv_next(scid, RecvEvent::Waited(found)) == recv_next(
                scid,
                RecvEvent::Local(found),
            )
            &&& match recv_next(scid, RecvEvent::Local(found)) {
                RecvAction::Return(Ok(message)) => n < sent.len() && (
                    message.payload,
                    message.attachments,
                ) == sent[n as int],
                RecvAction::Return(Err(e)) => n == sent.len() && last_dropped(what, scid) && e
                    == MuxError::Disconnected,
                _ => n == sent.len() && !last_dropped(what, scid),
            }
        }),
{
    law_messages_are_received_in_order(uuid, ends, what, scid, own);
    lemma_home_is_kept(uuid, ends, what, scid, own);
}

/// Every connected subchannel has a mailbox of its own.
pub open spec fn separate(end: End) -> bool {
    &&& forall|scid: Uuid|
        #![trigger end.0.sub_channels[scid]]
        end.0.sub_channels.contains_key(scid) && end.0.sub_channels[scid].sender is Some ==> {
            let id = end.0.sub_channels[scid].sender->0;
            end.1.contains_key(id) && end.1[id].senders > 0
        }
    &&& forall|a: Uuid, b: Uuid|
        #![trigger end.0.sub_channels[a], end.0.sub_channels[b]]
        a != b && end.0.sub_channels.contains_key(a) && end.0.sub_channels.contains_key(b)
            && end.0.sub_channels[a].sender is Some ==> end.0.sub_channels[a].sender
            != end.0.sub_channels[b].sender
}

/// A new subchannel whose id is not in use disturbs no other: what is known of
/// the senders of every other subchannel, all that waits in mailboxes, and
/// whether a sender believes its receiver to be connected, stay as they were.
/// The new subchannel is connected and has a mailbox of its own.
pub proof fn law_new_subchannel_disturbs_no_other(
    sender: SubChannelSender,
    receiver: SubChannelReceiver,
    channel: Channel,
    boxes: MailboxMap,
    after: Channel,
    boxes_after: MailboxMap,
)
    requires
        new_sub_channel(sender, receiver, channel, boxes, after, boxes_after),
        separate((channel.multi_receiver@.demuxer, boxes)),
        !channel.multi_receiver@.demuxer.sub_channels.contains_key(sender.sub_channel_id.0),
    ensures
        newly_attached(
            (after.multi_receiver@.demuxer, boxes_after),
            sender.sub_channel_id,
            receiver.mailbox,
        ),
        separate((after.multi_receiver@.demuxer, boxes_after)),
        after.multi_sender@.receiver_connected(sender.sub_channel_id)
            == !channel.multi_sender@.disconnected,
        forall|other: SubChannelId|
            other != sender.sub_channel_id ==> #[trigger] after.multi_sender@.receiver_connected(other)
                == channel.multi_sender@.receiver_connected(other),
        forall|other: Uuid|
            #![trigger after.multi_receiver@.demuxer.sub_channels[other]]
            channel.multi_receiver@.demuxer.sub_channels.contains_key(other) ==> {
                &&& after.multi_receiver@.demuxer.sub_channels.contains_key(other)
                &&& after.multi_receiver@.demuxer.sub_channels[other]
                    == channel.multi_receiver@.demuxer.sub_channels[other]
            },
        forall|id: MailboxId|
            #![trigger boxes_after[id]]
            boxes.contains_key(id) ==> boxes_after.contains_key(id) && boxes_after[id] == boxes[id],
{
    let state = channel.multi_receiver@.demuxer;
    let scid = sender.sub_channel_id;
    assert forall|other: Uuid|
        #![trigger after.multi_receiver@.demuxer.sub_channels[other]]
        state.sub_channels.contains_key(other) implies state.sub_channels[other].sender != Some(
        receiver.mailbox,
    ) by {
        if state.sub_channels[other].sender is Some {
            assert(boxes.contains_key(state.sub_channels[other].sender->0));
        }
    }
}

/// The subchannel that a message is about.
pub open spec fn subject(message: MultiMessage) -> Option<SubChannelId> {
    match message {
        MultiMessage::Connect(_, _) => None,
        MultiMessage::Data(scid, _, _, _) => Some(scid),
        MultiMessage::SubChannelId(scid, _) => Some(scid),
        MultiMessage::Sending { scid, .. } => Some(scid),
        MultiMessage::SendingViaIpcChannel { scid, .. } => Some(scid),
        MultiMessage::ReceiveFailed { scid, .. } => Some(scid),
        MultiMessage::Received { scid, .. } => Some(scid),
        MultiMessage::Disconnect(scid, _) => Some(scid),
    }
}

/// A message reaches nobody but the receiver of the subchannel that it is about:
/// all other subchannels and their mailboxes stay as they were.
pub proof fn law_message_disturbs_no_other_subchannel(
    uuid: Uuid,
    before: End,
    message: MultiMessage,
    outcomes: Seq<Result<Connection, MuxError>>,
    outcome: Handled,
    after: End,
    other: Uuid,
)
    requires
        message_handled(before.0, before.1, message, uuid, outcomes, outcome, after.0, after.1),
        separate(before),
        before.0.sub_channels.contains_key(other),
        subject(message) != Some(SubChannelId(other)),
    ensures
        after.0.sub_channels.contains_key(other),
        after.0.sub_channels[other] == before.0.sub_channels[other],
        before.0.sub_channels[other].sender is Some ==> {
            let id = before.0.sub_channels[other].sender->0;
            after.1.contains_key(id) && after.1[id] == before.1[id]
        },
        separate(after),
{
    lemma_handling_keeps_separate(uuid, before, message, outcomes, outcome, after);
    match subject(message) {
        Some(scid) => {
            if before.0.sub_channels.contains_key(scid.0) {
                assert(before.0.sub_channels[scid.0].sender is Some
                    ==> before.0.sub_channels[scid.0].sender
                    != before.0.sub_channels[other].sender);
            }
        },
        None => {},
    }
}

/// Disconnecting a subchannel that has a mailbox of its own leaves every other
/// one its mailbox.
proof fn lemma_settling_keeps_separate(
    before: End,
    scid: SubChannelId,
    left: SubSenderView<MailboxId, Probe>,
)
    requires
        separate(before),
        before.0.sub_channels.contains_key(scid.0),
        left.sender == before.0.sub_channels[scid.0].sender,
    ensures
        separate(
            (
                before.0.with_sub_channel(scid, left.settled()),
                closed_off(before.1, left.handed_back(), scid),
            ),
        ),
{
    let after = (
        before.0.with_sub_channel(scid, left.settled()),
        closed_off(before.1, left.handed_back(), scid),
    );
    assert forall|other: Uuid|
        #![trigger after.0.sub_channels[other]]
        after.0.sub_channels.contains_key(other) && after.0.sub_channels[other].sender is Some implies {
        let id = after.0.sub_channels[other].sender->0;
        after.1.contains_key(id) && after.1[id].senders > 0
    } by {
        let id = after.0.sub_channels[other].sender->0;
        assert(before.0.sub_channels[other].sender == Some(id));
        if other != scid.0 {
            assert(before.0.sub_channels[scid.0].sender is Some
                ==> before.0.sub_channels[scid.0].sender != before.0.sub_channels[other].sender);
            lemma_closed_off_elsewhere(before.1, left.handed_back(), scid, id);
        }
    }
    assert forall|a: Uuid, b: Uuid|
        #![trigger after.0.sub_channels[a], after.0.sub_channels[b]]
        a != b && after.0.sub_channels.contains_key(a) && after.0.sub_channels.contains_key(b)
            && after.0.sub_channels[a].sender is Some implies after.0.sub_channels[a].sender
        != after.0.sub_channels[b].sender by {
        assert(before.0.sub_channels[a].sender == after.0.sub_channels[a].sender);
        assert(before.0.sub_channels[a].sender != before.0.sub_channels[b].sender);
    }
}

proof fn lemma_handling_keeps_separate(
    uuid: Uuid,
    before: End,
    message: MultiMessage,
    outcomes: Seq<Result<Connection, MuxError>>,
    outcome: Handled,
    after: End,
)
    requires
        message_handled(before.0, before.1, message, uuid, outcomes, outcome, after.0, after.1),
        separate(before),
    ensures
        separate(after),
{
    match message {
        MultiMessage::Data(to, payload, senders, attachments) => {
            assert(after.0.sub_channels == before.0.sub_channels);
            assert forall|id: MailboxId| #[trigger] before.1.contains_key(id) implies after.1.contains_key(
                id,
            ) && after.1[id].senders == before.1[id].senders by {}
        },
        MultiMessage::Sending { scid, via, via_chan } => {
            if before.0.sub_channels.contains_key(scid.0) {
                let state = before.0.sub_channels[scid.0];
                lemma_settling_keeps_separate(
                    before,
                    scid,
                    state.sent_via(via.0, Probe::Lost).failed_via(via.0),
                );
            }
        },
        MultiMessage::ReceiveFailed { scid, via } => {
            if before.0.sub_channels.contains_key(scid.0) {
                lemma_settling_keeps_separate(
                    before,
                    scid,
                    before.0.sub_channels[scid.0].failed_via(via.0),
                );
            }
        },
        MultiMessage::Disconnect(scid, source) => {
            if before.0.sub_channels.contains_key(scid.0) {
                lemma_settling_keeps_separate(
                    before,
                    scid,
                    before.0.sub_channels[scid.0].dropped_at(source),
                );
            }
        },
        _ => {},
    }
}

proof fn lemma_poll_keeps_separate(before: Polled, order: Seq<Uuid>, lost: LostChannels)
    requires
        separate((before.state, before.boxes)),
        forall|i: int|
            0 <= i < order.len() ==> before.state.sub_channels.contains_key(#[trigger] order[i]),
    ensures
        ({
            let after = polled_in_order(before, order, lost);
            &&& separate((after.state, after.boxes))
            &&& after.state.sub_channels.dom() == before.state.sub_channels.dom()
        }),
    decreases order.len(),
{
    if order.len() > 0 {
        lemma_poll_keeps_separate(before, order.drop_last(), lost);
        let middle = polled_in_order(before, order.drop_last(), lost);
        let last = order[order.len() - 1];
        assert(before.state.sub_channels.contains_key(last));
        assert(middle.state.sub_channels.dom().contains(last));
        let after = polled_one(middle, last, lost);
        assert(after.state.sub_channels.dom() =~= middle.state.sub_channels.dom());
        let state = middle.state.sub_channels[last];
        lemma_settling_keeps_separate(
            (middle.state, middle.boxes),
            SubChannelId(last),
            state.lost_via(lost_vias(state, lost)),
        );
    }
}

/// Whatever happens at a receiving end, every connected subchannel keeps a
/// mailbox of its own.
pub proof fn law_subchannels_stay_separate(uuid: Uuid, before: End, what: Happening, after: End)
    requires
        happens(uuid, before, what, after),
        separate(before),
        what matches Happening::Attached { scid, .. } ==> !before.0.sub_channels.contains_key(scid.0),
        what matches Happening::Elsewhere { others } ==> forall|scid: Uuid|
            #![trigger before.0.sub_channels[scid]]
            before.0.sub_channels.contains_key(scid) ==> (
            before.0.sub_channels[scid].sender matches Some(id) ==> !others.contains(id)),
    ensures
        separate(after),
{
    match what {
        Happening::Handled { message, outcomes, outcome } => {
            lemma_handling_keeps_separate(uuid, before, message, outcomes, outcome, after);
        },
        Happening::Attached { scid, mailbox } => {
            assert forall|other: Uuid|
                #![trigger after.0.sub_channels[other]]
                before.0.sub_channels.contains_key(other) && before.0.sub_channels[other].sender is Some implies
                before.0.sub_channels[other].sender != Some(mailbox) by {
                assert(before.1.contains_key(before.0.sub_channels[other].sender->0));
            }
        },
        Happening::Polled { lost, failed } => {
            let order = choose|order: Seq<Uuid>|
                {
                    &&& #[trigger] lists_once(order, before.0.sub_channels.dom())
                    &&& Polled { state: after.0, boxes: after.1, failed } == polled_in_order(
                        Polled { state: before.0, boxes: before.1, failed: false },
                        order,
                        lost,
                    )
                };
            assert forall|i: int| 0 <= i < order.len() implies before.0.sub_channels.contains_key(
                #[trigger] order[i],
            ) by {
                assert(order.contains(order[i]));
                assert(before.0.sub_channels.dom().contains(order[i]));
            }
            lemma_poll_keeps_separate(
                Polled { state: before.0, boxes: before.1, failed: false },
                order,
                lost,
            );
        },
        _ => {},
    }
}

/// An IPC sender comes under the given UUID.
pub open spec fn brings(named: IpcSenderAndOrId, id: Uuid) -> bool {
    named matches IpcSenderAndOrId::IpcSender(_, text) && parsed_uuid(text@) == Ok::<
        Uuid,
        Seq<char>,
    >(id)
}

/// Among the IPC senders that a message names, one comes under the given UUID.
pub open spec fn message_brings(what: Happening, id: Uuid) -> bool {
    what matches Happening::Handled { message, .. } && exists|i: int|
        0 <= i < named_in(message).len() && brings(#[trigger] named_in(message)[i], id)
}

/// What an IPC sender that a message names is resolved to: one that comes with
/// a UUID is what it was connected as, and is associated with the UUID unless
/// another one is; one that is named by just a UUID is what is associated with
/// the UUID, or disconnected if nothing is. A text that is no UUID is an error,
/// and associates nothing.
pub proof fn law_naming_resolves(
    senders: Map<Uuid, Connection>,
    named: IpcSenderAndOrId,
    outcomes: Seq<Result<Connection, MuxError>>,
)
    ensures
        ({
            let resolution = resolved(senders, named, outcomes);
            let text = match named {
                IpcSenderAndOrId::IpcSender(_, text) => text@,
                IpcSenderAndOrId::IpcSenderId(text) => text@,
            };
            match parsed_uuid(text) {
                Ok(id) => match named {
                    IpcSenderAndOrId::IpcSender(_, _) => outcomes[0] matches Ok(connection) ==> {
                        &&& resolution.connection == Ok::<Connection, MuxErrorView>(connection)
                        &&& !senders.contains_key(id) ==> resolution.senders == senders.insert(
                            id,
                            connection,
                        )
                        &&& senders.contains_key(id) ==> resolution.senders == senders
                    },
                    IpcSenderAndOrId::IpcSenderId(_) => {
                        &&& resolution.senders == senders
                        &&& resolution.outcomes == outcomes
                        &&& resolution.connection == if senders.contains_key(id) {
                            Ok(senders[id])
                        } else {
                            Err(MuxErrorView::Disconnected)
                        }
                    },
                },
                Err(reason) => {
                    &&& resolution.senders == senders
                    &&& resolution.outcomes == outcomes
                    &&& resolution.connection == Err::<Connection, MuxErrorView>(
                        MuxErrorView::InternalError("invalid UUID: "@ + reason),
                    )
                },
            }
        }),
{
}

proof fn lemma_resolving_associates(
    senders: Map<Uuid, Connection>,
    named: Seq<IpcSenderAndOrId>,
    outcomes: Seq<Result<Connection, MuxError>>,
    id: Uuid,
)
    ensures
        ({
            let after = resolved_all(senders, named, outcomes).senders;
            &&& senders.contains_key(id) ==> after.contains_key(id) && after[id] == senders[id]
            &&& after.contains_key(id) ==> senders.contains_key(id) || exists|i: int|
                0 <= i < named.len() && brings(#[trigger] named[i], id)
        }),
    decreases named.len(),
{
    if named.len() > 0 {
        let earlier = named.drop_last();
        lemma_resolving_associates(senders, earlier, outcomes, id);
        if exists|i: int| 0 <= i < earlier.len() && brings(#[trigger] earlier[i], id) {
            let i = choose|i: int| 0 <= i < earlier.len() && brings(#[trigger] earlier[i], id);
            assert(brings(named[i], id));
        }
        assert(named[named.len() - 1] == named.last());
    }
}

proof fn lemma_polling_associates_nothing(before: Polled, order: Seq<Uuid>, lost: LostChannels)
    ensures
        polled_in_order(before, order, lost).state.senders == before.state.senders,
    decreases order.len(),
{
    if order.len() > 0 {
        lemma_polling_associates_nothing(before, order.drop_last(), lost);
    }
}

proof fn lemma_happening_associates(
    uuid: Uuid,
    before: End,
    what: Happening,
    after: End,
    id: Uuid,
)
    requires
        happens(uuid, before, what, after),
    ensures
        before.0.senders.contains_key(id) ==> after.0.senders.contains_key(id)
            && after.0.senders[id] == before.0.senders[id],
        after.0.senders.contains_key(id) ==> before.0.senders.contains_key(id) || message_brings(
            what,
            id,
        ),
{
    match what {
        Happening::Handled { message: MultiMessage::Data(_, _, senders, _), outcomes, .. } => {
            let named = named_in(what->message);
            assert(named == names_of(senders@));
            lemma_resolving_associates(before.0.senders, named, outcomes, id);
            if after.0.senders.contains_key(id) && !before.0.senders.contains_key(id) {
                let i = choose|i: int| 0 <= i < named.len() && brings(#[trigger] named[i], id);
                assert(brings(named_in(what->message)[i], id));
            }
        },
        Happening::Handled { message: MultiMessage::Sending { via_chan, .. }, outcomes, .. } => {
            let named = named_in(what->message);
            assert(named[0] == via_chan);
            assert(after.0.senders == resolved(before.0.senders, via_chan, outcomes).senders);
        },
        Happening::Polled { lost, failed } => {
            let order = choose|order: Seq<Uuid>|
                {
                    &&& #[trigger] lists_once(order, before.0.sub_channels.dom())
                    &&& Polled { state: after.0, boxes: after.1, failed } == polled_in_order(
                        Polled { state: before.0, boxes: before.1, failed: false },
                        order,
                        lost,
                    )
                };
            lemma_polling_associates_nothing(
                Polled { state: before.0, boxes: before.1, failed: false },
                order,
                lost,
            );
        },
        _ => {},
    }
}

/// An IPC sender that has once been associated with a UUID is what every later
/// naming by that UUID resolves to, without anything being connected anew, and
/// nothing but an IPC sender that comes under a UUID is ever associated with it.
pub proof fn law_associated_sender_is_found_ever_after(
    uuid: Uuid,
    ends: Seq<End>,
    what: Seq<Happening>,
    id: Uuid,
    named: IpcSenderAndOrId,
    outcomes: Seq<Result<Connection, MuxError>>,
)
    requires
        history(uuid, ends, what),
        named matches IpcSenderAndOrId::IpcSenderId(text) && parsed_uuid(text@) == Ok::<
            Uuid,
            Seq<char>,
        >(id),
    ensures
        ({
            let first = ends[0].0.senders;
            let last = ends.last().0.senders;
            let resolution = resolved(last, named, outcomes);
            &&& resolution.senders == last
            &&& resolution.outcomes == outcomes
            &&& to_connect(last.dom(), seq![named]) == Seq::<(ForwardSender, Uuid)>::empty()
            &&& first.contains_key(id) ==> resolution.connection == Ok::<Connection, MuxErrorView>(
                first[id],
            )
            &&& !first.contains_key(id) && (forall|i: int|
                0 <= i < what.len() ==> !message_brings(#[trigger] what[i], id))
                ==> resolution.connection == Err::<Connection, MuxErrorView>(
                MuxErrorView::Disconnected,
            )
        }),
{
    lemma_associations_stay(uuid, ends, what, id);
    reveal_with_fuel(to_connect, 2);
    assert(seq![named].drop_first() =~= Seq::<IpcSenderAndOrId>::empty());
}

proof fn lemma_associations_stay(uuid: Uuid, ends: Seq<End>, what: Seq<Happening>, id: Uuid)
    requires
        history(uuid, ends, what),
    ensures
        ends[0].0.senders.contains_key(id) ==> ends.last().0.senders.contains_key(id)
            && ends.last().0.senders[id] == ends[0].0.senders[id],
        ends.last().0.senders.contains_key(id) ==> ends[0].0.senders.contains_key(id) || exists|
            i: int,
        |
            0 <= i < what.len() && message_brings(#[trigger] what[i], id),
    decreases what.len(),
{
    if what.len() > 0 {
        let earlier = what.drop_last();
        assert forall|i: int| #![trigger earlier[i]] 0 <= i < earlier.len() implies happens(
            uuid,
            ends.drop_last()[i],
            earlier[i],
            ends.drop_last()[i + 1],
        ) by {
            assert(earlier[i] == what[i]);
        }
        lemma_associations_stay(uuid, ends.drop_last(), earlier, id);
        let last = what[what.len() - 1];
        let before = ends[ends.len() - 2];
        assert(ends.drop_last().last() == before);
        lemma_happening_associates(uuid, before, last, ends.last(), id);
        if exists|i: int| 0 <= i < earlier.len() && message_brings(#[trigger] earlier[i], id) {
            let i = choose|i: int|
                0 <= i < earlier.len() && message_brings(#[trigger] earlier[i], id);
            assert(message_brings(what[i], id));
        }
    }
}

/// A client connects with the given sender for responses to it.
pub open spec fn connects(what: Happening, client: ClientId, sender: ResponseSender) -> bool {
    what matches Happening::Handled { message: MultiMessage::Connect(s, c), .. } && s == sender && c
        == client
}

proof fn lemma_polling_keeps_clients(before: Polled, order: Seq<Uuid>, lost: LostChannels)
    ensures
        polled_in_order(before, order, lost).state.clients == before.state.clients,
    decreases order.len(),
{
    if order.len() > 0 {
        lemma_polling_keeps_clients(before, order.drop_last(), lost);
    }
}

proof fn lemma_clients_stay(
    uuid: Uuid,
    before: End,
    what: Happening,
    after: End,
    client: ClientId,
)
    requires
        happens(uuid, before, what, after),
        forall|sender: ResponseSender| !#[trigger] connects(what, client, sender),
    ensures
        after.0.clients.contains_key(client.0) == before.0.clients.contains_key(client.0),
        before.0.clients.contains_key(client.0) ==> after.0.clients[client.0]
            == before.0.clients[client.0],
{
    match what {
        Happening::Handled { message: MultiMessage::Connect(sender, other), .. } => {
            if other.0 == client.0 {
                assert(connects(what, client, sender));
            }
        },
        Happening::Polled { lost, failed } => {
            let order = choose|order: Seq<Uuid>|
                {
                    &&& #[trigger] lists_once(order, before.0.sub_channels.dom())
                    &&& Polled { state: after.0, boxes: after.1, failed } == polled_in_order(
                        Polled { state: before.0, boxes: before.1, failed: false },
                        order,
                        lost,
                    )
                };
            lemma_polling_keeps_clients(
                Polled { state: before.0, boxes: before.1, failed: false },
                order,
                lost,
            );
        },
        _ => {},
    }
}

/// A client that has connected is known ever after, by the sender that it last
/// connected with, whatever else happens. It is told there when the receiver of
/// a subchannel disconnects.
pub proof fn law_connected_client_is_told(
    uuid: Uuid,
    ends: Seq<End>,
    what: Seq<Happening>,
    i: int,
    client: ClientId,
    sender: ResponseSender,
    scid: SubChannelId,
    responses: Seq<(ResponseSender, MultiResponse)>,
)
    requires
        history(uuid, ends, what),
        0 <= i < what.len(),
        connects(what[i], client, sender),
        forall|j: int, other: ResponseSender|
            i < j < what.len() ==> !#[trigger] connects(what[j], client, other),
        clients_told(ends.last().0.clients, scid, responses),
    ensures
        ends.last().0.clients.contains_key(client.0),
        ends.last().0.clients[client.0] == sender,
        exists|k: int|
            0 <= k < responses.len() && #[trigger] responses[k] == (
                sender,
                MultiResponse::SubReceiverDisconnected(scid),
            ),
{
    lemma_connected_client_stays(uuid, ends, what, i, client, sender, what.len() as int);
    let clients = ends.last().0.clients;
    let order = choose|order: Seq<Uuid>|
        {
            &&& #[trigger] lists_once(order, clients.dom())
            &&& responses == order.map_values(
                |client: Uuid| (clients[client], MultiResponse::SubReceiverDisconnected(scid)),
            )
        };
    assert(clients.dom().contains(client.0));
    let k = choose|k: int| 0 <= k < order.len() && order[k] == client.0;
    assert(responses[k] == (sender, MultiResponse::SubReceiverDisconnected(scid)));
}

proof fn lemma_connected_client_stays(
    uuid: Uuid,
    ends: Seq<End>,
    what: Seq<Happening>,
    i: int,
    client: ClientId,
    sender: ResponseSender,
    n: int,
)
    requires
        history(uuid, ends, what),
        0 <= i < n <= what.len(),
        connects(what[i], client, sender),
        forall|j: int, other: ResponseSender|
            i < j < what.len() ==> !#[trigger] connects(what[j], client, other),
    ensures
        ends[n].0.clients.contains_key(client.0),
        ends[n].0.clients[client.0] == sender,
    decreases n,
{
    assert(happens(uuid, ends[n - 1], what[n - 1], ends[n - 1 + 1]));
    if n - 1 > i {
        lemma_connected_client_stays(uuid, ends, what, i, client, sender, n - 1);
        lemma_clients_stay(uuid, ends[n - 1], what[n - 1], ends[n], client);
    }
}

/// When the receiver of a subchannel disconnects, as many responses are sent as
/// there are clients, each to the sender of one of them, no client is told
/// twice, and each response tells of that subchannel.
pub proof fn law_each_client_is_told_once(
    clients: Map<Uuid, ResponseSender>,
    scid: SubChannelId,
    responses: Seq<(ResponseSender, MultiResponse)>,
) -> (told: Seq<Uuid>)
    requires
        clients_told(clients, scid, responses),
    ensures
        told.no_duplicates(),
        told.len() == responses.len(),
        forall|client: Uuid|
            #![trigger clients.contains_key(client)]
            #![trigger told.contains(client)]
            clients.contains_key(client) <==> told.contains(client),
        forall|k: int|
            #![trigger responses[k]]
            0 <= k < responses.len() ==> responses[k].0 == clients[told[k]] && responses[k].1
                == MultiResponse::SubReceiverDisconnected(scid),
{
    let order = choose|order: Seq<Uuid>|
        {
            &&& #[trigger] lists_once(order, clients.dom())
            &&& responses == order.map_values(
                |client: Uuid| (clients[client], MultiResponse::SubReceiverDisconnected(scid)),
            )
        };
    assert forall|client: Uuid|
        #![trigger clients.contains_key(client)]
        #![trigger order.contains(client)]
        clients.contains_key(client) <==> order.contains(client) by {
        assert(clients.dom().contains(client) <==> order.contains(client));
    }
    order
}

} // verus!
