//! What the receiver of a subchannel does with what it finds in its mailbox,
//! and what becomes of what it leaves there.

use crate::mux::demux::{
    releases, Effect, MailboxMap, ProtoSender, ResolvedMessage, ResolvedMessageOrDisconnect,
    SubChannelMailboxes,
};
use crate::mux::error::{mux_error, IpcError, MuxError, MuxErrorView, TryRecvError};
use crate::mux::ipc_handles::{OpaqueIpcReceiver, OpaqueIpcSender};
use crate::mux::laws::lemma_failures_at;
use crate::mux::mailbox::MailboxId;
use crate::mux::protocol::{MultiMessage, SubChannelId, SubChannelSenderIds, EMPTY_SUBCHANNEL_ID};
use crate::mux::receiver::{
    concerns, found_exhausted, found_in, receiver_closed, recv_next, time_left, timed_recv_next,
    try_recv_next, unreceived, DeserializationContext, Local, MultiReceiver, ReceivedSender,
    RecvAction, RecvEvent, SubChannelReceiver, TimedRecv, TryReceiveError, TryRecv,
};
use crate::mux::sender::{
    Outgoing, SourceId, SourceTable, SubChannelDisconnector, SubChannelSender,
};
use ipc_channel::ipc::IpcSharedMemory;
use std::sync::Arc;
use vstd::prelude::*;

verus! {

/// The number of subsenders in messages.
pub open spec fn subsenders_in(messages: Seq<ResolvedMessageOrDisconnect>) -> nat
    decreases messages.len(),
{
    if messages.len() == 0 {
        0
    } else {
        subsenders_in(messages.drop_last()) + match messages.last() {
            ResolvedMessageOrDisconnect::ResolvedMessage(message) => message.senders@.len(),
            ResolvedMessageOrDisconnect::Disconnect(_) => 0,
        }
    }
}

proof fn lemma_unreceived_len(messages: Seq<ResolvedMessageOrDisconnect>)
    ensures
        unreceived(messages).len() == 2 * subsenders_in(messages),
    decreases messages.len(),
{
    if messages.len() > 0 {
        lemma_unreceived_len(messages.drop_last());
        match messages.last() {
            ResolvedMessageOrDisconnect::ResolvedMessage(message) => {
                if message.senders@.len() > 0 {
                    lemma_failures_at(message.senders@, message.scid, 0);
                }
            },
            ResolvedMessageOrDisconnect::Disconnect(_) => {},
        }
    }
}

proof fn lemma_unreceived_at(messages: Seq<ResolvedMessageOrDisconnect>, i: int, k: int)
    requires
        0 <= i < messages.len(),
        messages[i] matches ResolvedMessageOrDisconnect::ResolvedMessage(message) && 0 <= k
            < message.senders@.len(),
    ensures
        ({
            let message = messages[i]->ResolvedMessage_0;
            let proto = message.senders@[k];
            let at = 2 * (subsenders_in(messages.take(i)) + k);
            &&& 0 <= at
            &&& at + 1 < unreceived(messages).len()
            &&& unreceived(messages)[at] == Effect::Send(
                Outgoing {
                    to: proto.connection.ipc_sender,
                    message: MultiMessage::ReceiveFailed { scid: proto.scid, via: message.scid },
                },
            )
            &&& unreceived(messages)[at + 1] == Effect::Release(proto.disconnector)
        }),
    decreases messages.len(),
{
    let earlier = messages.drop_last();
    lemma_unreceived_len(earlier);
    lemma_unreceived_len(messages);
    if i < earlier.len() {
        lemma_unreceived_at(earlier, i, k);
        assert(earlier.take(i) =~= messages.take(i));
    } else {
        assert(messages.take(i) =~= earlier);
        let message = messages[i]->ResolvedMessage_0;
        lemma_failures_at(message.senders@, message.scid, k);
    }
}

/// When a receiver stops receiving, no subsender in a message that it has not
/// received is lost silently: the receiver of its subchannel is told that it
/// will not arrive, and over which subchannel it was sent, and it is let go of.
/// That is done in order, message by message and subsender by subsender.
pub proof fn law_unread_subsenders_are_reported(
    boxes: MailboxMap,
    mailbox: MailboxId,
    effects: Seq<Effect>,
    boxes_after: MailboxMap,
    i: int,
    k: int,
)
    requires
        receiver_closed(boxes, mailbox, effects, boxes_after),
        boxes.contains_key(mailbox),
        0 <= i < boxes[mailbox].messages.len(),
        boxes[mailbox].messages[i] matches ResolvedMessageOrDisconnect::ResolvedMessage(message)
            && 0 <= k < message.senders@.len(),
    ensures
        ({
            let messages = boxes[mailbox].messages;
            let message = messages[i]->ResolvedMessage_0;
            let proto = message.senders@[k];
            let at = 2 * (subsenders_in(messages.take(i)) + k);
            &&& 0 <= at
            &&& at + 1 < effects.len()
            &&& effects[at] == Effect::Send(
                Outgoing {
                    to: proto.connection.ipc_sender,
                    message: MultiMessage::ReceiveFailed { scid: proto.scid, via: message.scid },
                },
            )
            &&& effects[at + 1] == Effect::Release(proto.disconnector)
        }),
{
    lemma_unreceived_at(boxes[mailbox].messages, i, k);
}

/// When a receiver stops receiving, two things are to be done for each subsender
/// in a message that it has not received, and nothing else. Its mailbox takes no
/// more messages, and is gone if nobody sends to it. No other mailbox changes.
pub proof fn law_closing_does_nothing_else(
    boxes: MailboxMap,
    mailbox: MailboxId,
    effects: Seq<Effect>,
    boxes_after: MailboxMap,
)
    requires
        receiver_closed(boxes, mailbox, effects, boxes_after),
    ensures
        boxes.contains_key(mailbox) ==> effects.len() == 2 * subsenders_in(
            boxes[mailbox].messages,
        ),
        !boxes.contains_key(mailbox) ==> effects.len() == 0 && boxes_after == boxes,
        boxes.contains_key(mailbox) && boxes[mailbox].senders > 0 ==> {
            &&& boxes_after.contains_key(mailbox)
            &&& boxes_after[mailbox].messages.len() == 0
            &&& boxes_after[mailbox].senders == boxes[mailbox].senders
            &&& !boxes_after[mailbox].receiving
        },
        boxes.contains_key(mailbox) && boxes[mailbox].senders == 0 ==> !boxes_after.contains_key(
            mailbox,
        ),
        forall|other: MailboxId|
            #![trigger boxes.contains_key(other)]
            #![trigger boxes_after.contains_key(other)]
            other != mailbox ==> {
                &&& boxes_after.contains_key(other) == boxes.contains_key(other)
                &&& boxes.contains_key(other) ==> boxes_after[other] == boxes[other]
            },
{
    lemma_unreceived_len(boxes[mailbox].messages);
}

/// Subsenders that nobody will receive are let go of one by one, each once and
/// in order.
pub proof fn law_each_subsender_is_let_go(protos: Seq<ProtoSender>)
    ensures
        releases(protos).len() == protos.len(),
        forall|i: int|
            #![trigger releases(protos)[i]]
            0 <= i < protos.len() ==> releases(protos)[i] == Effect::Release(
                protos[i].disconnector,
            ),
{
}

/// A receiver finds the first message in its mailbox, which is then gone from
/// it, with all others left in order. It finds nothing only if there is nothing,
/// and a disconnection only if it has been told of it or if nobody sends to the
/// mailbox. Looking changes no other mailbox.
pub proof fn law_receiver_finds_the_first(boxes: MailboxMap, mailbox: MailboxId)
    ensures
        ({
            let (found, after) = found_in(boxes, mailbox);
            let messages = boxes[mailbox].messages;
            let held = boxes.contains_key(mailbox) && messages.len() > 0;
            &&& held ==> {
                &&& messages[0] matches ResolvedMessageOrDisconnect::ResolvedMessage(message)
                    ==> found == Local::Message(message)
                &&& messages[0] is Disconnect ==> found is Disconnected
                &&& after.contains_key(mailbox)
                &&& after[mailbox].messages.len() == messages.len() - 1
                &&& forall|k: int|
                    #![trigger after[mailbox].messages[k]]
                    0 <= k < messages.len() - 1 ==> after[mailbox].messages[k] == messages[k + 1]
                &&& after[mailbox].senders == boxes[mailbox].senders
                &&& after[mailbox].receiving == boxes[mailbox].receiving
                &&& forall|other: MailboxId|
                    #![trigger boxes.contains_key(other)]
                    #![trigger after.contains_key(other)]
                    other != mailbox ==> {
                        &&& after.contains_key(other) == boxes.contains_key(other)
                        &&& boxes.contains_key(other) ==> after[other] == boxes[other]
                    }
            }
            &&& !held ==> {
                &&& after == boxes
                &&& boxes.contains_key(mailbox) && boxes[mailbox].senders > 0 ==> found is Empty
                &&& !(boxes.contains_key(mailbox) && boxes[mailbox].senders > 0)
                    ==> found is Disconnected
            }
        }),
{
}

/// A message that a receive takes out of the mailbox is returned to the caller,
/// whether the receive looked there or waited. No receive returns any other
/// message.
pub proof fn law_receive_returns_what_it_takes(
    own: SubChannelId,
    exhausted: bool,
    remaining: u128,
    message: ResolvedMessage,
)
    ensures
        recv_next(own, RecvEvent::Local(Local::Message(message))) == RecvAction::<
            MuxError,
        >::Return(Ok(message)),
        recv_next(own, RecvEvent::Waited(Local::Message(message))) == RecvAction::<
            MuxError,
        >::Return(Ok(message)),
        try_recv_next(own, exhausted, RecvEvent::Local(Local::Message(message))) == RecvAction::<
            TryRecvError,
        >::Return(Ok(message)),
        timed_recv_next(own, remaining, RecvEvent::Local(Local::Message(message)))
            == RecvAction::<TryRecvError>::Return(Ok(message)),
        timed_recv_next(own, remaining, RecvEvent::Waited(Local::Message(message)))
            == RecvAction::<TryRecvError>::Return(Ok(message)),
        forall|event: RecvEvent| #[trigger]
            recv_next(own, event) == RecvAction::<MuxError>::Return(Ok(message)) ==> event
                == RecvEvent::Local(Local::Message(message)) || event == RecvEvent::Waited(
                Local::Message(message),
            ),
        forall|event: RecvEvent| #[trigger]
            try_recv_next(own, exhausted, event) == RecvAction::<TryRecvError>::Return(Ok(message))
                ==> event == RecvEvent::Local(Local::Message(message)),
        forall|event: RecvEvent| #[trigger]
            timed_recv_next(own, remaining, event) == RecvAction::<TryRecvError>::Return(
                Ok(message),
            ) ==> event == RecvEvent::Local(Local::Message(message)) || event == RecvEvent::Waited(
                Local::Message(message),
            ),
{
}

/// A blocking receive goes on in the same way after it has waited at the mailbox
/// as after it has looked there. A timed receive does so too, except that it
/// looks once more before it finds out how much time is left.
pub proof fn law_waiting_is_like_looking(own: SubChannelId, remaining: u128, found: Local)
    ensures
        recv_next(own, RecvEvent::Waited(found)) == recv_next(own, RecvEvent::Local(found)),
        found !is Empty ==> timed_recv_next(own, remaining, RecvEvent::Waited(found))
            == timed_recv_next(own, remaining, RecvEvent::Local(found)),
        found is Empty ==> timed_recv_next(own, remaining, RecvEvent::Waited(found)) is TryLocal,
{
}

/// A received message was for another subchannel.
pub open spec fn is_foreign(about: Option<SubChannelId>, own: SubChannelId) -> bool {
    exists|scid: SubChannelId| about == Some(scid) && #[trigger] scid.0 != own.0
}

/// A blocking receive fails if the mailbox is disconnected, or if it failed to
/// receive from the IPC channel anything but a message for another subchannel,
/// with the reason for that. Nothing else makes it fail.
pub proof fn law_receive_fails_for_its_own_reasons(own: SubChannelId, event: RecvEvent, e: MuxError)
    ensures
        recv_next(own, event) == RecvAction::<MuxError>::Return(Err(e)) <==> (match event {
            RecvEvent::Local(found) => found is Disconnected && e == MuxError::Disconnected,
            RecvEvent::Waited(found) => found is Disconnected && e == MuxError::Disconnected,
            RecvEvent::Received(about, result) => !is_foreign(about, own) && result == Err::<
                (),
                MuxError,
            >(e),
            RecvEvent::TryReceived(about, result) => !is_foreign(about, own) && result
                == TryReceiveError::MuxError(e),
            _ => false,
        }),
{
    lemma_foreign(event, own);
}

proof fn lemma_foreign(event: RecvEvent, own: SubChannelId)
    ensures
        (match event {
            RecvEvent::Received(about, _) => concerns(about, own)
                == !is_foreign(about, own),
            RecvEvent::TryReceived(about, _) => concerns(about, own)
                == !is_foreign(about, own),
            _ => true,
        }),
{
    match event {
        RecvEvent::Received(Some(scid), _) => {
            assert(scid.0 != own.0 ==> is_foreign(Some(scid), own));
        },
        RecvEvent::TryReceived(Some(scid), _) => {
            assert(scid.0 != own.0 ==> is_foreign(Some(scid), own));
        },
        _ => {},
    }
}

/// A non-blocking receive fails if the mailbox is disconnected, if it failed to
/// receive from the IPC channel anything but a message for another subchannel,
/// or if the mailbox is empty after the IPC channel was. Nothing else makes it
/// fail.
pub proof fn law_try_receive_fails_for_its_own_reasons(
    own: SubChannelId,
    exhausted: bool,
    event: RecvEvent,
    e: TryRecvError,
)
    ensures
        try_recv_next(own, exhausted, event) == RecvAction::<TryRecvError>::Return(Err(e)) <==> (
        match event {
            RecvEvent::Local(found) => {
                ||| found is Disconnected && e == TryRecvError::MuxError(MuxError::Disconnected)
                ||| found is Empty && exhausted && e == TryRecvError::Empty
            },
            RecvEvent::TryReceived(about, result) => match e {
                TryRecvError::MuxError(reason) => !is_foreign(about, own) && result
                    == TryReceiveError::MuxError(reason),
                TryRecvError::Empty => false,
            },
            _ => false,
        }),
{
    lemma_foreign(event, own);
}

/// A timed receive fails if the mailbox is disconnected, if it failed to receive
/// from the IPC channel anything but a message for another subchannel, or if no
/// time is left. Nothing else makes it fail.
pub proof fn law_timed_receive_fails_for_its_own_reasons(
    own: SubChannelId,
    remaining: u128,
    event: RecvEvent,
    e: TryRecvError,
)
    ensures
        timed_recv_next(own, remaining, event) == RecvAction::<TryRecvError>::Return(Err(e)) <==> (
        match event {
            RecvEvent::Local(found) => found is Disconnected && e == TryRecvError::MuxError(
                MuxError::Disconnected,
            ),
            RecvEvent::Waited(found) => found is Disconnected && e == TryRecvError::MuxError(
                MuxError::Disconnected,
            ),
            RecvEvent::Remaining(left) => left == 0 && e == TryRecvError::Empty,
            RecvEvent::Received(about, result) => match e {
                TryRecvError::MuxError(reason) => !is_foreign(about, own) && result == Err::<
                    (),
                    MuxError,
                >(reason),
                TryRecvError::Empty => false,
            },
            _ => false,
        }),
{
    lemma_foreign(event, own);
}

/// A blocking receive that is not over tries to become the one who receives from
/// the IPC channel if the mailbox is empty. If it can, it receives, but polls
/// after a tenth of a second; if not, it waits at the mailbox, but only for a
/// tenth of a millisecond. Whatever it received, it looks in the mailbox next.
pub proof fn law_receive_goes_on(own: SubChannelId, about: Option<SubChannelId>)
    ensures
        recv_next(own, RecvEvent::Local(Local::Empty)) is TryLock,
        recv_next(own, RecvEvent::Locked) == RecvAction::<MuxError>::Receive(100_000),
        recv_next(own, RecvEvent::Contended) == RecvAction::<MuxError>::WaitLocal(100),
        recv_next(own, RecvEvent::Received(about, Ok(()))) is TryLocal,
        forall|result: Result<(), MuxError>|
            is_foreign(about, own) ==> #[trigger] recv_next(
                own,
                RecvEvent::Received(about, result),
            ) is TryLocal,
{
}

/// A non-blocking receive never waits: it looks in the mailbox, tries the IPC
/// channel as long as it may hold something, and looks in the mailbox again.
/// Once the channel has been found to be empty, it is not tried again.
pub proof fn law_try_receive_never_waits(own: SubChannelId, exhausted: bool, event: RecvEvent)
    ensures
        ({
            let action = try_recv_next(own, exhausted, event);
            &&& action is TryLocal || action is TryReceive || action is Return
            &&& action is TryReceive <==> !exhausted && event == RecvEvent::Local(Local::Empty)
            &&& event matches RecvEvent::TryReceived(about, result) ==> (result !is MuxError
                || is_foreign(about, own) ==> action is TryLocal)
        }),
        found_exhausted(exhausted, event) <==> exhausted || (event matches RecvEvent::TryReceived(
            _,
            result,
        ) && result is Empty),
{
    lemma_foreign(event, own);
}

/// No wait of a timed receive is longer than the time that is left, and none is
/// longer than that of a blocking receive, which is what it is if there is time.
/// The time that is left is looked at whenever the mailbox is found to be empty.
pub proof fn law_timed_receive_keeps_its_time(
    own: SubChannelId,
    remaining: u128,
    event: RecvEvent,
    about: Option<SubChannelId>,
    left: u128,
)
    ensures
        ({
            let action = timed_recv_next(own, remaining, event);
            &&& action matches RecvAction::Receive(wait) ==> wait <= remaining && wait <= 100_000
                && (wait == remaining || wait == 100_000)
            &&& action matches RecvAction::WaitLocal(wait) ==> wait <= remaining && wait <= 100 && (
            wait == remaining || wait == 100)
        }),
        timed_recv_next(own, remaining, RecvEvent::Locked) is Receive,
        timed_recv_next(own, remaining, RecvEvent::Contended) is WaitLocal,
        timed_recv_next(own, remaining, RecvEvent::Local(Local::Empty)) is CheckTime,
        left > 0 ==> timed_recv_next(own, remaining, RecvEvent::Remaining(left)) is TryLock,
        timed_recv_next(own, remaining, RecvEvent::Received(about, Ok(()))) is TryLocal,
        forall|result: Result<(), MuxError>|
            is_foreign(about, own) ==> #[trigger] timed_recv_next(
                own,
                remaining,
                RecvEvent::Received(about, result),
            ) is TryLocal,
        time_left(remaining, RecvEvent::Remaining(left)) == left,
        event !is Remaining ==> time_left(remaining, event) == remaining,
{
}

/// The receiver of a subchannel goes on with a receive as the laws here say, for
/// its own subchannel. A receive without waiting and a timed one start with
/// nothing found out and with all the time given.
pub proof fn law_receiver_goes_on(
    receiver: &SubChannelReceiver,
    event: RecvEvent,
    action: RecvAction<MuxError>,
    duration: u128,
    tried: TryRecv,
    timed: TimedRecv,
)
    requires
        call_ensures(SubChannelReceiver::recv, (receiver, event), action),
        call_ensures(SubChannelReceiver::try_recv, (receiver,), tried),
        call_ensures(SubChannelReceiver::try_recv_timeout, (receiver, duration), timed),
    ensures
        action == recv_next(receiver.sub_channel_id, event),
        event matches RecvEvent::Local(Local::Message(message)) ==> action == RecvAction::<
            MuxError,
        >::Return(Ok(message)),
        event matches RecvEvent::Waited(Local::Message(message)) ==> action == RecvAction::<
            MuxError,
        >::Return(Ok(message)),
        tried.sub_channel_id == receiver.sub_channel_id,
        !tried.exhausted,
        timed.sub_channel_id == receiver.sub_channel_id,
        timed.remaining == duration,
{
}

/// A non-blocking receive goes on as the laws here say, and keeps its
/// subchannel.
pub proof fn law_tried_receive_goes_on(
    tried: &mut TryRecv,
    event: RecvEvent,
    action: RecvAction<TryRecvError>,
)
    requires
        call_ensures(TryRecv::next, (tried, event), action),
    ensures
        action == try_recv_next(old(tried).sub_channel_id, old(tried).exhausted, event),
        final(tried).sub_channel_id == old(tried).sub_channel_id,
        final(tried).exhausted == found_exhausted(old(tried).exhausted, event),
        event matches RecvEvent::Local(Local::Message(message)) ==> action == RecvAction::<
            TryRecvError,
        >::Return(Ok(message)),
{
}

/// A non-blocking receive that finds its mailbox empty, then nothing on the IPC
/// channel, and then its mailbox still empty, is over: there is nothing to
/// receive.
pub proof fn law_tried_receive_ends_empty(
    first: &mut TryRecv,
    second: &mut TryRecv,
    third: &mut TryRecv,
    about: Option<SubChannelId>,
    actions: (RecvAction<TryRecvError>, RecvAction<TryRecvError>, RecvAction<TryRecvError>),
)
    requires
        !old(first).exhausted,
        *old(second) == *final(first),
        *old(third) == *final(second),
        call_ensures(TryRecv::next, (first, RecvEvent::Local(Local::Empty)), actions.0),
        call_ensures(
            TryRecv::next,
            (second, RecvEvent::TryReceived(about, TryReceiveError::Empty)),
            actions.1,
        ),
        call_ensures(TryRecv::next, (third, RecvEvent::Local(Local::Empty)), actions.2),
    ensures
        actions.0 is TryReceive,
        actions.1 is TryLocal,
        actions.2 == RecvAction::<TryRecvError>::Return(Err(TryRecvError::Empty)),
{
}

/// A timed receive goes on as the laws here say, and keeps its subchannel.
pub proof fn law_timed_receive_goes_on(
    timed: &mut TimedRecv,
    event: RecvEvent,
    action: RecvAction<TryRecvError>,
)
    requires
        call_ensures(TimedRecv::next, (timed, event), action),
    ensures
        action == timed_recv_next(old(timed).sub_channel_id, old(timed).remaining, event),
        final(timed).sub_channel_id == old(timed).sub_channel_id,
        final(timed).remaining == time_left(old(timed).remaining, event),
        event matches RecvEvent::Local(Local::Message(message)) ==> action == RecvAction::<
            TryRecvError,
        >::Return(Ok(message)),
        event matches RecvEvent::Waited(Local::Message(message)) ==> action == RecvAction::<
            TryRecvError,
        >::Return(Ok(message)),
{
}

/// A timed receive that has found out how much time is left waits no longer than
/// that, whoever receives from the IPC channel.
pub proof fn law_timed_receive_waits_no_longer(
    first: &mut TimedRecv,
    second: &mut TimedRecv,
    left: u128,
    event: RecvEvent,
    actions: (RecvAction<TryRecvError>, RecvAction<TryRecvError>),
)
    requires
        *old(second) == *final(first),
        call_ensures(TimedRecv::next, (first, RecvEvent::Remaining(left)), actions.0),
        call_ensures(TimedRecv::next, (second, event), actions.1),
    ensures
        left == 0 ==> actions.0 == RecvAction::<TryRecvError>::Return(Err(TryRecvError::Empty)),
        left > 0 ==> actions.0 is TryLock,
        event is Locked ==> (actions.1 matches RecvAction::Receive(wait) && wait <= left),
        event is Contended ==> (actions.1 matches RecvAction::WaitLocal(wait) && wait <= left),
{
}

/// A receiver that looks in its mailbox takes what is first there.
pub proof fn law_receiver_looks(
    receiver: &SubChannelReceiver,
    mailboxes: &mut SubChannelMailboxes,
    found: Local,
)
    requires
        call_ensures(SubChannelReceiver::local, (receiver, mailboxes), found),
    ensures
        (found, final(mailboxes)@) == found_in(old(mailboxes)@, receiver.mailbox),
{
}

/// A receiver that is closed leaves its own mailbox.
pub proof fn law_receiver_closes(
    receiver: SubChannelReceiver,
    mailboxes: &mut SubChannelMailboxes,
    effects: Vec<Effect>,
)
    requires
        call_ensures(SubChannelReceiver::close, (receiver, mailboxes), effects),
    ensures
        receiver_closed(old(mailboxes)@, receiver.mailbox, effects@, final(mailboxes)@),
{
}

/// Decoding a message finds its bytes, its subsenders in order, the subchannel
/// that it came over, and all that came beside it, each thing still to be
/// claimed. Subsenders left from an earlier message are let go of.
pub proof fn law_decoding_begins_with_the_message(
    message: ResolvedMessage,
    context: &mut DeserializationContext,
    begun: (Vec<u8>, Vec<Effect>),
)
    requires
        call_ensures(ResolvedMessage::begin_deserialize, (message, context), begun),
    ensures
        begun.0 == message.payload,
        final(context).senders@ == message.senders@,
        final(context).via == message.scid,
        final(context).regions@ == message.attachments.shmems@.map_values(
            |region: IpcSharedMemory| Some(region),
        ),
        final(context).ipc_senders@ == message.attachments.ipc_senders@.map_values(
            |sender: OpaqueIpcSender| Some(sender),
        ),
        final(context).ipc_receivers@ == message.attachments.ipc_receivers@.map_values(
            |receiver: OpaqueIpcReceiver| Some(receiver),
        ),
        begun.1@.len() == old(context).senders@.len(),
        forall|i: int|
            #![trigger begun.1@[i]]
            0 <= i < begun.1@.len() ==> begun.1@[i] == Effect::Release(
                old(context).senders@[i].disconnector,
            ),
{
    assert(final(context).regions@ =~= message.attachments.shmems@.map_values(
        |region: IpcSharedMemory| Some(region),
    ));
    assert(final(context).ipc_senders@ =~= message.attachments.ipc_senders@.map_values(
        |sender: OpaqueIpcSender| Some(sender),
    ));
    assert(final(context).ipc_receivers@ =~= message.attachments.ipc_receivers@.map_values(
        |receiver: OpaqueIpcReceiver| Some(receiver),
    ));
}

/// Once a message has been decoded, each subsender that was not taken from it is
/// let go of, and nothing of it is left for the next message.
pub proof fn law_decoding_ends_with_nothing_left(
    context: &mut DeserializationContext,
    effects: Vec<Effect>,
)
    requires
        call_ensures(ResolvedMessage::end_deserialize, (context,), effects),
    ensures
        effects@.len() == old(context).senders@.len(),
        forall|i: int|
            #![trigger effects@[i]]
            0 <= i < effects@.len() ==> effects@[i] == Effect::Release(
                old(context).senders@[i].disconnector,
            ),
        final(context).senders@.len() == 0,
        final(context).via.0 == EMPTY_SUBCHANNEL_ID,
        final(context).regions@.len() == 0,
        final(context).ipc_senders@.len() == 0,
        final(context).ipc_receivers@.len() == 0,
{
}

/// The subsenders in a message are taken from it one by one, in order. For each,
/// the receiver of its subchannel is told that it has arrived at the receiving
/// end, and over which subchannel.
pub proof fn law_subsenders_are_taken_in_order(
    message: ResolvedMessage,
    first: &mut DeserializationContext,
    second: &mut DeserializationContext,
    begun: (Vec<u8>, Vec<Effect>),
    ids: &SubChannelSenderIds,
    received: Result<(Outgoing, ReceivedSender), MuxError>,
)
    requires
        call_ensures(ResolvedMessage::begin_deserialize, (message, first), begun),
        *old(second) == *final(first),
        call_ensures(SubChannelSender::deserialize, (ids, second), received),
    ensures
        message.senders@.len() > 0 ==> {
            &&& received matches Ok((notification, sender))
            &&& sender.scid == ids.sub_channel_id
            &&& sender.proto == message.senders@[0]
            &&& notification.to == message.senders@[0].connection.ipc_sender
            &&& notification.message == MultiMessage::Received {
                scid: ids.sub_channel_id,
                via: message.scid,
                new_source: message.senders@[0].source,
            }
            &&& final(second).senders@ == message.senders@.skip(1)
            &&& final(second).via == message.scid
        },
        message.senders@.len() == 0 ==> {
            &&& received matches Err(e)
            &&& e@ == MuxErrorView::InternalError("IpcSender missing from message"@)
            &&& final(second).senders@.len() == 0
        },
{
    if message.senders@.len() > 0 {
        assert(message.senders@.skip(1) =~= message.senders@.drop_first());
    }
}

/// Taking a subsender from a message leaves the others in order for the next
/// time.
pub proof fn law_next_subsender_follows(
    first: &mut DeserializationContext,
    second: &mut DeserializationContext,
    ids: (&SubChannelSenderIds, &SubChannelSenderIds),
    received: (
        Result<(Outgoing, ReceivedSender), MuxError>,
        Result<(Outgoing, ReceivedSender), MuxError>,
    ),
)
    requires
        old(first).senders@.len() >= 2,
        call_ensures(SubChannelSender::deserialize, (ids.0, first), received.0),
        *old(second) == *final(first),
        call_ensures(SubChannelSender::deserialize, (ids.1, second), received.1),
    ensures
        received.0 matches Ok((_, sender)) && sender.proto == old(first).senders@[0],
        received.1 matches Ok((_, sender)) && sender.proto == old(first).senders@[1],
        final(second).senders@.len() == old(first).senders@.len() - 2,
{
}

/// A subsender taken from a message can be used once its receiver has been
/// notified: it sends over the connection that it belongs to, under an id of its
/// own that has sent nothing yet. If the receiver could not be notified, the
/// subsender is to be let go of.
pub proof fn law_notified_subsender_can_be_used(
    received: ReceivedSender,
    sent: Result<(), IpcError>,
    sources: &mut SourceTable,
    sender: Result<SubChannelSender, (MuxError, Arc<SubChannelDisconnector>)>,
)
    requires
        call_ensures(ReceivedSender::notified, (received, sent, sources), sender),
    ensures
        sent is Ok ==> {
            &&& sender matches Ok(sender)
            &&& sender.sub_channel_id == received.scid
            &&& sender.ipc_sender == received.proto.connection.ipc_sender
            &&& sender.ipc_sender_uuid == received.proto.connection.uuid
            &&& sender.multi_sender == received.proto.connection.multi_sender
            &&& sender.disconnector == received.proto.disconnector
            &&& !old(sources)@.contains_key(sender.sender_id)
            &&& final(sources)@.contains_key(sender.sender_id)
            &&& final(sources)@[sender.sender_id].len() == 0
            &&& forall|other: SourceId|
                #![trigger old(sources)@.contains_key(other)]
                old(sources)@.contains_key(other) ==> final(sources)@.contains_key(other)
                    && final(sources)@[other] == old(sources)@[other]
        },
        sent matches Err(e) ==> {
            &&& sender matches Err((error, disconnector))
            &&& error == mux_error(e)
            &&& disconnector == received.proto.disconnector
            &&& final(sources)@ == old(sources)@
        },
{
}

/// There may be more to receive without waiting only after something was
/// received and handled.
pub proof fn law_draining_goes_on_after_a_message(received: &TryReceiveError, again: bool)
    requires
        call_ensures(MultiReceiver::drain_again, (received,), again),
    ensures
        again <==> *received is Handled,
{
}

/// A one-shot server takes the announced subchannel and the name from the first
/// message, and nothing else for it.
pub proof fn law_server_takes_an_announcement(
    received: Result<MultiMessage, IpcError>,
    described: String,
    announced: Result<(SubChannelId, String), MuxError>,
)
    requires
        call_ensures(MultiReceiver::receive_sub_channel, (received, described), announced),
    ensures
        announced matches Ok((scid, name)) ==> received == Ok::<MultiMessage, IpcError>(
            MultiMessage::SubChannelId(scid, name),
        ),
        received matches Ok(message) ==> (message is SubChannelId <==> announced is Ok),
        received matches Err(e) ==> announced == Err::<(SubChannelId, String), MuxError>(
            mux_error(e),
        ),
        received matches Ok(message) && message !is SubChannelId ==> (announced matches Err(e)
            && e@ == MuxErrorView::InternalError("unexpected multi message "@ + described@)),
{
}

} // verus!
