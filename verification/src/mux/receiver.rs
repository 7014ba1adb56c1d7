//! The receiving side of multiplexing channels.

use crate::mux::captures::{unclaimed, Arrived};
use crate::mux::demux::{
    fail_all, failures, lists_once, message_handled, polled_in_order, receivable, release_all,
    releases, Connection, Demuxer, DemuxerView, Effect, Handled, LostChannels, MailboxMap, Polled,
    ProtoSender, ResolvedMessage, ResolvedMessageOrDisconnect, SubChannelMailboxes,
};
use crate::mux::error::{mux_error, IpcError, MuxError, MuxErrorView, TryRecvError};
use crate::mux::ipc_handles::{
    clear_ipc_receiver_deserialization_context, clear_ipc_sender_deserialization_context,
    set_ipc_receivers_for_recv, set_ipc_senders_for_recv, ArrivedReceivers, ArrivedSenders,
    OpaqueIpcReceiver, OpaqueIpcSender,
};
use crate::mux::mailbox::{left_by_receiver, MailboxError, MailboxId, MailboxView};
use crate::mux::protocol::{MultiMessage, SubChannelId, SubChannelSenderIds, EMPTY_SUBCHANNEL_ID, ORIGIN};
use crate::mux::demux::left_by_former;
use crate::mux::sender::{Outgoing, SourceTable, SubChannelDisconnector, SubChannelSender};
use crate::mux::shared_memory::{
    clear_shmem_deserialization_context, set_shmems_for_recv, ArrivedRegions,
};
use crate::mux::subchannel_lifecycle::SubSenderView;
use crate::mux::text::join;
use crate::mux::uuids::Uuid;
use ipc_channel::ipc::IpcSharedMemory;
use std::collections::VecDeque;
use std::sync::Arc;
use vstd::prelude::*;
use vstd::string::*;

verus! {

/// How long to wait for a message from the IPC channel before polling, in
/// microseconds.
pub const POLLING_INTERVAL: u128 = 100_000;

/// How long to wait for a message sorted by somebody else, in microseconds.
pub const CONTENDED_WAIT_INTERVAL: u128 = 100;

/// What came beside a message that is being decoded.
pub struct DeserializationContext {
    pub senders: VecDeque<ProtoSender>,
    pub via: SubChannelId,
    pub regions: ArrivedRegions,
    pub ipc_senders: ArrivedSenders,
    pub ipc_receivers: ArrivedReceivers,
}

impl DeserializationContext {
    /// Nothing is kept.
    pub open spec fn is_clear(&self) -> bool {
        &&& self.senders@.len() == 0
        &&& self.via.0 == EMPTY_SUBCHANNEL_ID
        &&& self.regions@.len() == 0
        &&& self.ipc_senders@.len() == 0
        &&& self.ipc_receivers@.len() == 0
    }

    pub fn new() -> (context: DeserializationContext)
        ensures
            context.is_clear(),
    {
        DeserializationContext {
            senders: VecDeque::new(),
            via: SubChannelId(EMPTY_SUBCHANNEL_ID),
            regions: Arrived::new(),
            ipc_senders: Arrived::new(),
            ipc_receivers: Arrived::new(),
        }
    }
}

/// Sets the subsenders that came in a message and the subchannel that the
/// message came over. Any left from an earlier message are let go of.
pub fn establish_deserialization_context(
    context: &mut DeserializationContext,
    senders: VecDeque<ProtoSender>,
    via: SubChannelId,
) -> (effects: Vec<Effect>)
    ensures
        effects@ == releases(old(context).senders@),
        final(context).senders@ == senders@,
        final(context).via == via,
        final(context).regions == old(context).regions,
        final(context).ipc_senders == old(context).ipc_senders,
        final(context).ipc_receivers == old(context).ipc_receivers,
{
    let mut former = senders;
    std::mem::swap(&mut former, &mut context.senders);
    context.via = via;
    release_all(former)
}

/// Forgets the subsenders that came in a message. Those that have not been
/// received are let go of.
pub fn clear_deserialization_context(context: &mut DeserializationContext) -> (effects: Vec<Effect>)
    ensures
        effects@ == releases(old(context).senders@),
        final(context).senders@ == Seq::<ProtoSender>::empty(),
        final(context).via.0 == EMPTY_SUBCHANNEL_ID,
        final(context).regions == old(context).regions,
        final(context).ipc_senders == old(context).ipc_senders,
        final(context).ipc_receivers == old(context).ipc_receivers,
{
    context.via = SubChannelId(EMPTY_SUBCHANNEL_ID);
    let mut former: VecDeque<ProtoSender> = VecDeque::new();
    std::mem::swap(&mut former, &mut context.senders);
    release_all(former)
}

impl ResolvedMessage {
    /// The parts of the message.
    pub fn into_parts(self) -> (parts: (
        SubChannelId,
        Vec<u8>,
        VecDeque<ProtoSender>,
        Vec<IpcSharedMemory>,
        Vec<OpaqueIpcSender>,
        Vec<OpaqueIpcReceiver>,
    ))
        ensures
            parts.0 == self.scid,
            parts.1 == self.payload,
            parts.2 == self.senders,
            parts.3 == self.attachments.shmems,
            parts.4 == self.attachments.ipc_senders,
            parts.5 == self.attachments.ipc_receivers,
    {
        (
            self.scid,
            self.payload,
            self.senders,
            self.attachments.shmems,
            self.attachments.ipc_senders,
            self.attachments.ipc_receivers,
        )
    }

    /// Gets ready to decode the message, whose bytes are returned. Any
    /// subsenders left from an earlier message are let go of.
    pub fn begin_deserialize(self, context: &mut DeserializationContext) -> (begun: (
        Vec<u8>,
        Vec<Effect>,
    ))
        ensures
            begun.0 == self.payload,
            begun.1@ == releases(old(context).senders@),
            final(context).senders@ == self.senders@,
            final(context).via == self.scid,
            final(context).regions@ == unclaimed(self.attachments.shmems@),
            final(context).ipc_senders@ == unclaimed(self.attachments.ipc_senders@),
            final(context).ipc_receivers@ == unclaimed(self.attachments.ipc_receivers@),
    {
        let (scid, payload, senders, shmems, ipc_senders, ipc_receivers) = self.into_parts();
        let effects = establish_deserialization_context(context, senders, scid);
        set_shmems_for_recv(&mut context.regions, shmems);
        set_ipc_senders_for_recv(&mut context.ipc_senders, ipc_senders);
        set_ipc_receivers_for_recv(&mut context.ipc_receivers, ipc_receivers);
        (payload, effects)
    }

    /// Cleans up after a message has been decoded or has failed to be: what
    /// came beside it and was not used is let go of.
    pub fn end_deserialize(context: &mut DeserializationContext) -> (effects: Vec<Effect>)
        ensures
            effects@ == releases(old(context).senders@),
            final(context).is_clear(),
    {
        let effects = clear_deserialization_context(context);
        clear_shmem_deserialization_context(&mut context.regions);
        clear_ipc_sender_deserialization_context(&mut context.ipc_senders);
        clear_ipc_receiver_deserialization_context(&mut context.ipc_receivers);
        effects
    }
}

/// A subsender that has been taken from a message.
pub struct ReceivedSender {
    pub scid: SubChannelId,
    pub proto: ProtoSender,
}

impl SubChannelSender {
    /// Takes the next subsender from the message that is being decoded. It can
    /// be used once its receiver has been notified by the returned message.
    pub fn deserialize(ids: &SubChannelSenderIds, context: &mut DeserializationContext) -> (received:
        Result<(Outgoing, ReceivedSender), MuxError>)
        ensures
            final(context).via == old(context).via,
            final(context).regions == old(context).regions,
            final(context).ipc_senders == old(context).ipc_senders,
            final(context).ipc_receivers == old(context).ipc_receivers,
            (match received {
                Ok((notification, received)) => {
                    &&& old(context).senders@.len() > 0
                    &&& final(context).senders@ == old(context).senders@.drop_first()
                    &&& received.scid == ids.sub_channel_id
                    &&& received.proto == old(context).senders@[0]
                    &&& notification == Outgoing {
                        to: received.proto.connection.ipc_sender,
                        message: MultiMessage::Received {
                            scid: ids.sub_channel_id,
                            via: old(context).via,
                            new_source: received.proto.source,
                        },
                    }
                },
                Err(e) => {
                    &&& old(context).senders@.len() == 0
                    &&& final(context).senders@ == old(context).senders@
                    &&& e@ == MuxErrorView::InternalError("IpcSender missing from message"@)
                },
            }),
    {
        match context.senders.pop_front() {
            Some(proto) => {
                assert(context.senders@ =~= old(context).senders@.drop_first());
                let notification = Outgoing {
                    to: Arc::clone(&proto.connection.ipc_sender),
                    message: MultiMessage::Received {
                        scid: ids.sub_channel_id(),
                        via: context.via,
                        new_source: proto.source,
                    },
                };
                Ok((notification, ReceivedSender { scid: ids.sub_channel_id(), proto }))
            },
            None => Err(
                MuxError::InternalError(String::from_str("IpcSender missing from message")),
            ),
        }
    }
}

impl ReceivedSender {
    /// The subsender, once its receiver has been notified. If that failed, the
    /// subsender is to be let go of.
    pub fn notified(self, sent: Result<(), IpcError>, sources: &mut SourceTable) -> (sender: Result<
        SubChannelSender,
        (MuxError, Arc<SubChannelDisconnector>),
    >)
        requires
            old(sources).wf(),
            !old(sources).exhausted(),
        ensures
            final(sources).wf(),
            (match sender {
                Ok(sender) => {
                    &&& sent is Ok
                    &&& !old(sources)@.contains_key(sender.sender_id)
                    &&& final(sources)@ == old(sources)@.insert(sender.sender_id, Set::empty())
                    &&& sender == SubChannelSender {
                        sub_channel_id: self.scid,
                        ipc_sender: self.proto.connection.ipc_sender,
                        disconnector: self.proto.disconnector,
                        ipc_sender_uuid: self.proto.connection.uuid,
                        sender_id: sender.sender_id,
                        multi_sender: self.proto.connection.multi_sender,
                    }
                },
                Err((e, disconnector)) => {
                    &&& sent is Err
                    &&& e == mux_error(sent->Err_0)
                    &&& disconnector == self.proto.disconnector
                    &&& final(sources)@ == old(sources)@
                },
            }),
    {
        match sent {
            Ok(()) => Ok(
                SubChannelSender::from_deserialized(
                    self.scid,
                    self.proto.connection.ipc_sender,
                    self.proto.disconnector,
                    self.proto.connection.uuid,
                    self.proto.connection.multi_sender,
                    sources,
                ),
            ),
            Err(e) => Err((MuxError::from(e), self.proto.disconnector)),
        }
    }
}

/// What came of a receive from an IPC channel.
pub enum ReceiveEvent {
    /// A message, with the outcomes of connecting the IPC senders in it.
    Message(MultiMessage, VecDeque<Result<Connection, MuxError>>),
    /// No message yet.
    Empty,
    /// A failure of the channel.
    IpcError(IpcError),
}

impl ReceiveEvent {
    /// The subchannel that a received message is for, if it is for one.
    pub fn about(&self) -> (about: Option<SubChannelId>)
        ensures
            about == (match *self {
                ReceiveEvent::Message(MultiMessage::Data(scid, _, _, _), _) => Some(scid),
                _ => None::<SubChannelId>,
            }),
    {
        match self {
            ReceiveEvent::Message(MultiMessage::Data(scid, _, _, _), _) => Some(*scid),
            _ => None,
        }
    }
}

/// Why a non-blocking receive from an IPC channel gave nothing to its caller.
#[derive(Debug)]
pub enum TryReceiveError {
    MuxError(MuxError),
    Empty,
    /// A message was received and handled.
    Handled,
}

impl TryReceiveError {
    /// The text shown in logs.
    pub fn to_string(&self) -> (text: String)
        ensures
            text@ == (match *self {
                TryReceiveError::MuxError(e) => "TryRecvError::MuxError("@ + e@.text() + ")"@,
                TryReceiveError::Empty => "TryRecvError::Empty"@,
                TryReceiveError::Handled => "TryRecvError::Handled"@,
            }),
    {
        match self {
            TryReceiveError::MuxError(e) => {
                let inner = e.to_string();
                let text = join("TryRecvError::MuxError(", inner.as_str());
                join(text.as_str(), ")")
            },
            TryReceiveError::Empty => String::from_str("TryRecvError::Empty"),
            TryReceiveError::Handled => String::from_str("TryRecvError::Handled"),
        }
    }
}

/// The receiving end of a multiplexed channel.
pub struct MultiReceiver {
    ipc_receiver_uuid: Uuid,
    demuxer: Demuxer,
}

/// The mathematical counterpart of [`MultiReceiver`].
#[verifier::ext_equal]
pub struct MultiReceiverView {
    pub uuid: Uuid,
    pub demuxer: DemuxerView,
}

impl View for MultiReceiver {
    type V = MultiReceiverView;

    closed spec fn view(&self) -> MultiReceiverView {
        MultiReceiverView { uuid: self.ipc_receiver_uuid, demuxer: self.demuxer@ }
    }
}

/// What was received, if anything, can be handled.
pub open spec fn event_receivable(state: DemuxerView, event: ReceiveEvent) -> bool {
    match event {
        ReceiveEvent::Message(message, outcomes) => receivable(state, message, outcomes@),
        _ => true,
    }
}

/// What came of a non-blocking receive has been handled.
pub open spec fn try_received(
    before: MultiReceiverView,
    boxes: MailboxMap,
    event: ReceiveEvent,
    outcome: (TryReceiveError, Vec<Effect>),
    after: MultiReceiverView,
    boxes_after: MailboxMap,
) -> bool {
    match event {
        ReceiveEvent::Message(message, outcomes) => exists|handled: Handled|
            {
                &&& #[trigger] receiver_handled(
                    before,
                    boxes,
                    message,
                    outcomes@,
                    handled,
                    after,
                    boxes_after,
                )
                &&& outcome.0 == match handled.result {
                    Ok(()) => TryReceiveError::Handled,
                    Err(e) => TryReceiveError::MuxError(e),
                }
                &&& outcome.1 == handled.effects
            },
        ReceiveEvent::Empty => {
            &&& outcome.0 == TryReceiveError::Empty
            &&& outcome.1@ == Seq::<Effect>::empty()
            &&& after == before
            &&& boxes_after == boxes
        },
        ReceiveEvent::IpcError(e) => {
            &&& outcome.0 == TryReceiveError::MuxError(mux_error(e))
            &&& outcome.1@ == Seq::<Effect>::empty()
            &&& after == before
            &&& boxes_after == boxes
        },
    }
}

/// What came of a receive that waited for some time has been handled.
pub open spec fn timed_received(
    before: MultiReceiverView,
    boxes: MailboxMap,
    event: ReceiveEvent,
    lost: LostChannels,
    outcome: Handled,
    after: MultiReceiverView,
    boxes_after: MailboxMap,
) -> bool {
    match event {
        ReceiveEvent::Message(message, outcomes) => receiver_handled(
            before,
            boxes,
            message,
            outcomes@,
            outcome,
            after,
            boxes_after,
        ),
        ReceiveEvent::Empty => {
            &&& outcome.result is Ok
            &&& outcome.effects@ == Seq::<Effect>::empty()
            &&& exists|failed: bool| #[trigger]
                receiver_polled(before, boxes, lost, failed, after, boxes_after)
        },
        ReceiveEvent::IpcError(e) => {
            &&& outcome.result == Err::<(), MuxError>(mux_error(e))
            &&& outcome.effects@ == Seq::<Effect>::empty()
            &&& after == before
            &&& boxes_after == boxes
        },
    }
}

/// The receiver has handled a message.
pub open spec fn receiver_handled(
    before: MultiReceiverView,
    boxes: MailboxMap,
    message: MultiMessage,
    outcomes: Seq<Result<Connection, MuxError>>,
    outcome: Handled,
    after: MultiReceiverView,
    boxes_after: MailboxMap,
) -> bool {
    &&& after.uuid == before.uuid
    &&& message_handled(
        before.demuxer,
        boxes,
        message,
        before.uuid,
        outcomes,
        outcome,
        after.demuxer,
        boxes_after,
    )
}

/// The receiver has polled the senders of all its subchannels.
pub open spec fn receiver_polled(
    before: MultiReceiverView,
    boxes: MailboxMap,
    lost: LostChannels,
    failed: bool,
    after: MultiReceiverView,
    boxes_after: MailboxMap,
) -> bool {
    &&& after.uuid == before.uuid
    &&& exists|order: Seq<Uuid>|
        {
            &&& #[trigger] lists_once(order, before.demuxer.sub_channels.dom())
            &&& Polled { state: after.demuxer, boxes: boxes_after, failed } == polled_in_order(
                Polled { state: before.demuxer, boxes, failed: false },
                order,
                lost,
            )
        }
}

/// A subchannel has got a mailbox of its own.
pub open spec fn sub_channel_attached(
    before: DemuxerView,
    boxes: MailboxMap,
    scid: SubChannelId,
    mailbox: MailboxId,
    after: DemuxerView,
    boxes_after: MailboxMap,
) -> bool {
    &&& !boxes.contains_key(mailbox)
    &&& after == before.with_sub_channel(scid, SubSenderView::initial(mailbox, ORIGIN))
    &&& boxes_after == left_by_former(before, scid, boxes.insert(mailbox, MailboxView::opened()))
}

impl MultiReceiver {
    pub fn new(ipc_receiver_uuid: Uuid, demuxer: Demuxer) -> (receiver: MultiReceiver)
        ensures
            receiver@ == (MultiReceiverView { uuid: ipc_receiver_uuid, demuxer: demuxer@ }),
    {
        MultiReceiver { ipc_receiver_uuid, demuxer }
    }

    /// The demuxer.
    pub fn demuxer(&self) -> (demuxer: &Demuxer)
        ensures
            demuxer@ == self@.demuxer,
    {
        &self.demuxer
    }

    /// Handles a message that has arrived.
    pub fn handle_initial_message(
        &mut self,
        message: MultiMessage,
        outcomes: VecDeque<Result<Connection, MuxError>>,
        mailboxes: &mut SubChannelMailboxes,
    ) -> (outcome: Handled)
        requires
            old(mailboxes).wf(),
            receivable(old(self)@.demuxer, message, outcomes@),
        ensures
            final(mailboxes).wf(),
            final(mailboxes).exhausted() == old(mailboxes).exhausted(),
            receiver_handled(
                old(self)@,
                old(mailboxes)@,
                message,
                outcomes@,
                outcome,
                final(self)@,
                final(mailboxes)@,
            ),
    {
        let uuid: Uuid = self.ipc_receiver_uuid;
        self.demuxer.handle(message, uuid, outcomes, mailboxes)
    }

    /// Starts receiving the messages of a subchannel.
    pub fn attach(&mut self, sub_channel_id: SubChannelId, mailboxes: &mut SubChannelMailboxes) -> (receiver:
        SubChannelReceiver)
        requires
            old(mailboxes).wf(),
            !old(mailboxes).exhausted(),
        ensures
            final(mailboxes).wf(),
            receiver.sub_channel_id == sub_channel_id,
            final(self)@.uuid == old(self)@.uuid,
            sub_channel_attached(
                old(self)@.demuxer,
                old(mailboxes)@,
                sub_channel_id,
                receiver.mailbox,
                final(self)@.demuxer,
                final(mailboxes)@,
            ),
    {
        let mailbox: MailboxId = mailboxes.open();
        self.demuxer.insert_state_machine(sub_channel_id, mailbox, mailboxes);
        SubChannelReceiver { sub_channel_id, mailbox }
    }

    /// Handles what came of a non-blocking receive from the IPC channel.
    pub fn try_recv(&mut self, event: ReceiveEvent, mailboxes: &mut SubChannelMailboxes) -> (outcome: (
        TryReceiveError,
        Vec<Effect>,
    ))
        requires
            old(mailboxes).wf(),
            event_receivable(old(self)@.demuxer, event),
        ensures
            final(mailboxes).wf(),
            final(mailboxes).exhausted() == old(mailboxes).exhausted(),
            try_received(
                old(self)@,
                old(mailboxes)@,
                event,
                outcome,
                final(self)@,
                final(mailboxes)@,
            ),
    {
        match event {
            ReceiveEvent::Message(message, outcomes) => {
                let handled: Handled = self.handle_initial_message(message, outcomes, mailboxes);
                let ghost h = handled;
                let error = match handled.result {
                    Ok(()) => TryReceiveError::Handled,
                    Err(e) => TryReceiveError::MuxError(e),
                };
                assert(receiver_handled(
                    old(self)@,
                    old(mailboxes)@,
                    message,
                    outcomes@,
                    h,
                    self@,
                    mailboxes@,
                ));
                (error, handled.effects)
            },
            ReceiveEvent::Empty => (TryReceiveError::Empty, Vec::new()),
            ReceiveEvent::IpcError(e) => (TryReceiveError::MuxError(MuxError::from(e)), Vec::new()),
        }
    }

    /// Handles what came of a receive from the IPC channel that waited for some
    /// time. If nothing was received, the senders of all subchannels are
    /// polled, given the channels that have been found to be gone.
    pub fn try_recv_timeout(
        &mut self,
        event: ReceiveEvent,
        lost: &LostChannels,
        mailboxes: &mut SubChannelMailboxes,
    ) -> (outcome: Handled)
        requires
            old(mailboxes).wf(),
            event_receivable(old(self)@.demuxer, event),
        ensures
            final(mailboxes).wf(),
            final(mailboxes).exhausted() == old(mailboxes).exhausted(),
            timed_received(
                old(self)@,
                old(mailboxes)@,
                event,
                *lost,
                outcome,
                final(self)@,
                final(mailboxes)@,
            ),
    {
        match event {
            ReceiveEvent::Message(message, outcomes) => self.handle_initial_message(
                message,
                outcomes,
                mailboxes,
            ),
            ReceiveEvent::Empty => {
                let failed: bool = self.poll(lost, mailboxes);
                assert(receiver_polled(
                    old(self)@,
                    old(mailboxes)@,
                    *lost,
                    failed,
                    self@,
                    mailboxes@,
                ));
                Handled { result: Ok(()), effects: Vec::new() }
            },
            ReceiveEvent::IpcError(e) => Handled {
                result: Err(MuxError::from(e)),
                effects: Vec::new(),
            },
        }
    }

    /// Whether what was received, if anything, can be handled.
    pub fn can_receive(&self, event: &ReceiveEvent) -> (can: bool)
        ensures
            can == event_receivable(self@.demuxer, *event),
    {
        match event {
            ReceiveEvent::Message(message, outcomes) => self.demuxer.can_handle(message, outcomes),
            _ => true,
        }
    }

    /// Handles what came of a non-blocking receive as
    /// [`MultiReceiver::try_recv`] does, or returns `None` if it cannot be
    /// handled.
    pub fn checked_try_recv(&mut self, event: ReceiveEvent, mailboxes: &mut SubChannelMailboxes) -> (outcome:
        Option<(TryReceiveError, Vec<Effect>)>)
        requires
            old(mailboxes).wf(),
        ensures
            final(mailboxes).wf(),
            final(mailboxes).exhausted() == old(mailboxes).exhausted(),
            (match outcome {
                Some(outcome) => {
                    &&& event_receivable(old(self)@.demuxer, event)
                    &&& try_received(
                        old(self)@,
                        old(mailboxes)@,
                        event,
                        outcome,
                        final(self)@,
                        final(mailboxes)@,
                    )
                },
                None => {
                    &&& !event_receivable(old(self)@.demuxer, event)
                    &&& final(self)@ == old(self)@
                    &&& final(mailboxes)@ == old(mailboxes)@
                },
            }),
    {
        if self.can_receive(&event) {
            Some(self.try_recv(event, mailboxes))
        } else {
            None
        }
    }

    /// Handles what came of a receive that waited for some time as
    /// [`MultiReceiver::try_recv_timeout`] does, or returns `None` if it cannot
    /// be handled.
    pub fn checked_try_recv_timeout(
        &mut self,
        event: ReceiveEvent,
        lost: &LostChannels,
        mailboxes: &mut SubChannelMailboxes,
    ) -> (outcome: Option<Handled>)
        requires
            old(mailboxes).wf(),
        ensures
            final(mailboxes).wf(),
            final(mailboxes).exhausted() == old(mailboxes).exhausted(),
            (match outcome {
                Some(outcome) => {
                    &&& event_receivable(old(self)@.demuxer, event)
                    &&& timed_received(
                        old(self)@,
                        old(mailboxes)@,
                        event,
                        *lost,
                        outcome,
                        final(self)@,
                        final(mailboxes)@,
                    )
                },
                None => {
                    &&& !event_receivable(old(self)@.demuxer, event)
                    &&& final(self)@ == old(self)@
                    &&& final(mailboxes)@ == old(mailboxes)@
                },
            }),
    {
        if self.can_receive(&event) {
            Some(self.try_recv_timeout(event, lost, mailboxes))
        } else {
            None
        }
    }

    /// Whether there may be more to receive without waiting.
    pub fn drain_again(received: &TryReceiveError) -> (again: bool)
        ensures
            again == (*received is Handled),
    {
        match received {
            TryReceiveError::Handled => true,
            _ => false,
        }
    }

    /// The subchannel that a one-shot server is told of by the first message
    /// after the connection, and the name of the server. The description of the
    /// message is used if it is another one.
    pub fn receive_sub_channel(received: Result<MultiMessage, IpcError>, described: String) -> (announced:
        Result<(SubChannelId, String), MuxError>)
        ensures
            (match received {
                Ok(MultiMessage::SubChannelId(scid, name)) => announced == Ok::<
                    (SubChannelId, String),
                    MuxError,
                >((scid, name)),
                Ok(_) => {
                    &&& announced is Err
                    &&& announced->Err_0@ == MuxErrorView::InternalError(
                        "unexpected multi message "@ + described@,
                    )
                },
                Err(e) => announced == Err::<(SubChannelId, String), MuxError>(mux_error(e)),
            }),
    {
        match received {
            Ok(MultiMessage::SubChannelId(scid, name)) => Ok((scid, name)),
            Ok(_) => Err(
                MuxError::InternalError(join("unexpected multi message ", described.as_str())),
            ),
            Err(e) => Err(MuxError::from(e)),
        }
    }

    /// Polls the senders of all subchannels, given the channels that have been
    /// found to be gone.
    ///
    /// Returns whether a probe failed.
    pub fn poll(&mut self, lost: &LostChannels, mailboxes: &mut SubChannelMailboxes) -> (failed: bool)
        requires
            old(mailboxes).wf(),
        ensures
            final(mailboxes).wf(),
            final(mailboxes).exhausted() == old(mailboxes).exhausted(),
            receiver_polled(
                old(self)@,
                old(mailboxes)@,
                *lost,
                failed,
                final(self)@,
                final(mailboxes)@,
            ),
    {
        self.demuxer.poll_all_subchannels(lost, mailboxes)
    }
}

/// The receiving end of a subchannel.
pub struct SubChannelReceiver {
    pub sub_channel_id: SubChannelId,
    pub mailbox: MailboxId,
}

/// What the receiver of a subchannel finds in its mailbox.
#[derive(Debug)]
pub enum Local {
    /// A message.
    Message(ResolvedMessage),
    /// Nothing yet.
    Empty,
    /// All senders are gone.
    Disconnected,
}

/// What becomes of the messages that nobody will receive any more.
pub open spec fn unreceived(messages: Seq<ResolvedMessageOrDisconnect>) -> Seq<Effect>
    decreases messages.len(),
{
    if messages.len() == 0 {
        Seq::empty()
    } else {
        unreceived(messages.drop_last()) + match messages.last() {
            ResolvedMessageOrDisconnect::ResolvedMessage(message) => failures(
                message.senders@,
                message.scid,
            ),
            ResolvedMessageOrDisconnect::Disconnect(_) => Seq::empty(),
        }
    }
}

/// A receiver has stopped receiving from its mailbox.
pub open spec fn receiver_closed(
    boxes: MailboxMap,
    mailbox: MailboxId,
    effects: Seq<Effect>,
    boxes_after: MailboxMap,
) -> bool {
    &&& boxes_after == left_by_receiver(boxes, mailbox)
    &&& effects == if boxes.contains_key(mailbox) {
        unreceived(boxes[mailbox].messages)
    } else {
        Seq::empty()
    }
}

/// What to do next in order to receive a message of a subchannel.
#[derive(Debug)]
pub enum RecvAction<E> {
    /// Look in the mailbox.
    TryLocal,
    /// Wait at the mailbox for up to the given time.
    WaitLocal(u128),
    /// Find out how much time is left.
    CheckTime,
    /// Try to become the one who receives from the IPC channel.
    TryLock,
    /// Receive from the IPC channel, waiting for up to the given time.
    Receive(u128),
    /// Receive from the IPC channel without waiting.
    TryReceive,
    /// Return to the caller.
    Return(Result<ResolvedMessage, E>),
}

/// What came of the last action.
#[derive(Debug)]
pub enum RecvEvent {
    /// What was found in the mailbox.
    Local(Local),
    /// What was found in the mailbox after waiting.
    Waited(Local),
    /// How much time is left.
    Remaining(u128),
    /// Nobody else receives from the IPC channel.
    Locked,
    /// Somebody else receives from the IPC channel.
    Contended,
    /// What came of receiving from the IPC channel, and the subchannel that the
    /// received message was for, if it was for one.
    Received(Option<SubChannelId>, Result<(), MuxError>),
    /// What came of receiving from the IPC channel without waiting, and the
    /// subchannel that the received message was for, if it was for one.
    TryReceived(Option<SubChannelId>, TryReceiveError),
}

/// A failure to receive concerns the receiver of the given subchannel. It does
/// not if the received message was for another subchannel.
pub open spec fn concerns(about: Option<SubChannelId>, own: SubChannelId) -> bool {
    about matches Some(scid) ==> scid == own
}

pub(crate) fn is_concerned(about: Option<SubChannelId>, own: SubChannelId) -> (concerned: bool)
    ensures
        concerned == concerns(about, own),
{
    match about {
        Some(scid) => scid == own,
        None => true,
    }
}

/// How a blocking receive goes on.
///
/// A message that is already in the mailbox is returned. Otherwise whoever can
/// receive from the IPC channel does so, which may sort a message into the
/// mailbox of anybody, and the others wait at their mailboxes. A message for
/// another subchannel that could not be sorted is no reason to stop.
pub open spec fn recv_next(own: SubChannelId, event: RecvEvent) -> RecvAction<MuxError> {
    match event {
        RecvEvent::Local(Local::Message(message)) => RecvAction::Return(Ok(message)),
        RecvEvent::Waited(Local::Message(message)) => RecvAction::Return(Ok(message)),
        RecvEvent::Local(Local::Empty) => RecvAction::TryLock,
        RecvEvent::Waited(Local::Empty) => RecvAction::TryLock,
        RecvEvent::Local(Local::Disconnected) => RecvAction::Return(Err(MuxError::Disconnected)),
        RecvEvent::Waited(Local::Disconnected) => RecvAction::Return(Err(MuxError::Disconnected)),
        RecvEvent::Locked => RecvAction::Receive(POLLING_INTERVAL),
        RecvEvent::Contended => RecvAction::WaitLocal(CONTENDED_WAIT_INTERVAL),
        RecvEvent::Received(about, Err(e)) => if concerns(about, own) {
            RecvAction::Return(Err(e))
        } else {
            RecvAction::TryLocal
        },
        RecvEvent::Received(_, Ok(())) => RecvAction::TryLocal,
        RecvEvent::TryReceived(about, TryReceiveError::MuxError(e)) => if concerns(about, own) {
            RecvAction::Return(Err(e))
        } else {
            RecvAction::TryLocal
        },
        RecvEvent::TryReceived(_, _) => RecvAction::TryLocal,
        RecvEvent::Remaining(_) => RecvAction::TryLocal,
    }
}

/// What the receiver of a subchannel finds in its mailbox, and the mailboxes
/// after it has taken it out.
pub open spec fn found_in(boxes: MailboxMap, mailbox: MailboxId) -> (Local, MailboxMap) {
    let known = boxes.contains_key(mailbox);
    let before = boxes[mailbox];
    if known && before.messages.len() > 0 {
        (
            match before.messages[0] {
                ResolvedMessageOrDisconnect::ResolvedMessage(message) => Local::Message(message),
                ResolvedMessageOrDisconnect::Disconnect(_) => Local::Disconnected,
            },
            boxes.insert(
                mailbox,
                MailboxView { messages: before.messages.drop_first(), ..before },
            ),
        )
    } else if known && before.senders > 0 {
        (Local::Empty, boxes)
    } else {
        (Local::Disconnected, boxes)
    }
}

impl SubChannelReceiver {
    /// Takes the next message from the mailbox.
    pub fn local(&self, mailboxes: &mut SubChannelMailboxes) -> (found: Local)
        requires
            old(mailboxes).wf(),
        ensures
            final(mailboxes).wf(),
            final(mailboxes).exhausted() == old(mailboxes).exhausted(),
            found == found_in(old(mailboxes)@, self.mailbox).0,
            final(mailboxes)@ == found_in(old(mailboxes)@, self.mailbox).1,
    {
        match mailboxes.try_recv(self.mailbox) {
            Ok(ResolvedMessageOrDisconnect::ResolvedMessage(message)) => Local::Message(message),
            Ok(ResolvedMessageOrDisconnect::Disconnect(_)) => Local::Disconnected,
            Err(MailboxError::Empty) => Local::Empty,
            Err(MailboxError::Disconnected) => Local::Disconnected,
        }
    }

    /// Stops receiving. The subsenders in messages that were not received are
    /// lost, which the receivers of their subchannels are told.
    pub fn close(self, mailboxes: &mut SubChannelMailboxes) -> (effects: Vec<Effect>)
        requires
            old(mailboxes).wf(),
        ensures
            final(mailboxes).wf(),
            final(mailboxes).exhausted() == old(mailboxes).exhausted(),
            receiver_closed(old(mailboxes)@, self.mailbox, effects@, final(mailboxes)@),
    {
        let messages: VecDeque<ResolvedMessageOrDisconnect> = mailboxes.drop_receiver(self.mailbox);
        let ghost all = messages@;
        let mut left = messages;
        let mut effects: Vec<Effect> = Vec::new();
        while left.len() > 0
            invariant
                left@.len() <= all.len(),
                left@ == all.skip(all.len() - left@.len()),
                effects@ == unreceived(all.take(all.len() - left@.len())),
            decreases left.len(),
        {
            let ghost n = all.len() - left@.len();
            match left.pop_front() {
                Some(message) => {
                    proof {
                        assert(message == all[n]);
                        assert(all.take(n + 1).drop_last() =~= all.take(n));
                        assert(all.take(n + 1).last() == message);
                    }
                    match message {
                        ResolvedMessageOrDisconnect::ResolvedMessage(message) => {
                            let mut more: Vec<Effect> = fail_all(message.senders, message.scid);
                            effects.append(&mut more);
                        },
                        ResolvedMessageOrDisconnect::Disconnect(_) => {},
                    }
                    assert(effects@ =~= unreceived(all.take(n + 1)));
                },
                None => {},
            }
        }
        assert(all.take(all.len() as int) =~= all);
        effects
    }

    /// Starts a non-blocking receive.
    pub fn try_recv(&self) -> (receive: TryRecv)
        ensures
            receive == (TryRecv { sub_channel_id: self.sub_channel_id, exhausted: false }),
    {
        TryRecv { sub_channel_id: self.sub_channel_id, exhausted: false }
    }

    /// Starts a receive that waits for some time.
    pub fn try_recv_timeout(&self, duration: u128) -> (receive: TimedRecv)
        ensures
            receive == (TimedRecv { sub_channel_id: self.sub_channel_id, remaining: duration }),
    {
        TimedRecv { sub_channel_id: self.sub_channel_id, remaining: duration }
    }

    /// How a blocking receive, which starts by looking in the mailbox, goes on.
    pub fn recv(&self, event: RecvEvent) -> (action: RecvAction<MuxError>)
        ensures
            action == recv_next(self.sub_channel_id, event),
    {
        match event {
            RecvEvent::Local(local) | RecvEvent::Waited(local) => match local {
                Local::Message(message) => RecvAction::Return(Ok(message)),
                Local::Empty => RecvAction::TryLock,
                Local::Disconnected => RecvAction::Return(Err(MuxError::Disconnected)),
            },
            RecvEvent::Locked => RecvAction::Receive(POLLING_INTERVAL),
            RecvEvent::Contended => RecvAction::WaitLocal(CONTENDED_WAIT_INTERVAL),
            RecvEvent::Received(about, Err(e)) => if is_concerned(about, self.sub_channel_id) {
                RecvAction::Return(Err(e))
            } else {
                RecvAction::TryLocal
            },
            RecvEvent::Received(_, Ok(())) => RecvAction::TryLocal,
            RecvEvent::TryReceived(about, TryReceiveError::MuxError(e)) => if is_concerned(
                about,
                self.sub_channel_id,
            ) {
                RecvAction::Return(Err(e))
            } else {
                RecvAction::TryLocal
            },
            RecvEvent::TryReceived(_, _) => RecvAction::TryLocal,
            RecvEvent::Remaining(_) => RecvAction::TryLocal,
        }
    }
}

/// Whether nothing was left on the IPC channel when it was tried, after the last
/// action.
pub open spec fn found_exhausted(exhausted: bool, event: RecvEvent) -> bool {
    exhausted || (event matches RecvEvent::TryReceived(_, TryReceiveError::Empty))
}

/// How a non-blocking receive goes on, given whether nothing was left on the
/// IPC channel when it was tried.
pub open spec fn try_recv_next(own: SubChannelId, exhausted: bool, event: RecvEvent) -> RecvAction<
    TryRecvError,
> {
    match event {
        RecvEvent::Local(Local::Message(message)) => RecvAction::Return(Ok(message)),
        RecvEvent::Local(Local::Empty) => if exhausted {
            RecvAction::Return(Err(TryRecvError::Empty))
        } else {
            RecvAction::TryReceive
        },
        RecvEvent::Local(Local::Disconnected) => RecvAction::Return(
            Err(TryRecvError::MuxError(MuxError::Disconnected)),
        ),
        RecvEvent::TryReceived(about, TryReceiveError::MuxError(e)) => if concerns(about, own) {
            RecvAction::Return(Err(TryRecvError::MuxError(e)))
        } else {
            RecvAction::TryLocal
        },
        _ => RecvAction::TryLocal,
    }
}

/// A non-blocking receive in progress. It starts by looking in the mailbox.
pub struct TryRecv {
    /// The subchannel.
    pub sub_channel_id: SubChannelId,
    /// Nothing was left on the IPC channel when it was tried.
    pub exhausted: bool,
}

impl TryRecv {
    /// How the receive goes on: as long as the mailbox is empty, the IPC channel
    /// is tried, and then the mailbox again, until nothing is left on either. A
    /// message for another subchannel may come first.
    pub fn next(&mut self, event: RecvEvent) -> (action: RecvAction<TryRecvError>)
        ensures
            final(self).sub_channel_id == old(self).sub_channel_id,
            final(self).exhausted == found_exhausted(old(self).exhausted, event),
            action == try_recv_next(old(self).sub_channel_id, old(self).exhausted, event),
    {
        match event {
            RecvEvent::Local(Local::Message(message)) => RecvAction::Return(Ok(message)),
            RecvEvent::Local(Local::Empty) => if self.exhausted {
                RecvAction::Return(Err(TryRecvError::Empty))
            } else {
                RecvAction::TryReceive
            },
            RecvEvent::Local(Local::Disconnected) => RecvAction::Return(
                Err(TryRecvError::from(MuxError::Disconnected)),
            ),
            RecvEvent::TryReceived(about, received) => match received {
                TryReceiveError::MuxError(e) => if is_concerned(about, self.sub_channel_id) {
                    RecvAction::Return(Err(TryRecvError::from(e)))
                } else {
                    RecvAction::TryLocal
                },
                TryReceiveError::Empty => {
                    self.exhausted = true;
                    RecvAction::TryLocal
                },
                TryReceiveError::Handled => RecvAction::TryLocal,
            },
            _ => RecvAction::TryLocal,
        }
    }
}

/// The smaller of two times.
pub open spec fn sooner(a: u128, b: u128) -> u128 {
    if a < b {
        a
    } else {
        b
    }
}

fn sooner_of(a: u128, b: u128) -> (least: u128)
    ensures
        least == sooner(a, b),
{
    if a < b {
        a
    } else {
        b
    }
}

/// The time that was left when it was last looked at, after the last action.
pub open spec fn time_left(remaining: u128, event: RecvEvent) -> u128 {
    match event {
        RecvEvent::Remaining(left) => left,
        _ => remaining,
    }
}

/// How a receive that waits for some time goes on, given the time that was left
/// when it was last looked at.
pub open spec fn timed_recv_next(own: SubChannelId, remaining: u128, event: RecvEvent) -> RecvAction<
    TryRecvError,
> {
    match event {
        RecvEvent::Local(Local::Message(message)) => RecvAction::Return(Ok(message)),
        RecvEvent::Local(Local::Empty) => RecvAction::CheckTime,
        RecvEvent::Local(Local::Disconnected) => RecvAction::Return(
            Err(TryRecvError::MuxError(MuxError::Disconnected)),
        ),
        RecvEvent::Remaining(left) => if left == 0 {
            RecvAction::Return(Err(TryRecvError::Empty))
        } else {
            RecvAction::TryLock
        },
        RecvEvent::Contended => RecvAction::WaitLocal(sooner(remaining, CONTENDED_WAIT_INTERVAL)),
        RecvEvent::Waited(Local::Message(message)) => RecvAction::Return(Ok(message)),
        RecvEvent::Waited(Local::Disconnected) => RecvAction::Return(
            Err(TryRecvError::MuxError(MuxError::Disconnected)),
        ),
        RecvEvent::Locked => RecvAction::Receive(sooner(remaining, POLLING_INTERVAL)),
        RecvEvent::Received(about, Err(e)) => if concerns(about, own) {
            RecvAction::Return(Err(TryRecvError::MuxError(e)))
        } else {
            RecvAction::TryLocal
        },
        _ => RecvAction::TryLocal,
    }
}

/// A receive that waits for some time, in progress. It starts by looking in the
/// mailbox.
pub struct TimedRecv {
    /// The subchannel.
    pub sub_channel_id: SubChannelId,
    /// The time that was left when it was last looked at.
    pub remaining: u128,
}

impl TimedRecv {
    /// How the receive goes on: as a blocking receive, but no wait is longer
    /// than the time that is left, and once none is left the receive is over.
    pub fn next(&mut self, event: RecvEvent) -> (action: RecvAction<TryRecvError>)
        ensures
            final(self).sub_channel_id == old(self).sub_channel_id,
            final(self).remaining == time_left(old(self).remaining, event),
            action == timed_recv_next(old(self).sub_channel_id, old(self).remaining, event),
    {
        match event {
            RecvEvent::Local(Local::Message(message)) => RecvAction::Return(Ok(message)),
            RecvEvent::Local(Local::Empty) => RecvAction::CheckTime,
            RecvEvent::Local(Local::Disconnected) => RecvAction::Return(
                Err(TryRecvError::from(MuxError::Disconnected)),
            ),
            RecvEvent::Remaining(remaining) => {
                self.remaining = remaining;
                if remaining == 0 {
                    RecvAction::Return(Err(TryRecvError::Empty))
                } else {
                    RecvAction::TryLock
                }
            },
            RecvEvent::Contended => RecvAction::WaitLocal(
                sooner_of(self.remaining, CONTENDED_WAIT_INTERVAL),
            ),
            RecvEvent::Waited(Local::Message(message)) => RecvAction::Return(Ok(message)),
            RecvEvent::Waited(Local::Empty) => RecvAction::TryLocal,
            RecvEvent::Waited(Local::Disconnected) => RecvAction::Return(
                Err(TryRecvError::from(MuxError::Disconnected)),
            ),
            RecvEvent::Locked => RecvAction::Receive(sooner_of(self.remaining, POLLING_INTERVAL)),
            RecvEvent::Received(about, Err(e)) => if is_concerned(about, self.sub_channel_id) {
                RecvAction::Return(Err(TryRecvError::from(e)))
            } else {
                RecvAction::TryLocal
            },
            RecvEvent::Received(_, Ok(())) => RecvAction::TryLocal,
            RecvEvent::TryReceived(_, _) => RecvAction::TryLocal,
        }
    }
}

} // verus!
