//! Receiving from several IPC channels at once.

use crate::mux::demux::{
    data_handled, left_by_former, lists_once, message_handled, polled_in_order, receivable,
    Connection, Demuxer, DemuxerView, Handled,
    LostChannels, MailboxMap, Polled, Strictness, SubChannelMailboxes,
};
use crate::mux::error::{mux_error, IpcError, MuxError};
use crate::mux::mailbox::{MailboxId, MailboxView};
use crate::mux::protocol::{
    ClientId, MultiMessage, ResponseReceiver, ResponseSender, SubChannelId, ORIGIN,
};
use crate::mux::sender::{
    connected_sender, MultiSender, MultiSenderId, MultiSenderView, SourceTable,
    SubChannelDisconnector, SubChannelSender,
};
use crate::mux::sender_id::ForwardSender;
use crate::mux::subchannel_endpoint::SubSender;
use crate::mux::subchannel_lifecycle::{SubReceiverProxy, SubSenderView};
use crate::mux::uuids::{is_random_uuid, new_uuid, Uuid};
use std::collections::{HashMap, VecDeque};
use std::marker::PhantomData;
use std::sync::Arc;
use vstd::prelude::*;

verus! {

broadcast use vstd::std_specs::hash::group_hash_axioms;

/// Identifies a [`MultiReceiverSet`].
pub type SetId = u64;

/// Identifies a [`SelectableMultiReceiver`].
pub type ReceiverId = u64;

/// The receiving end of a multiplexed channel that is received from through a
/// set.
pub struct SelectableMultiReceiver {
    ipc_receiver_uuid: Uuid,
    multi_receiver_set: SetId,
    demuxer: Demuxer,
}

/// The mathematical counterpart of [`SelectableMultiReceiver`].
#[verifier::ext_equal]
pub struct SelectableView {
    pub uuid: Uuid,
    /// The set that the receiver was created in.
    pub set: SetId,
    pub demuxer: DemuxerView,
}

impl View for SelectableMultiReceiver {
    type V = SelectableView;

    closed spec fn view(&self) -> SelectableView {
        SelectableView {
            uuid: self.ipc_receiver_uuid,
            set: self.multi_receiver_set,
            demuxer: self.demuxer@,
        }
    }
}

/// An IPC receiver, by the handle that the program around the library has given
/// it, that waits to be registered in a set, and the receiving end that it
/// belongs to.
#[derive(Clone, Copy, PartialEq, Eq, Structural, Debug)]
pub struct Pending {
    pub ipc_receiver: u64,
    pub receiver: ReceiverId,
}

/// A set of receiving ends whose IPC channels are waited for together.
pub struct MultiReceiverSet {
    multi_receivers: HashMap<u64, ReceiverId>,
    pending: Option<Pending>,
    merged_into: Option<SetId>,
}

/// The mathematical counterpart of [`MultiReceiverSet`].
#[verifier::ext_equal]
pub struct SetView {
    /// The receiving ends whose IPC receivers are registered, by the ids of the
    /// registration.
    pub multi_receivers: Map<u64, ReceiverId>,
    /// An IPC receiver that is registered when the first subchannel of its
    /// channel is received from.
    pub pending: Option<Pending>,
    /// The set that this one has been merged into.
    pub merged_into: Option<SetId>,
}

impl SetView {
    /// Nothing is registered or waits to be.
    pub open spec fn is_empty(self) -> bool {
        self.multi_receivers == Map::<u64, ReceiverId>::empty() && self.pending is None
    }

    /// A set without receivers.
    pub open spec fn initial() -> Self {
        SetView { multi_receivers: Map::empty(), pending: None, merged_into: None }
    }
}

impl View for MultiReceiverSet {
    type V = SetView;

    closed spec fn view(&self) -> SetView {
        SetView {
            multi_receivers: self.multi_receivers@,
            pending: self.pending,
            merged_into: self.merged_into,
        }
    }
}

impl MultiReceiverSet {
    /// A set without receivers.
    pub fn new() -> (set: MultiReceiverSet)
        ensures
            set@ == SetView::initial(),
    {
        MultiReceiverSet { multi_receivers: HashMap::new(), pending: None, merged_into: None }
    }

    /// Lets an IPC receiver wait to be registered.
    pub fn set_pending(&mut self, pending: Pending)
        ensures
            final(self)@ == (SetView { pending: Some(pending), ..old(self)@ }),
    {
        self.pending = Some(pending);
    }

    /// The IPC receiver that waits to be registered.
    pub fn pending(&self) -> (pending: Option<Pending>)
        ensures
            pending == self@.pending,
    {
        self.pending
    }

    /// Takes the IPC receiver that waits to be registered.
    pub fn take_pending(&mut self) -> (pending: Option<Pending>)
        ensures
            pending == old(self)@.pending,
            final(self)@ == (SetView { pending: None, ..old(self)@ }),
    {
        self.pending.take()
    }

    /// Records that an IPC receiver has been registered under the given id.
    pub fn merge_receiver(&mut self, id: u64, receiver: ReceiverId)
        ensures
            final(self)@ == (SetView {
                multi_receivers: old(self)@.multi_receivers.insert(id, receiver),
                ..old(self)@
            }),
    {
        self.multi_receivers.insert(id, receiver);
    }

    /// Registers the IPC receiver that waits to be, given what came of it.
    pub fn register_pending(&mut self, registered: Result<u64, IpcError>) -> (result: Result<
        (),
        MuxError,
    >)
        ensures
            (match old(self)@.pending {
                Some(pending) => match registered {
                    Ok(id) => {
                        &&& result is Ok
                        &&& final(self)@ == SetView {
                            pending: None,
                            multi_receivers: old(self)@.multi_receivers.insert(
                                id,
                                pending.receiver,
                            ),
                            ..old(self)@
                        }
                    },
                    Err(e) => {
                        &&& result == Err::<(), MuxError>(mux_error(e))
                        &&& final(self)@ == SetView { pending: None, ..old(self)@ }
                    },
                },
                None => result is Ok && final(self)@ == old(self)@,
            }),
    {
        match self.take_pending() {
            Some(pending) => match registered {
                Ok(id) => {
                    self.merge_receiver(id, pending.receiver);
                    Ok(())
                },
                Err(e) => Err(MuxError::from(e)),
            },
            None => Ok(()),
        }
    }

    /// Whether this set has been merged into the given one.
    pub fn is_merged_into(&self, target: SetId) -> (merged: bool)
        ensures
            merged == (self@.merged_into == Some(target)),
    {
        match self.merged_into {
            Some(set) => set == target,
            None => false,
        }
    }

    /// Records that this set has been merged into the given one.
    pub fn set_merged_into(&mut self, target: SetId)
        ensures
            final(self)@ == (SetView { merged_into: Some(target), ..old(self)@ }),
    {
        self.merged_into = Some(target);
    }

    /// Whether nothing is registered or waits to be.
    pub fn is_empty(&self) -> (empty: bool)
        ensures
            empty == self@.is_empty(),
    {
        let empty = self.multi_receivers.is_empty() && self.pending.is_none();
        proof {
            if self.multi_receivers@.dom().len() == 0 {
                assert(self.multi_receivers@.dom() =~= Set::empty());
                assert(self.multi_receivers@ =~= Map::<u64, ReceiverId>::empty());
            }
        }
        empty
    }

    /// The receiving end to which a message from the IPC receiver registered
    /// under the given id belongs.
    pub fn receiver_for(&self, id: u64) -> (receiver: Option<ReceiverId>)
        ensures
            receiver == (if self@.multi_receivers.contains_key(id) {
                Some(self@.multi_receivers[id])
            } else {
                None
            }),
    {
        match self.multi_receivers.get(&id) {
            Some(receiver) => Some(*receiver),
            None => None,
        }
    }

    /// The IPC channel of the receiver registered under the given id is closed.
    pub fn channel_closed(&mut self, id: u64)
        ensures
            final(self)@ == (SetView {
                multi_receivers: old(self)@.multi_receivers.remove(id),
                ..old(self)@
            }),
    {
        self.multi_receivers.remove(&id);
    }

    /// The ids under which receivers are registered, in no particular order.
    pub fn registrations(&self) -> (ids: Vec<u64>)
        ensures
            ids@.no_duplicates(),
            ids@.to_set() == self@.multi_receivers.dom(),
    {
        let mut ids: Vec<u64> = Vec::new();
        for id in keys: self.multi_receivers.keys()
            invariant
                keys.seq().no_duplicates(),
                keys.seq().unref().to_set() == self.multi_receivers@.dom(),
                ids@.len() == keys.index(),
                forall|k: int|
                    #![trigger ids@[k]]
                    0 <= k < ids@.len() ==> ids@[k] == keys.seq().unref()[k],
                keys.index() == keys.seq().len() ==> ids@ == keys.seq().unref(),
        {
            ids.push(*id);
            proof {
                let n = keys.index() as int;
                assert(keys.seq()[n] == id);
                assert(n + 1 == keys.seq().len() ==> ids@ =~= keys.seq().unref());
            }
        }
        ids
    }
}

/// What came of a message for a receiving end in a set.
pub open spec fn selectable_handled(
    before: SelectableView,
    boxes: MailboxMap,
    message: MultiMessage,
    outcomes: Seq<Result<Connection, MuxError>>,
    outcome: Handled,
    after: SelectableView,
    boxes_after: MailboxMap,
) -> bool {
    &&& after.uuid == before.uuid
    &&& after.set == before.set
    &&& match message {
        MultiMessage::Data(scid, payload, senders, attachments) => data_handled(
            before.demuxer,
            boxes,
            scid,
            payload,
            senders@,
            attachments,
            before.uuid,
            outcomes,
            Strictness::Lenient,
            outcome,
            after.demuxer,
            boxes_after,
        ),
        _ => message_handled(
            before.demuxer,
            boxes,
            message,
            before.uuid,
            outcomes,
            outcome,
            after.demuxer,
            boxes_after,
        ),
    }
}

/// A receiving end has polled the senders of all its subchannels.
pub open spec fn selectable_polled(
    before: SelectableView,
    boxes: MailboxMap,
    lost: LostChannels,
    failed: bool,
    after: SelectableView,
    boxes_after: MailboxMap,
) -> bool {
    &&& after.uuid == before.uuid
    &&& after.set == before.set
    &&& exists|order: Seq<Uuid>|
        {
            &&& #[trigger] lists_once(order, before.demuxer.sub_channels.dom())
            &&& Polled { state: after.demuxer, boxes: boxes_after, failed } == polled_in_order(
                Polled { state: before.demuxer, boxes, failed: false },
                order,
                lost,
            )
        }
}

impl SelectableMultiReceiver {
    pub fn new(ipc_receiver_uuid: Uuid, multi_receiver_set: SetId, demuxer: Demuxer) -> (receiver:
        SelectableMultiReceiver)
        ensures
            receiver@ == (SelectableView {
                uuid: ipc_receiver_uuid,
                set: multi_receiver_set,
                demuxer: demuxer@,
            }),
    {
        SelectableMultiReceiver { ipc_receiver_uuid, multi_receiver_set, demuxer }
    }

    /// The set that the receiver was created in.
    pub fn multi_receiver_set(&self) -> (set: SetId)
        ensures
            set == self@.set,
    {
        self.multi_receiver_set
    }

    /// The demuxer.
    pub fn demuxer(&self) -> (demuxer: &Demuxer)
        ensures
            demuxer@ == self@.demuxer,
    {
        &self.demuxer
    }

    /// Starts watching over the senders of a subchannel. Until the subchannel
    /// is added to a set, nobody receives its messages.
    pub fn attach(&mut self, sub_channel_id: SubChannelId, mailboxes: &mut SubChannelMailboxes) -> (mailbox:
        MailboxId)
        requires
            old(mailboxes).wf(),
            !old(mailboxes).exhausted(),
        ensures
            final(mailboxes).wf(),
            !old(mailboxes)@.contains_key(mailbox),
            final(self)@ == (SelectableView {
                demuxer: old(self)@.demuxer.with_sub_channel(
                    sub_channel_id,
                    SubSenderView::initial(mailbox, ORIGIN),
                ),
                ..old(self)@
            }),
            final(mailboxes)@ == left_by_former(
                old(self)@.demuxer,
                sub_channel_id,
                old(mailboxes)@.insert(
                    mailbox,
                    MailboxView { messages: Seq::empty(), senders: 1, receiving: false },
                ),
            ),
    {
        let mailbox: MailboxId = mailboxes.open();
        let _ = mailboxes.drop_receiver(mailbox);
        assert(mailboxes@ =~= old(mailboxes)@.insert(
            mailbox,
            MailboxView { messages: Seq::empty(), senders: 1, receiving: false },
        ));
        self.demuxer.insert_state_machine(sub_channel_id, mailbox, mailboxes);
        mailbox
    }

    /// Handles a message that has arrived.
    pub fn handle(
        &mut self,
        message: MultiMessage,
        outcomes: VecDeque<Result<Connection, MuxError>>,
        mailboxes: &mut SubChannelMailboxes,
    ) -> (outcome: Handled)
        requires
            old(mailboxes).wf(),
            receivable(old(self)@.demuxer, message, outcomes@),
        ensures
            final(mailboxes).wf(),
            final(mailboxes).exhausted() == old(mailboxes).exhausted(),
            selectable_handled(
                old(self)@,
                old(mailboxes)@,
                message,
                outcomes@,
                outcome,
                final(self)@,
                final(mailboxes)@,
            ),
    {
        let uuid: Uuid = self.ipc_receiver_uuid;
        match message {
            MultiMessage::Data(scid, payload, senders, attachments) => self.demuxer.send(
                scid,
                payload,
                &senders,
                uuid,
                attachments,
                outcomes,
                mailboxes,
            ),
            message => self.demuxer.handle(message, uuid, outcomes, mailboxes),
        }
    }

    /// Directs the messages for a subchannel to another mailbox.
    pub fn switch_sub_channel_sender(
        &mut self,
        scid: SubChannelId,
        mailbox: MailboxId,
        mailboxes: &mut SubChannelMailboxes,
    ) -> (switched: Result<(), MuxError>)
        requires
            old(mailboxes).wf(),
        ensures
            final(mailboxes).wf(),
            final(mailboxes).exhausted() == old(mailboxes).exhausted(),
            final(self)@.uuid == old(self)@.uuid,
            final(self)@.set == old(self)@.set,
            (match switched {
                Ok(()) => {
                    &&& old(self)@.demuxer.sub_channels.contains_key(scid.0)
                    &&& final(self)@.demuxer == old(self)@.demuxer.with_sub_channel(
                        scid,
                        SubSenderView {
                            sender: Some(mailbox),
                            ..old(self)@.demuxer.sub_channels[scid.0]
                        },
                    )
                    &&& final(mailboxes)@ == left_by_former(
                        old(self)@.demuxer,
                        scid,
                        old(mailboxes)@,
                    )
                },
                Err(e) => {
                    &&& !old(self)@.demuxer.sub_channels.contains_key(scid.0)
                    &&& e@ == missing_sub_channel(scid)
                    &&& final(self)@ == old(self)@
                    &&& final(mailboxes)@ == old(mailboxes)@
                },
            }),
    {
        self.demuxer.switch_sub_channel_sender(scid, mailbox, mailboxes)
    }

    /// Polls the senders of all subchannels, given the channels that have been
    /// found to be gone.
    ///
    /// Returns whether a probe failed.
    pub fn poll(&mut self, lost: &LostChannels, mailboxes: &mut SubChannelMailboxes) -> (failed: bool)
        requires
            old(mailboxes).wf(),
        ensures
            final(mailboxes).wf(),
            final(mailboxes).exhausted() == old(mailboxes).exhausted(),
            selectable_polled(
                old(self)@,
                old(mailboxes)@,
                *lost,
                failed,
                final(self)@,
                final(mailboxes)@,
            ),
    {
        self.demuxer.poll_all_subchannels(lost, mailboxes)
    }

    /// Forgets all clients, which closes their response channels.
    pub fn close(&mut self)
        ensures
            final(self)@ == (SelectableView {
                demuxer: DemuxerView { clients: Map::empty(), ..old(self)@.demuxer },
                ..old(self)@
            }),
    {
        self.demuxer.clear_ipc_senders();
    }
}

/// The error for a subchannel that a demuxer does not know.
pub open spec fn missing_sub_channel(scid: SubChannelId) -> crate::mux::error::MuxErrorView {
    crate::mux::error::MuxErrorView::InternalError(
        "missing sub_channel for "@ + crate::mux::uuids::hyphenated(scid.0),
    )
}

/// The receiving end of a subchannel that is to be received from through a set.
#[derive(Clone, Copy, PartialEq, Eq, Structural, Debug)]
pub struct SelectableSubChannelReceiver {
    pub receiver: ReceiverId,
    pub sub_channel_id: SubChannelId,
}

/// The receiving end of a subchannel for messages of type `T`, to be added to a
/// set.
pub struct SelectableSubReceiver<T> {
    pub sub_channel_receiver: SelectableSubChannelReceiver,
    pub phantom: PhantomData<T>,
}

impl<T> SelectableSubReceiver<T> {
    /// The receiving end for messages of type `T` of a subchannel.
    pub fn from_receiver(sub_channel_receiver: SelectableSubChannelReceiver) -> (receiver: Self)
        ensures
            receiver.sub_channel_receiver == sub_channel_receiver,
    {
        SelectableSubReceiver { sub_channel_receiver, phantom: PhantomData }
    }

    /// The same end with the message type forgotten.
    pub fn to_opaque(self) -> (receiver: OpaqueSelectableSubReceiver)
        ensures
            receiver.sub_channel_receiver == self.sub_channel_receiver,
    {
        OpaqueSelectableSubReceiver { sub_channel_receiver: self.sub_channel_receiver }
    }
}

/// The receiving end of a subchannel whose message type is not known here, to
/// be added to a set.
pub struct OpaqueSelectableSubReceiver {
    pub sub_channel_receiver: SelectableSubChannelReceiver,
}

impl OpaqueSelectableSubReceiver {
    /// The id of the subchannel.
    pub fn sub_channel_id(&self) -> (id: SubChannelId)
        ensures
            id == self.sub_channel_receiver.sub_channel_id,
    {
        self.sub_channel_receiver.sub_channel_id
    }

    /// The set that the receiving end of the channel belongs to, if the
    /// receiving end is known.
    pub fn multi_receiver_set(&self, selectables: &Selectables) -> (set: Option<SetId>)
        ensures
            set == (if selectables@.receivers.contains_key(self.sub_channel_receiver.receiver) {
                Some(selectables@.receivers[self.sub_channel_receiver.receiver].set)
            } else {
                None
            }),
    {
        match selectables.receiver(self.sub_channel_receiver.receiver) {
            Some(receiver) => Some(receiver.multi_receiver_set()),
            None => None,
        }
    }

    /// What is in a set.
    pub fn into_inner(self) -> (receiver: SelectableSubChannelReceiver)
        ensures
            receiver == self.sub_channel_receiver,
    {
        self.sub_channel_receiver
    }
}

/// The sets of receiving ends and the receiving ends of a process.
pub struct Selectables {
    sets: HashMap<SetId, MultiReceiverSet>,
    receivers: HashMap<ReceiverId, SelectableMultiReceiver>,
    next: u64,
}

/// The mathematical counterpart of [`Selectables`].
#[verifier::ext_equal]
pub struct SelectablesView {
    pub sets: Map<SetId, SetView>,
    pub receivers: Map<ReceiverId, SelectableView>,
}

impl View for Selectables {
    type V = SelectablesView;

    closed spec fn view(&self) -> SelectablesView {
        SelectablesView {
            sets: self.sets@.map_values(|set: MultiReceiverSet| set@),
            receivers: self.receivers@.map_values(
                |receiver: SelectableMultiReceiver| receiver@,
            ),
        }
    }
}

impl SelectablesView {
    /// A set has changed.
    pub open spec fn with_set(self, id: SetId, set: SetView) -> Self {
        SelectablesView { sets: self.sets.insert(id, set), ..self }
    }

    /// A receiving end has changed.
    pub open spec fn with_receiver(self, id: ReceiverId, receiver: SelectableView) -> Self {
        SelectablesView { receivers: self.receivers.insert(id, receiver), ..self }
    }
}

/// What it takes to let a subchannel be received from through a set: the IPC
/// receiver of its channel may have to be registered, in the set that the
/// channel was created in or in the one that is received from.
pub open spec fn registration(state: SelectablesView, own: SetId, incoming: SetId) -> Option<
    (SetId, Pending),
> {
    if own == incoming {
        None
    } else if state.sets[own].is_empty() {
        match state.sets[incoming].pending {
            Some(pending) => Some((incoming, pending)),
            None => None,
        }
    } else if state.sets[incoming].merged_into == Some(own) {
        None
    } else {
        match state.sets[incoming].pending {
            Some(pending) => Some((own, pending)),
            None => None,
        }
    }
}

/// Why a subchannel cannot be received from through a set.
pub enum JoinError {
    /// Its IPC receiver could not be registered.
    Registration(IpcError),
    /// Its channel is already received from through another set.
    OtherSet,
}

/// What came of letting a subchannel be received from through a set.
pub struct Joined {
    pub state: SelectablesView,
    /// The set that is now received from.
    pub set: SetId,
    pub error: Option<JoinError>,
}

/// Lets the subchannels of the channel that was created in the set `incoming`
/// be received from through the set `own`, given what came of registering an
/// IPC receiver, if that was necessary.
pub open spec fn joined(
    state: SelectablesView,
    own: SetId,
    incoming: SetId,
    registered: Option<Result<u64, IpcError>>,
) -> Joined {
    if own == incoming {
        Joined { state, set: own, error: None }
    } else if state.sets[own].is_empty() {
        match state.sets[incoming].pending {
            Some(pending) => {
                let taken = SetView { pending: None, ..state.sets[incoming] };
                match registered->0 {
                    Ok(id) => Joined {
                        state: state.with_set(
                            incoming,
                            SetView {
                                multi_receivers: taken.multi_receivers.insert(id, pending.receiver),
                                ..taken
                            },
                        ),
                        set: incoming,
                        error: None,
                    },
                    Err(e) => Joined {
                        state: state.with_set(incoming, taken),
                        set: incoming,
                        error: Some(JoinError::Registration(e)),
                    },
                }
            },
            None => Joined { state, set: incoming, error: None },
        }
    } else if state.sets[incoming].merged_into == Some(own) {
        Joined { state, set: own, error: None }
    } else {
        match state.sets[incoming].pending {
            Some(pending) => {
                let taken = SetView { pending: None, ..state.sets[incoming] };
                match registered->0 {
                    Ok(id) => Joined {
                        state: state.with_set(
                            own,
                            SetView {
                                multi_receivers: state.sets[own].multi_receivers.insert(
                                    id,
                                    pending.receiver,
                                ),
                                ..state.sets[own]
                            },
                        ).with_set(incoming, SetView { merged_into: Some(own), ..taken }),
                        set: own,
                        error: None,
                    },
                    Err(e) => Joined {
                        state: state.with_set(incoming, taken),
                        set: own,
                        error: Some(JoinError::Registration(e)),
                    },
                }
            },
            None => Joined { state, set: own, error: Some(JoinError::OtherSet) },
        }
    }
}

impl Selectables {
    /// No set and no receiving end has an id that has yet to be given to one.
    pub closed spec fn wf(&self) -> bool {
        &&& forall|id: SetId| #[trigger] self.sets@.contains_key(id) ==> id < self.next
        &&& forall|id: ReceiverId| #[trigger] self.receivers@.contains_key(id) ==> id < self.next
    }

    /// All ids but one have been given away.
    pub closed spec fn exhausted(&self) -> bool {
        self.next >= u64::MAX - 1
    }

    /// No sets and no receiving ends.
    pub fn new() -> (selectables: Selectables)
        ensures
            selectables.wf(),
            !selectables.exhausted(),
            selectables@ == (SelectablesView { sets: Map::empty(), receivers: Map::empty() }),
    {
        let selectables = Selectables { sets: HashMap::new(), receivers: HashMap::new(), next: 0 };
        assert(selectables@.sets =~= Map::<SetId, SetView>::empty());
        assert(selectables@.receivers =~= Map::<ReceiverId, SelectableView>::empty());
        selectables
    }

    /// Whether all ids but one have been given away.
    pub fn is_exhausted(&self) -> (exhausted: bool)
        ensures
            exhausted == self.exhausted(),
    {
        self.next >= u64::MAX - 1
    }

    /// A new set without receivers.
    pub fn add_set(&mut self) -> (id: SetId)
        requires
            old(self).wf(),
            !old(self).exhausted(),
        ensures
            final(self).wf(),
            !old(self)@.sets.contains_key(id),
            final(self)@ == old(self)@.with_set(id, SetView::initial()),
    {
        let id: SetId = self.next;
        self.sets.insert(id, MultiReceiverSet::new());
        self.next = id + 1;
        assert(self@ =~= old(self)@.with_set(id, SetView::initial()));
        id
    }

    /// A new receiving end in a set of its own, in which its IPC receiver waits
    /// to be registered.
    pub fn add_receiver(&mut self, ipc_receiver_uuid: Uuid, demuxer: Demuxer, ipc_receiver: u64) -> (id:
        ReceiverId)
        requires
            old(self).wf(),
            !old(self).exhausted(),
        ensures
            final(self).wf(),
            !old(self)@.receivers.contains_key(id),
            final(self)@.receivers.contains_key(id),
            ({
                let set = final(self)@.receivers[id].set;
                &&& !old(self)@.sets.contains_key(set)
                &&& final(self)@ == old(self)@.with_set(
                    set,
                    SetView {
                        pending: Some(Pending { ipc_receiver, receiver: id }),
                        ..SetView::initial()
                    },
                ).with_receiver(id, SelectableView { uuid: ipc_receiver_uuid, set, demuxer: demuxer@ })
            }),
    {
        let set: SetId = self.next;
        let id: ReceiverId = self.next + 1;
        let ghost state = demuxer@;
        let mut pending_set = MultiReceiverSet::new();
        pending_set.set_pending(Pending { ipc_receiver, receiver: id });
        let ghost set_state = pending_set@;
        self.sets.insert(set, pending_set);
        self.receivers.insert(id, SelectableMultiReceiver::new(ipc_receiver_uuid, set, demuxer));
        self.next = id + 1;
        assert(self@ =~= old(self)@.with_set(set, set_state).with_receiver(
            id,
            SelectableView { uuid: ipc_receiver_uuid, set, demuxer: state },
        ));
        id
    }

    /// A set.
    pub fn set(&self, id: SetId) -> (set: Option<&MultiReceiverSet>)
        ensures
            (match set {
                Some(set) => self@.sets.contains_key(id) && self@.sets[id] == set@,
                None => !self@.sets.contains_key(id),
            }),
    {
        self.sets.get(&id)
    }

    /// A receiving end.
    pub fn receiver(&self, id: ReceiverId) -> (receiver: Option<&SelectableMultiReceiver>)
        ensures
            (match receiver {
                Some(receiver) => self@.receivers.contains_key(id) && self@.receivers[id]
                    == receiver@,
                None => !self@.receivers.contains_key(id),
            }),
    {
        self.receivers.get(&id)
    }

    /// Forgets a receiving end of which no subchannel is received from any
    /// more.
    pub fn drop_receiver(&mut self, id: ReceiverId)
        requires
            old(self).wf(),
        ensures
            final(self).wf(),
            final(self).exhausted() == old(self).exhausted(),
            final(self)@ == (SelectablesView {
                receivers: old(self)@.receivers.remove(id),
                ..old(self)@
            }),
    {
        self.receivers.remove(&id);
        assert(self@ =~= SelectablesView {
            receivers: old(self)@.receivers.remove(id),
            ..old(self)@
        });
    }

    /// The IPC receiver, if any, that has to be registered before a subchannel
    /// is received from through a set, and the set to register it in.
    pub fn registration(&self, own: SetId, incoming: SetId) -> (needed: Option<(SetId, Pending)>)
        requires
            self@.sets.contains_key(own),
            self@.sets.contains_key(incoming),
        ensures
            needed == registration(self@, own, incoming),
    {
        if own == incoming {
            return None;
        }
        match (self.sets.get(&own), self.sets.get(&incoming)) {
            (Some(own_set), Some(incoming_set)) => {
                if own_set.is_empty() {
                    match incoming_set.pending() {
                        Some(pending) => Some((incoming, pending)),
                        None => None,
                    }
                } else if incoming_set.is_merged_into(own) {
                    None
                } else {
                    match incoming_set.pending() {
                        Some(pending) => Some((own, pending)),
                        None => None,
                    }
                }
            },
            _ => {
                assert(false);
                None
            },
        }
    }

    /// Lets the subchannels of a channel be received from through a set, given
    /// what came of registering the IPC receiver, if that was necessary.
    ///
    /// Returns the set that is received from afterwards.
    pub fn join(
        &mut self,
        own: SetId,
        incoming: SetId,
        registered: Option<Result<u64, IpcError>>,
    ) -> (result: (SetId, Option<JoinError>))
        requires
            old(self).wf(),
            old(self)@.sets.contains_key(own),
            old(self)@.sets.contains_key(incoming),
            registration(old(self)@, own, incoming) is Some ==> registered is Some,
        ensures
            final(self).wf(),
            final(self).exhausted() == old(self).exhausted(),
            ({
                let after = joined(old(self)@, own, incoming, registered);
                &&& final(self)@ == after.state
                &&& result.0 == after.set
                &&& result.1 == after.error
            }),
    {
        if own == incoming {
            return (own, None);
        }
        let (own_empty, merged): (bool, bool) = match (
            self.sets.get(&own),
            self.sets.get(&incoming),
        ) {
            (Some(own_set), Some(incoming_set)) => (
                own_set.is_empty(),
                incoming_set.is_merged_into(own),
            ),
            _ => {
                assert(false);
                (false, false)
            },
        };
        if !own_empty && merged {
            return (own, None);
        }
        match self.sets.remove(&incoming) {
            Some(incoming_set) => {
                let mut incoming_set = incoming_set;
                match incoming_set.take_pending() {
                    Some(pending) => match registered {
                        Some(Ok(id)) => {
                            if own_empty {
                                incoming_set.merge_receiver(id, pending.receiver);
                                let ghost state = incoming_set@;
                                self.sets.insert(incoming, incoming_set);
                                assert(self@ =~= old(self)@.with_set(incoming, state));
                                (incoming, None)
                            } else {
                                incoming_set.set_merged_into(own);
                                let ghost incoming_state = incoming_set@;
                                match self.sets.remove(&own) {
                                    Some(own_set) => {
                                        let mut own_set = own_set;
                                        own_set.merge_receiver(id, pending.receiver);
                                        let ghost own_state = own_set@;
                                        self.sets.insert(own, own_set);
                                        self.sets.insert(incoming, incoming_set);
                                        assert(self@ =~= old(self)@.with_set(
                                            own,
                                            own_state,
                                        ).with_set(incoming, incoming_state));
                                    },
                                    None => {
                                        assert(false);
                                    },
                                }
                                (own, None)
                            }
                        },
                        Some(Err(e)) => {
                            let ghost state = incoming_set@;
                            self.sets.insert(incoming, incoming_set);
                            assert(self@ =~= old(self)@.with_set(incoming, state));
                            (
                                if own_empty {
                                    incoming
                                } else {
                                    own
                                },
                                Some(JoinError::Registration(e)),
                            )
                        },
                        None => {
                            assert(false);
                            (own, None)
                        },
                    },
                    None => {
                        let ghost state = incoming_set@;
                        self.sets.insert(incoming, incoming_set);
                        proof {
                            assert(state =~= old(self)@.sets[incoming]);
                            assert(self@ =~= old(self)@);
                        }
                        if own_empty {
                            (incoming, None)
                        } else {
                            (own, Some(JoinError::OtherSet))
                        }
                    },
                }
            },
            None => {
                assert(false);
                (own, None)
            },
        }
    }

    /// Handles a message as [`Selectables::message_received`] does, or returns
    /// `None` if it cannot be handled with the given outcomes.
    pub fn checked_message_received(
        &mut self,
        set: SetId,
        id: u64,
        message: MultiMessage,
        outcomes: VecDeque<Result<Connection, MuxError>>,
        mailboxes: &mut SubChannelMailboxes,
    ) -> (outcome: Option<Handled>)
        requires
            old(self).wf(),
            old(mailboxes).wf(),
        ensures
            final(self).wf(),
            final(self).exhausted() == old(self).exhausted(),
            final(mailboxes).wf(),
            final(mailboxes).exhausted() == old(mailboxes).exhausted(),
            (match outcome {
                Some(outcome) => {
                    &&& selectable_receivable(old(self)@, set, id, message, outcomes@)
                    &&& member_handled(
                        (old(self)@, old(mailboxes)@),
                        set,
                        id,
                        message,
                        outcomes@,
                        outcome,
                        (final(self)@, final(mailboxes)@),
                    )
                },
                None => {
                    &&& !selectable_receivable(old(self)@, set, id, message, outcomes@)
                    &&& final(self)@ == old(self)@
                    &&& final(mailboxes)@ == old(mailboxes)@
                },
            }),
    {
        let receiver: Option<ReceiverId> = match self.sets.get(&set) {
            Some(set) => set.receiver_for(id),
            None => None,
        };
        let can: bool = match receiver {
            Some(receiver) => match self.receiver(receiver) {
                Some(receiver) => receiver.demuxer().can_handle(&message, &outcomes),
                None => true,
            },
            None => true,
        };
        if can {
            Some(self.message_received(set, id, message, outcomes, mailboxes))
        } else {
            None
        }
    }

    /// Handles a message from an IPC receiver registered in a set. A message
    /// for a receiving end that is gone is dropped.
    pub fn message_received(
        &mut self,
        set: SetId,
        id: u64,
        message: MultiMessage,
        outcomes: VecDeque<Result<Connection, MuxError>>,
        mailboxes: &mut SubChannelMailboxes,
    ) -> (outcome: Handled)
        requires
            old(self).wf(),
            old(mailboxes).wf(),
            selectable_receivable(old(self)@, set, id, message, outcomes@),
        ensures
            final(self).wf(),
            final(self).exhausted() == old(self).exhausted(),
            final(mailboxes).wf(),
            final(mailboxes).exhausted() == old(mailboxes).exhausted(),
            member_handled(
                (old(self)@, old(mailboxes)@),
                set,
                id,
                message,
                outcomes@,
                outcome,
                (final(self)@, final(mailboxes)@),
            ),
    {
        let receiver: Option<ReceiverId> = match self.sets.get(&set) {
            Some(set) => set.receiver_for(id),
            None => None,
        };
        match receiver {
            Some(id) => match self.receivers.remove(&id) {
                Some(receiver) => {
                    let mut receiver = receiver;
                    let outcome: Handled = receiver.handle(message, outcomes, mailboxes);
                    let ghost state = receiver@;
                    self.receivers.insert(id, receiver);
                    assert(self@ =~= old(self)@.with_receiver(id, state));
                    outcome
                },
                None => {
                    assert(self@ =~= old(self)@);
                    Handled { result: Ok(()), effects: Vec::new() }
                },
            },
            None => Handled { result: Ok(()), effects: Vec::new() },
        }
    }

    /// The IPC channel of a receiver registered in a set is closed.
    pub fn channel_closed(&mut self, set: SetId, id: u64)
        requires
            old(self).wf(),
        ensures
            final(self).wf(),
            final(self).exhausted() == old(self).exhausted(),
            final(self)@ == (if old(self)@.sets.contains_key(set) {
                old(self)@.with_set(
                    set,
                    SetView {
                        multi_receivers: old(self)@.sets[set].multi_receivers.remove(id),
                        ..old(self)@.sets[set]
                    },
                )
            } else {
                old(self)@
            }),
    {
        match self.sets.remove(&set) {
            Some(closed) => {
                let mut closed = closed;
                closed.channel_closed(id);
                let ghost state = closed@;
                self.sets.insert(set, closed);
                assert(self@ =~= old(self)@.with_set(set, state));
            },
            None => {
                assert(self@ =~= old(self)@);
            },
        }
    }

    /// Directs the messages for a subchannel of a receiving end to another
    /// mailbox.
    pub fn switch_sub_channel_sender(
        &mut self,
        id: ReceiverId,
        scid: SubChannelId,
        mailbox: MailboxId,
        mailboxes: &mut SubChannelMailboxes,
    ) -> (switched: Result<(), MuxError>)
        requires
            old(self).wf(),
            old(mailboxes).wf(),
            old(self)@.receivers.contains_key(id),
        ensures
            final(self).wf(),
            final(self).exhausted() == old(self).exhausted(),
            final(mailboxes).wf(),
            final(mailboxes).exhausted() == old(mailboxes).exhausted(),
            ({
                let before = old(self)@.receivers[id];
                match switched {
                    Ok(()) => {
                        &&& before.demuxer.sub_channels.contains_key(scid.0)
                        &&& final(self)@ == switched_to(old(self)@, id, scid, mailbox)
                        &&& final(mailboxes)@ == left_by_former(
                            before.demuxer,
                            scid,
                            old(mailboxes)@,
                        )
                    },
                    Err(e) => {
                        &&& !before.demuxer.sub_channels.contains_key(scid.0)
                        &&& e@ == missing_sub_channel(scid)
                        &&& final(self)@ == old(self)@
                        &&& final(mailboxes)@ == old(mailboxes)@
                    },
                }
            }),
    {
        match self.receivers.remove(&id) {
            Some(receiver) => {
                let mut receiver = receiver;
                let switched = receiver.switch_sub_channel_sender(scid, mailbox, mailboxes);
                let ghost state = receiver@;
                self.receivers.insert(id, receiver);
                proof {
                    assert(self@ =~= old(self)@.with_receiver(id, state));
                    if switched is Ok {
                        assert(state =~= switched_to(old(self)@, id, scid, mailbox).receivers[id]);
                    } else {
                        assert(self@ =~= old(self)@);
                    }
                }
                switched
            },
            None => {
                assert(false);
                Ok(())
            },
        }
    }

    /// Starts watching over the senders of a subchannel of a receiving end.
    pub fn attach(
        &mut self,
        id: ReceiverId,
        scid: SubChannelId,
        mailboxes: &mut SubChannelMailboxes,
    ) -> (receiver: SelectableSubChannelReceiver)
        requires
            old(self).wf(),
            old(self)@.receivers.contains_key(id),
            old(mailboxes).wf(),
            !old(mailboxes).exhausted(),
        ensures
            final(self).wf(),
            final(self).exhausted() == old(self).exhausted(),
            final(mailboxes).wf(),
            receiver == (SelectableSubChannelReceiver { receiver: id, sub_channel_id: scid }),
            exists|mailbox: MailboxId|
                {
                    &&& !old(mailboxes)@.contains_key(mailbox)
                    &&& final(self)@ == #[trigger] attached(old(self)@, id, scid, mailbox)
                    &&& final(mailboxes)@ == left_by_former(
                        old(self)@.receivers[id].demuxer,
                        scid,
                        old(mailboxes)@.insert(
                            mailbox,
                            MailboxView { messages: Seq::empty(), senders: 1, receiving: false },
                        ),
                    )
                },
    {
        match self.receivers.remove(&id) {
            Some(receiver) => {
                let mut receiver = receiver;
                let mailbox: MailboxId = receiver.attach(scid, mailboxes);
                let ghost state = receiver@;
                self.receivers.insert(id, receiver);
                proof {
                    assert(state =~= attached(old(self)@, id, scid, mailbox).receivers[id]);
                    assert(self@ =~= attached(old(self)@, id, scid, mailbox));
                }
            },
            None => {
                assert(false);
            },
        }
        SelectableSubChannelReceiver { receiver: id, sub_channel_id: scid }
    }
}

/// The receiving end that a message from the IPC receiver registered in a set
/// under the given id is for, unless it is gone.
pub open spec fn recipient(state: SelectablesView, set: SetId, id: u64) -> Option<ReceiverId> {
    if state.sets.contains_key(set) && state.sets[set].multi_receivers.contains_key(id)
        && state.receivers.contains_key(state.sets[set].multi_receivers[id]) {
        Some(state.sets[set].multi_receivers[id])
    } else {
        None
    }
}

/// A message from an IPC receiver registered in a set can be handled.
pub open spec fn selectable_receivable(
    state: SelectablesView,
    set: SetId,
    id: u64,
    message: MultiMessage,
    outcomes: Seq<Result<Connection, MuxError>>,
) -> bool {
    match recipient(state, set, id) {
        Some(receiver) => receivable(state.receivers[receiver].demuxer, message, outcomes),
        None => true,
    }
}

/// A message from an IPC receiver registered in a set has been handled by its
/// receiving end, or dropped if that is gone.
pub open spec fn member_handled(
    before: (SelectablesView, MailboxMap),
    set: SetId,
    id: u64,
    message: MultiMessage,
    outcomes: Seq<Result<Connection, MuxError>>,
    outcome: Handled,
    after: (SelectablesView, MailboxMap),
) -> bool {
    match recipient(before.0, set, id) {
        Some(receiver) => {
            &&& after.0 == before.0.with_receiver(receiver, after.0.receivers[receiver])
            &&& selectable_handled(
                before.0.receivers[receiver],
                before.1,
                message,
                outcomes,
                outcome,
                after.0.receivers[receiver],
                after.1,
            )
        },
        None => {
            &&& outcome.result is Ok
            &&& outcome.effects@.len() == 0
            &&& after == before
        },
    }
}

/// The messages for a subchannel of a receiving end go to another mailbox.
pub open spec fn switched_to(
    state: SelectablesView,
    id: ReceiverId,
    scid: SubChannelId,
    mailbox: MailboxId,
) -> SelectablesView {
    let before = state.receivers[id];
    state.with_receiver(
        id,
        SelectableView {
            demuxer: before.demuxer.with_sub_channel(
                scid,
                SubSenderView { sender: Some(mailbox), ..before.demuxer.sub_channels[scid.0] },
            ),
            ..before
        },
    )
}

/// The senders of a subchannel of a receiving end are watched over.
pub open spec fn attached(
    state: SelectablesView,
    id: ReceiverId,
    scid: SubChannelId,
    mailbox: MailboxId,
) -> SelectablesView {
    let before = state.receivers[id];
    state.with_receiver(
        id,
        SelectableView {
            demuxer: before.demuxer.with_sub_channel(
                scid,
                SubSenderView::initial(mailbox, ORIGIN),
            ),
            ..before
        },
    )
}

/// What came of waiting for the IPC channels of a set.
#[derive(Debug)]
pub enum SelectEvent {
    /// Something was received and has been handled with the given result.
    Handled(Result<(), MuxError>),
    /// Nothing was received, and a probe failed or not.
    Empty(bool),
    /// The operating system reported the given error.
    IoError(String),
}

impl MultiReceiverSet {
    /// How a batch of results from the IPC channels of a set ends after one of
    /// them has been handled with the given outcome, or `None` if it goes on:
    /// the first failure ends it.
    pub fn batch(outcome: Result<(), MuxError>) -> (ended: Option<SelectEvent>)
        ensures
            ended == (match outcome {
                Ok(()) => None,
                Err(e) => Some(SelectEvent::Handled(Err(e))),
            }),
    {
        match outcome {
            Ok(()) => None,
            Err(e) => Some(SelectEvent::Handled(Err(e))),
        }
    }

    /// How waiting for the IPC channels of a set ends, or `None` if it goes on.
    pub fn select(event: SelectEvent) -> (ended: Option<Result<(), MuxError>>)
        ensures
            ended == (match event {
                SelectEvent::Handled(result) => Some(result),
                SelectEvent::Empty(true) => Some(Ok(())),
                SelectEvent::Empty(false) => None,
                SelectEvent::IoError(reason) => Some(
                    Err(MuxError::IpcError(IpcError::Io(reason))),
                ),
            }),
    {
        match event {
            SelectEvent::Handled(result) => Some(result),
            SelectEvent::Empty(probe_failed) => if probe_failed {
                Some(Ok(()))
            } else {
                None
            },
            SelectEvent::IoError(reason) => Some(Err(MuxError::IpcError(IpcError::Io(reason)))),
        }
    }
}

/// What comes of polling the receiving ends in a set.
#[verifier::ext_equal]
pub struct PolledSet {
    pub state: SelectablesView,
    pub boxes: MailboxMap,
    /// A probe has failed.
    pub failed: bool,
}

/// One receiving end has polled its subchannels, if it is not gone.
pub open spec fn receiver_step(
    before: PolledSet,
    id: ReceiverId,
    lost: LostChannels,
    after: PolledSet,
) -> bool {
    if before.state.receivers.contains_key(id) {
        let polled = |failed: bool|
            selectable_polled(
                before.state.receivers[id],
                before.boxes,
                lost,
                failed,
                after.state.receivers[id],
                after.boxes,
            );
        &&& after.state == before.state.with_receiver(id, after.state.receivers[id])
        &&& (polled(true) && after.failed) || (polled(false) && after.failed == before.failed)
    } else {
        after == before
    }
}

/// The receiving ends registered in a set have polled their subchannels one
/// after the other.
pub open spec fn set_polled(
    set: SetView,
    before: PolledSet,
    ids: Seq<u64>,
    lost: LostChannels,
    after: PolledSet,
) -> bool
    decreases ids.len(),
{
    if ids.len() == 0 {
        after == before
    } else {
        exists|middle: PolledSet|
            {
                &&& set_polled(set, before, ids.drop_last(), lost, middle)
                &&& #[trigger] receiver_step(
                    middle,
                    set.multi_receivers[ids.last()],
                    lost,
                    after,
                )
            }
    }
}

/// Each registration in a set has been polled once, in some order.
pub open spec fn members_polled(
    before: PolledSet,
    set: SetId,
    lost: LostChannels,
    after: PolledSet,
) -> bool {
    if before.state.sets.contains_key(set) {
        exists|ids: Seq<u64>|
            {
                &&& ids.no_duplicates()
                &&& ids.to_set() == before.state.sets[set].multi_receivers.dom()
                &&& #[trigger] set_polled(before.state.sets[set], before, ids, lost, after)
            }
    } else {
        after == before
    }
}

/// The receiving ends of a set: those that are registered and the one that
/// waits to be.
pub open spec fn members(set: SetView) -> Set<ReceiverId> {
    match set.pending {
        Some(pending) => set.multi_receivers.values().insert(pending.receiver),
        None => set.multi_receivers.values(),
    }
}

/// A receiving end without clients.
pub open spec fn without_clients(receiver: SelectableView) -> SelectableView {
    SelectableView {
        demuxer: DemuxerView { clients: Map::empty(), ..receiver.demuxer },
        ..receiver
    }
}

/// The receiving ends of which the given ones have lost their clients.
pub open spec fn cleared(receivers: Map<ReceiverId, SelectableView>, ids: Set<ReceiverId>) -> Map<
    ReceiverId,
    SelectableView,
> {
    receivers.map_entries(
        |id: ReceiverId, receiver: SelectableView|
            if ids.contains(id) {
                without_clients(receiver)
            } else {
                receiver
            },
    )
}

/// The receiving ends of a set have lost their clients.
pub open spec fn closed(state: SelectablesView, set: SetId) -> SelectablesView {
    if state.sets.contains_key(set) {
        SelectablesView {
            receivers: cleared(state.receivers, members(state.sets[set])),
            ..state
        }
    } else {
        state
    }
}

impl Selectables {
    /// Polls the receiving ends registered in a set, given the channels that
    /// have been found to be gone.
    ///
    /// Returns whether a probe failed.
    pub fn poll_set(&mut self, set: SetId, lost: &LostChannels, mailboxes: &mut SubChannelMailboxes) -> (failed:
        bool)
        requires
            old(self).wf(),
            old(mailboxes).wf(),
        ensures
            final(self).wf(),
            final(self).exhausted() == old(self).exhausted(),
            final(mailboxes).wf(),
            final(mailboxes).exhausted() == old(mailboxes).exhausted(),
            members_polled(
                PolledSet { state: old(self)@, boxes: old(mailboxes)@, failed: false },
                set,
                *lost,
                PolledSet { state: final(self)@, boxes: final(mailboxes)@, failed },
            ),
    {
        let ids: Vec<u64> = match self.sets.get(&set) {
            Some(set) => set.registrations(),
            None => {
                return false;
            },
        };
        let ghost before = PolledSet { state: self@, boxes: mailboxes@, failed: false };
        let ghost polled = self@.sets[set];
        let mut failed: bool = false;
        assert(ids@.take(0) =~= Seq::<u64>::empty());
        let mut i: usize = 0;
        while i < ids.len()
            invariant
                i <= ids.len(),
                self.wf(),
                self.exhausted() == old(self).exhausted(),
                mailboxes.wf(),
                mailboxes.exhausted() == old(mailboxes).exhausted(),
                polled == old(self)@.sets[set],
                self@.sets == old(self)@.sets,
                self@.sets.contains_key(set),
                ids@.to_set() == polled.multi_receivers.dom(),
                set_polled(
                    polled,
                    before,
                    ids@.take(i as int),
                    *lost,
                    PolledSet { state: self@, boxes: mailboxes@, failed },
                ),
            decreases ids.len() - i,
        {
            let ghost middle = PolledSet { state: self@, boxes: mailboxes@, failed };
            let id: u64 = ids[i];
            proof {
                assert(ids@.contains(id));
                assert(ids@.to_set().contains(id));
                assert(ids@.take(i + 1).drop_last() =~= ids@.take(i as int));
                assert(ids@.take(i + 1).last() == id);
            }
            let receiver: Option<ReceiverId> = match self.sets.get(&set) {
                Some(set) => set.receiver_for(id),
                None => None,
            };
            match receiver {
                Some(rid) => match self.receivers.remove(&rid) {
                    Some(receiver) => {
                        let mut receiver = receiver;
                        let receiver_failed: bool = receiver.poll(lost, mailboxes);
                        let ghost state = receiver@;
                        self.receivers.insert(rid, receiver);
                        if receiver_failed {
                            failed = true;
                        }
                        proof {
                            assert(self@ =~= middle.state.with_receiver(rid, state));
                            assert(selectable_polled(
                                middle.state.receivers[rid],
                                middle.boxes,
                                *lost,
                                receiver_failed,
                                self@.receivers[rid],
                                mailboxes@,
                            ));
                        }
                    },
                    None => {
                        assert(self@ =~= middle.state);
                    },
                },
                None => {
                    assert(false);
                },
            }
            proof {
                let after = PolledSet { state: self@, boxes: mailboxes@, failed };
                assert(receiver_step(middle, polled.multi_receivers[id], *lost, after));
                assert(set_polled(polled, before, ids@.take(i + 1), *lost, after));
            }
            i += 1;
        }
        assert(ids@.take(ids@.len() as int) =~= ids@);
        failed
    }

    fn clear_receiver(&mut self, id: ReceiverId)
        requires
            old(self).wf(),
        ensures
            final(self).wf(),
            final(self).exhausted() == old(self).exhausted(),
            final(self).sets == old(self).sets,
            final(self)@ == (SelectablesView {
                receivers: cleared(old(self)@.receivers, set![id]),
                ..old(self)@
            }),
    {
        match self.receivers.remove(&id) {
            Some(receiver) => {
                let mut receiver = receiver;
                receiver.close();
                self.receivers.insert(id, receiver);
                assert(self@.receivers =~= cleared(old(self)@.receivers, set![id]));
            },
            None => {
                assert(self@.receivers =~= cleared(old(self)@.receivers, set![id]));
            },
        }
    }

    /// Closes the response channels of the receiving ends of a set, by which
    /// their senders learn that nobody receives any more.
    pub fn close(&mut self, set: SetId)
        requires
            old(self).wf(),
        ensures
            final(self).wf(),
            final(self).exhausted() == old(self).exhausted(),
            final(self)@ == closed(old(self)@, set),
    {
        let (ids, pending): (Vec<u64>, Option<Pending>) = match self.sets.get(&set) {
            Some(set) => (set.registrations(), set.pending()),
            None => {
                return ;
            },
        };
        let ghost closing = self@.sets[set];
        let ghost mut done: Set<ReceiverId> = Set::empty();
        assert(self@.receivers =~= cleared(old(self)@.receivers, done));
        let mut i: usize = 0;
        while i < ids.len()
            invariant
                i <= ids.len(),
                self.wf(),
                self.exhausted() == old(self).exhausted(),
                self.sets == old(self).sets,
                self@.sets == old(self)@.sets,
                self@.sets.contains_key(set),
                closing == self@.sets[set],
                ids@.to_set() == closing.multi_receivers.dom(),
                forall|id: ReceiverId| #[trigger]
                    done.contains(id) <==> exists|k: int|
                        0 <= k < i && closing.multi_receivers[#[trigger] ids@[k]] == id,
                self@.receivers == cleared(old(self)@.receivers, done),
            decreases ids.len() - i,
        {
            let id: u64 = ids[i];
            let ghost done_before = done;
            let ghost before = self@.receivers;
            proof {
                assert(ids@.contains(id));
                assert(ids@.to_set().contains(id));
            }
            let receiver: Option<ReceiverId> = match self.sets.get(&set) {
                Some(set) => set.receiver_for(id),
                None => None,
            };
            match receiver {
                Some(rid) => {
                    self.clear_receiver(rid);
                    proof {
                        done = done.insert(rid);
                        assert(self@.receivers =~= cleared(old(self)@.receivers, done));
                        assert forall|r: ReceiverId| #[trigger]
                            done.contains(r) <==> exists|k: int|
                                0 <= k < i + 1 && closing.multi_receivers[#[trigger] ids@[k]] == r by {
                            if done_before.contains(r) {
                                let k = choose|k: int|
                                    0 <= k < i && closing.multi_receivers[#[trigger] ids@[k]] == r;
                                assert(closing.multi_receivers[ids@[k]] == r);
                            }
                            if r == rid {
                                assert(closing.multi_receivers[ids@[i as int]] == r);
                            }
                            if exists|k: int|
                                0 <= k < i + 1 && closing.multi_receivers[#[trigger] ids@[k]] == r {
                                let k = choose|k: int|
                                    0 <= k < i + 1 && closing.multi_receivers[#[trigger] ids@[k]] == r;
                                if k < i {
                                    assert(done_before.contains(r));
                                }
                            }
                        }
                    }
                },
                None => {
                    assert(false);
                },
            }
            i += 1;
        }
        proof {
            assert forall|id: ReceiverId| done.contains(id) <==> #[trigger]
                closing.multi_receivers.values().contains(id) by {
                if closing.multi_receivers.values().contains(id) {
                    let key = choose|key: u64|
                        closing.multi_receivers.contains_key(key) && closing.multi_receivers[key] == id;
                    assert(ids@.to_set().contains(key));
                    let k = choose|k: int| 0 <= k < ids@.len() && ids@[k] == key;
                    assert(closing.multi_receivers[ids@[k]] == id);
                }
                if done.contains(id) {
                    let k = choose|k: int|
                        0 <= k < ids@.len() && closing.multi_receivers[#[trigger] ids@[k]] == id;
                    assert(ids@.to_set().contains(ids@[k]));
                    assert(closing.multi_receivers.contains_key(ids@[k]));
                }
            }
            assert(done =~= closing.multi_receivers.values());
        }
        match pending {
            Some(pending) => {
                self.clear_receiver(pending.receiver);
            },
            None => {},
        }
        assert(self@.receivers =~= cleared(old(self)@.receivers, members(closing)));
    }
}

/// The sending end of a channel whose subchannels are received from through
/// sets, and its receiving end.
pub struct SelectableChannel {
    pub multi_sender: MultiSender,
    pub multi_sender_id: MultiSenderId,
    pub receiver: ReceiverId,
}

/// The ends of a multiplexing channel whose subchannels are received from
/// through sets, given what came of creating its forward channel, its response
/// channel and the means to wait for several channels.
pub fn selectable_multi_channel(
    id: MultiSenderId,
    forward: Result<(Arc<ForwardSender>, u64), IpcError>,
    response: Result<(ResponseSender, ResponseReceiver), IpcError>,
    waiting: Result<(), IpcError>,
    sources: &mut SourceTable,
    selectables: &mut Selectables,
) -> (channel: Result<SelectableChannel, MuxError>)
    requires
        old(sources).wf(),
        !old(sources).exhausted(),
        old(selectables).wf(),
        !old(selectables).exhausted(),
    ensures
        final(sources).wf(),
        final(selectables).wf(),
        (match channel {
            Ok(channel) => {
                &&& forward is Ok
                &&& response is Ok
                &&& waiting is Ok
                &&& new_selectable_channel(
                    channel,
                    id,
                    forward->Ok_0,
                    response->Ok_0,
                    old(selectables)@,
                    final(selectables)@,
                )
                &&& !old(sources)@.contains_key(channel.multi_sender@.sender_id)
                &&& final(sources)@ == old(sources)@.insert(
                    channel.multi_sender@.sender_id,
                    Set::empty(),
                )
            },
            Err(e) => {
                &&& forward is Err || response is Err || waiting is Err
                &&& e == match (forward, response) {
                    (Err(e), _) => mux_error(e),
                    (_, Err(e)) => mux_error(e),
                    _ => mux_error(waiting->Err_0),
                }
                &&& final(sources)@ == old(sources)@
                &&& final(selectables)@ == old(selectables)@
            },
        }),
{
    let (ipc_sender, ipc_receiver) = match forward {
        Ok(forward) => forward,
        Err(e) => {
            return Err(MuxError::from(e));
        },
    };
    let (response_sender, response_receiver) = match response {
        Ok(response) => response,
        Err(e) => {
            return Err(MuxError::from(e));
        },
    };
    match waiting {
        Ok(()) => {},
        Err(e) => {
            return Err(MuxError::from(e));
        },
    }
    let client_id = ClientId::new();
    let receiver: ReceiverId = selectables.add_receiver(
        new_uuid(),
        Demuxer::with_sender(client_id, response_sender),
        ipc_receiver,
    );
    let multi_sender = MultiSender::new(client_id, ipc_sender, response_receiver, sources);
    Ok(SelectableChannel { multi_sender, multi_sender_id: id, receiver })
}

/// The ends of a new channel whose subchannels are received from through sets:
/// the client is connected and the IPC receiver waits to be registered in a set
/// of its own.
pub open spec fn new_selectable_channel(
    channel: SelectableChannel,
    id: MultiSenderId,
    forward: (Arc<ForwardSender>, u64),
    response: (ResponseSender, ResponseReceiver),
    before: SelectablesView,
    after: SelectablesView,
) -> bool {
    let client_id = channel.multi_sender@.client_id;
    let receiver = after.receivers[channel.receiver];
    &&& channel.multi_sender_id == id
    &&& is_random_uuid(client_id.0)
    &&& is_random_uuid(channel.multi_sender@.uuid)
    &&& is_random_uuid(receiver.uuid)
    &&& channel.multi_sender@ == connected_sender(
        client_id,
        *forward.0,
        channel.multi_sender@.uuid,
        channel.multi_sender@.sender_id,
        response.1,
    )
    &&& !before.receivers.contains_key(channel.receiver)
    &&& !before.sets.contains_key(receiver.set)
    &&& after == before.with_set(
        receiver.set,
        SetView {
            pending: Some(Pending { ipc_receiver: forward.1, receiver: channel.receiver }),
            ..SetView::initial()
        },
    ).with_receiver(channel.receiver, receiver)
    &&& receiver.demuxer == DemuxerView {
        clients: map![client_id.0 => response.0],
        sub_channels: Map::empty(),
        disconnectors: Map::empty(),
        senders: Map::empty(),
    }
}

impl SelectableChannel {
    /// Constructs a new channel.
    pub fn new(
        id: MultiSenderId,
        forward: Result<(Arc<ForwardSender>, u64), IpcError>,
        response: Result<(ResponseSender, ResponseReceiver), IpcError>,
        waiting: Result<(), IpcError>,
        sources: &mut SourceTable,
        selectables: &mut Selectables,
    ) -> (channel: Result<SelectableChannel, MuxError>)
        requires
            old(sources).wf(),
            !old(sources).exhausted(),
            old(selectables).wf(),
            !old(selectables).exhausted(),
        ensures
            final(sources).wf(),
            final(selectables).wf(),
            (match channel {
                Ok(channel) => {
                    &&& forward is Ok
                    &&& response is Ok
                    &&& waiting is Ok
                    &&& new_selectable_channel(
                        channel,
                        id,
                        forward->Ok_0,
                        response->Ok_0,
                        old(selectables)@,
                        final(selectables)@,
                    )
                    &&& !old(sources)@.contains_key(channel.multi_sender@.sender_id)
                    &&& final(sources)@ == old(sources)@.insert(
                        channel.multi_sender@.sender_id,
                        Set::empty(),
                    )
                },
                Err(e) => {
                    &&& forward is Err || response is Err || waiting is Err
                    &&& e == match (forward, response) {
                        (Err(e), _) => mux_error(e),
                        (_, Err(e)) => mux_error(e),
                        _ => mux_error(waiting->Err_0),
                    }
                    &&& final(sources)@ == old(sources)@
                    &&& final(selectables)@ == old(selectables)@
                },
            }),
    {
        selectable_multi_channel(id, forward, response, waiting, sources, selectables)
    }

    /// Constructs a new subchannel: its sending and its receiving end.
    pub fn sub_channel<T>(
        &mut self,
        selectables: &mut Selectables,
        mailboxes: &mut SubChannelMailboxes,
    ) -> (ends: (SubSender<T>, SelectableSubReceiver<T>))
        requires
            old(selectables).wf(),
            old(selectables)@.receivers.contains_key(old(self).receiver),
            old(mailboxes).wf(),
            !old(mailboxes).exhausted(),
        ensures
            final(selectables).wf(),
            final(selectables).exhausted() == old(selectables).exhausted(),
            final(mailboxes).wf(),
            is_random_uuid(ends.0.sub_channel_sender.sub_channel_id.0),
            *ends.0.sub_channel_sender.ipc_sender == old(self).multi_sender@.ipc_sender,
            ends.0.sub_channel_sender.ipc_sender_uuid == old(self).multi_sender@.uuid,
            ends.0.sub_channel_sender.sender_id == old(self).multi_sender@.sender_id,
            ends.0.sub_channel_sender.multi_sender == old(self).multi_sender_id,
            *ends.0.sub_channel_sender.disconnector == (SubChannelDisconnector {
                sub_channel_id: ends.0.sub_channel_sender.sub_channel_id,
                ipc_sender: ends.0.sub_channel_sender.ipc_sender,
                source: ORIGIN,
                multi_sender: old(self).multi_sender_id,
            }),
            ends.1.sub_channel_receiver == (SelectableSubChannelReceiver {
                receiver: old(self).receiver,
                sub_channel_id: ends.0.sub_channel_sender.sub_channel_id,
            }),
            final(self).receiver == old(self).receiver,
            final(self).multi_sender_id == old(self).multi_sender_id,
            final(self).multi_sender@ == (MultiSenderView {
                proxies: old(self).multi_sender@.proxies.insert(ends.0.sub_channel_sender.sub_channel_id.0, false),
                ..old(self).multi_sender@
            }),
            exists|mailbox: MailboxId|
                {
                    &&& !old(mailboxes)@.contains_key(mailbox)
                    &&& final(selectables)@ == #[trigger] attached(
                        old(selectables)@,
                        old(self).receiver,
                        ends.0.sub_channel_sender.sub_channel_id,
                        mailbox,
                    )
                    &&& final(mailboxes)@ == left_by_former(
                        old(selectables)@.receivers[old(self).receiver].demuxer,
                        ends.0.sub_channel_sender.sub_channel_id,
                        old(mailboxes)@.insert(
                            mailbox,
                            MailboxView { messages: Seq::empty(), senders: 1, receiving: false },
                        ),
                    )
                },
    {
        let sender = SubChannelSender::new(&self.multi_sender, self.multi_sender_id);
        let scid = sender.sub_channel_id();
        self.multi_sender.insert_sub_receiver_proxy(scid, SubReceiverProxy::new());
        let receiver = selectables.attach(self.receiver, scid, mailboxes);
        (SubSender::from_sender(sender), SelectableSubReceiver::from_receiver(receiver))
    }
}

} // verus!
