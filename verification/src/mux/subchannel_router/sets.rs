//! What the smaller operations on sets of receivers and on the receiving ends in
//! them do.

use crate::mux::demux::{
    named_in, to_connect, Connection, Demuxer, Effect, Handled, SubChannelMailboxes,
};
use crate::mux::error::{mux_error, IpcError, MuxError, MuxErrorView};
use crate::mux::mailbox::MailboxId;
use crate::mux::protocol::{
    MultiMessage, ResponseReceiver, ResponseSender, SubChannelId, ORIGIN,
};
use crate::mux::receiver::DeserializationContext;
use crate::mux::sender::{MultiSenderId, SourceTable};
use crate::mux::sender_id::ForwardSender;
use crate::mux::sending::is_connected_sender;
use crate::mux::subchannel_endpoint::SubSender;
use crate::mux::subchannel_router::membership::{
    has_no_receivers, is_new, loses_sender, only_subchannel, unchanged,
};
use crate::mux::subchannel_router::receiver_set::{RawMessage, SubReceiverSet};
use crate::mux::subchannel_router::select::{
    selectable_multi_channel, MultiReceiverSet, OpaqueSelectableSubReceiver, Pending, ReceiverId,
    SelectableChannel, SelectableMultiReceiver, SelectableSubChannelReceiver,
    SelectableSubReceiver, Selectables, SelectablesView, SetId, SetView,
};
use crate::mux::subchannel_router::Router;
use crate::mux::uuids::{hyphenated, Uuid};
use std::collections::VecDeque;
use std::sync::Arc;
use vstd::prelude::*;

verus! {

/// All registrations in a set but the given one are as they were.
pub open spec fn registrations_stay(was: SetView, id: u64, now: SetView) -> bool {
    forall|other: u64|
        #![trigger was.multi_receivers.contains_key(other)]
        #![trigger now.multi_receivers.contains_key(other)]
        other != id ==> {
            &&& now.multi_receivers.contains_key(other) == was.multi_receivers.contains_key(other)
            &&& was.multi_receivers.contains_key(other) ==> now.multi_receivers[other]
                == was.multi_receivers[other]
        }
}

/// A set is empty at first, and merged into no other. It is empty as long as
/// nothing is registered in it and no IPC receiver waits. It tells which
/// receiving end is registered under an id, and under which ids there is one.
pub proof fn law_set_tells_what_is_registered(
    created: MultiReceiverSet,
    set: &MultiReceiverSet,
    empty: bool,
    id: u64,
    receiver: Option<ReceiverId>,
    ids: Vec<u64>,
    pending: Option<Pending>,
    target: SetId,
    merged: bool,
)
    requires
        call_ensures(MultiReceiverSet::new, (), created),
        call_ensures(MultiReceiverSet::is_empty, (set,), empty),
        call_ensures(MultiReceiverSet::receiver_for, (set, id), receiver),
        call_ensures(MultiReceiverSet::registrations, (set,), ids),
        call_ensures(MultiReceiverSet::pending, (set,), pending),
        call_ensures(MultiReceiverSet::is_merged_into, (set, target), merged),
    ensures
        has_no_receivers(created@),
        created@.merged_into is None,
        empty <==> has_no_receivers(set@),
        receiver is Some <==> set@.multi_receivers.contains_key(id),
        receiver matches Some(end) ==> set@.multi_receivers[id] == end,
        ids@.no_duplicates(),
        ids@.contains(id) <==> set@.multi_receivers.contains_key(id),
        pending == set@.pending,
        merged <==> set@.merged_into == Some(target),
{
    if has_no_receivers(set@) {
        assert(set@.multi_receivers =~= Map::<u64, ReceiverId>::empty());
    }
    assert(ids@.contains(id) <==> ids@.to_set().contains(id));
    assert(set@.multi_receivers.dom().contains(id) <==> ids@.to_set().contains(id));
}

/// An IPC receiver waits in a set until it is taken out. A receiving end that is
/// registered is there under its id, and one whose channel is closed is not. A
/// set that is merged is merged into the given one. Nothing else changes.
pub proof fn law_set_keeps_what_it_is_given(
    waiting: &mut MultiReceiverSet,
    pending: Pending,
    taken_from: &mut MultiReceiverSet,
    taken: Option<Pending>,
    merging: &mut MultiReceiverSet,
    id: u64,
    receiver: ReceiverId,
    closing: &mut MultiReceiverSet,
    merged: &mut MultiReceiverSet,
    target: SetId,
)
    requires
        call_ensures(MultiReceiverSet::set_pending, (waiting, pending), ()),
        call_ensures(MultiReceiverSet::take_pending, (taken_from,), taken),
        call_ensures(MultiReceiverSet::merge_receiver, (merging, id, receiver), ()),
        call_ensures(MultiReceiverSet::channel_closed, (closing, id), ()),
        call_ensures(MultiReceiverSet::set_merged_into, (merged, target), ()),
    ensures
        final(waiting)@.pending == Some(pending),
        final(waiting)@.multi_receivers == old(waiting)@.multi_receivers,
        final(waiting)@.merged_into == old(waiting)@.merged_into,
        taken == old(taken_from)@.pending,
        final(taken_from)@.pending is None,
        final(taken_from)@.multi_receivers == old(taken_from)@.multi_receivers,
        final(taken_from)@.merged_into == old(taken_from)@.merged_into,
        final(merging)@.multi_receivers.contains_key(id),
        final(merging)@.multi_receivers[id] == receiver,
        registrations_stay(old(merging)@, id, final(merging)@),
        final(merging)@.pending == old(merging)@.pending,
        final(merging)@.merged_into == old(merging)@.merged_into,
        !final(closing)@.multi_receivers.contains_key(id),
        registrations_stay(old(closing)@, id, final(closing)@),
        final(closing)@.pending == old(closing)@.pending,
        final(closing)@.merged_into == old(closing)@.merged_into,
        final(merged)@.merged_into == Some(target),
        final(merged)@.multi_receivers == old(merged)@.multi_receivers,
        final(merged)@.pending == old(merged)@.pending,
{
}

/// An IPC receiver that waits in a set is registered there, under the id that it
/// was given, for its receiving end, and waits no longer. If it could not be
/// registered, it waits no longer either, and the failure is told. If none
/// waits, nothing changes.
pub proof fn law_waiting_receiver_is_registered_once(
    set: &mut MultiReceiverSet,
    registered: Result<u64, IpcError>,
    result: Result<(), MuxError>,
)
    requires
        call_ensures(MultiReceiverSet::register_pending, (set, registered), result),
    ensures
        final(set)@.pending is None,
        final(set)@.merged_into == old(set)@.merged_into,
        old(set)@.pending matches Some(pending) ==> (registered matches Ok(id) ==> {
            &&& result is Ok
            &&& final(set)@.multi_receivers.contains_key(id)
            &&& final(set)@.multi_receivers[id] == pending.receiver
            &&& registrations_stay(old(set)@, id, final(set)@)
        }),
        old(set)@.pending is Some ==> (registered matches Err(e) ==> {
            &&& result == Err::<(), MuxError>(mux_error(e))
            &&& final(set)@.multi_receivers == old(set)@.multi_receivers
        }),
        old(set)@.pending is None ==> result is Ok && final(set)@ == old(set)@,
{
}

/// A receiving end in a set is what it was made from. One that is closed knows
/// its clients no longer.
pub proof fn law_receiving_end_is_what_it_was_made_from(
    uuid: Uuid,
    set: SetId,
    demuxer: Demuxer,
    created: SelectableMultiReceiver,
    told_set: SetId,
    told_demuxer: &Demuxer,
    closed: &mut SelectableMultiReceiver,
)
    requires
        call_ensures(SelectableMultiReceiver::new, (uuid, set, demuxer), created),
        call_ensures(SelectableMultiReceiver::multi_receiver_set, (&created,), told_set),
        call_ensures(SelectableMultiReceiver::demuxer, (&created,), told_demuxer),
        call_ensures(SelectableMultiReceiver::close, (closed,), ()),
    ensures
        created@.uuid == uuid,
        told_set == set,
        told_demuxer@ == demuxer@,
        forall|client: Uuid| !#[trigger] final(closed)@.demuxer.clients.contains_key(client),
        final(closed)@.uuid == old(closed)@.uuid,
        final(closed)@.set == old(closed)@.set,
        final(closed)@.demuxer.sub_channels == old(closed)@.demuxer.sub_channels,
        final(closed)@.demuxer.disconnectors == old(closed)@.demuxer.disconnectors,
        final(closed)@.demuxer.senders == old(closed)@.demuxer.senders,
{
}

/// The receiving end of a subchannel to be added to a set stays the same,
/// whatever messages it is taken to be for, and tells its subchannel and the set
/// of its receiving end.
pub proof fn law_member_stays_the_same<T>(
    receiver: SelectableSubChannelReceiver,
    typed: SelectableSubReceiver<T>,
    opaque: OpaqueSelectableSubReceiver,
    scid: SubChannelId,
    selectables: &Selectables,
    set: Option<SetId>,
    inner: SelectableSubChannelReceiver,
)
    requires
        call_ensures(SelectableSubReceiver::<T>::from_receiver, (receiver,), typed),
        call_ensures(SelectableSubReceiver::<T>::to_opaque, (typed,), opaque),
        call_ensures(OpaqueSelectableSubReceiver::sub_channel_id, (&opaque,), scid),
        call_ensures(
            OpaqueSelectableSubReceiver::multi_receiver_set,
            (&opaque, selectables),
            set,
        ),
        call_ensures(OpaqueSelectableSubReceiver::into_inner, (opaque,), inner),
    ensures
        inner == receiver,
        scid == receiver.sub_channel_id,
        set is Some <==> selectables@.receivers.contains_key(receiver.receiver),
        set matches Some(own) ==> selectables@.receivers[receiver.receiver].set == own,
{
}

/// All sets but the given one are as they were.
pub open spec fn other_sets_stay(
    before: SelectablesView,
    set: SetId,
    after: SelectablesView,
) -> bool {
    forall|other: SetId|
        #![trigger before.sets.contains_key(other)]
        #![trigger after.sets.contains_key(other)]
        other != set ==> {
            &&& after.sets.contains_key(other) == before.sets.contains_key(other)
            &&& before.sets.contains_key(other) ==> after.sets[other] == before.sets[other]
        }
}

/// All receiving ends but the given one are as they were.
pub open spec fn other_ends_stay(
    before: SelectablesView,
    id: ReceiverId,
    after: SelectablesView,
) -> bool {
    forall|other: ReceiverId|
        #![trigger before.receivers.contains_key(other)]
        #![trigger after.receivers.contains_key(other)]
        other != id ==> {
            &&& after.receivers.contains_key(other) == before.receivers.contains_key(other)
            &&& before.receivers.contains_key(other) ==> after.receivers[other]
                == before.receivers[other]
        }
}

/// There are no sets and no receiving ends at first. A set that is added is new
/// and empty. Sets and receiving ends are found by their ids, if they are there,
/// and a receiving end that is dropped is not.
pub proof fn law_sets_are_found_by_their_ids(
    created: Selectables,
    adding: &mut Selectables,
    added: SetId,
    selectables: &Selectables,
    set: SetId,
    found_set: Option<&MultiReceiverSet>,
    id: ReceiverId,
    found_end: Option<&SelectableMultiReceiver>,
    dropping: &mut Selectables,
)
    requires
        call_ensures(Selectables::new, (), created),
        call_ensures(Selectables::add_set, (adding,), added),
        call_ensures(Selectables::set, (selectables, set), found_set),
        call_ensures(Selectables::receiver, (selectables, id), found_end),
        call_ensures(Selectables::drop_receiver, (dropping, id), ()),
    ensures
        !created@.sets.contains_key(set),
        !created@.receivers.contains_key(id),
        !old(adding)@.sets.contains_key(added),
        final(adding)@.sets.contains_key(added),
        has_no_receivers(final(adding)@.sets[added]),
        final(adding)@.sets[added].merged_into is None,
        other_sets_stay(old(adding)@, added, final(adding)@),
        final(adding)@.receivers == old(adding)@.receivers,
        found_set is Some <==> selectables@.sets.contains_key(set),
        found_set matches Some(found) ==> selectables@.sets[set] == found@,
        found_end is Some <==> selectables@.receivers.contains_key(id),
        found_end matches Some(found) ==> selectables@.receivers[id] == found@,
        !final(dropping)@.receivers.contains_key(id),
        other_ends_stay(old(dropping)@, id, final(dropping)@),
        final(dropping)@.sets == old(dropping)@.sets,
{
}

/// The messages for a subchannel of a receiving end can be directed to another
/// mailbox if and only if the subchannel is known there. What is known of its
/// copies stays, the former mailbox loses a sender, and no other receiving end
/// and no set changes.
pub proof fn law_member_is_switched(
    selectables: &mut Selectables,
    id: ReceiverId,
    scid: SubChannelId,
    mailbox: MailboxId,
    mailboxes: &mut SubChannelMailboxes,
    switched: Result<(), MuxError>,
)
    requires
        call_ensures(
            Selectables::switch_sub_channel_sender,
            (selectables, id, scid, mailbox, mailboxes),
            switched,
        ),
        old(selectables)@.receivers.contains_key(id),
    ensures
        ({
            let was = old(selectables)@.receivers[id];
            let now = final(selectables)@.receivers[id];
            &&& switched is Ok <==> was.demuxer.sub_channels.contains_key(scid.0)
            &&& final(selectables)@.sets == old(selectables)@.sets
            &&& other_ends_stay(old(selectables)@, id, final(selectables)@)
            &&& final(selectables)@.receivers.contains_key(id)
            &&& now.uuid == was.uuid
            &&& now.set == was.set
            &&& switched is Ok ==> {
                &&& only_subchannel(was.demuxer, now.demuxer, scid.0)
                &&& now.demuxer.sub_channels[scid.0].sender == Some(mailbox)
                &&& now.demuxer.sub_channels[scid.0].sources
                    == was.demuxer.sub_channels[scid.0].sources
                &&& now.demuxer.sub_channels[scid.0].in_flight
                    == was.demuxer.sub_channels[scid.0].in_flight
                &&& now.demuxer.sub_channels[scid.0].probes
                    == was.demuxer.sub_channels[scid.0].probes
                &&& forall|former: MailboxId|
                    #![trigger old(mailboxes)@.contains_key(former)]
                    #![trigger final(mailboxes)@.contains_key(former)]
                    if was.demuxer.sub_channels[scid.0].sender == Some(former) {
                        loses_sender(old(mailboxes)@, former, final(mailboxes)@)
                    } else {
                        unchanged(old(mailboxes)@, former, final(mailboxes)@)
                    }
            }
            &&& switched matches Err(e) ==> {
                &&& e@ == MuxErrorView::InternalError(
                    "missing sub_channel for "@ + hyphenated(scid.0),
                )
                &&& now == was
                &&& final(mailboxes)@ == old(mailboxes)@
            }
        }),
{
}

/// A subchannel that has just been created at a receiving end in a set is
/// connected there, but nobody receives from its mailbox, which is new, until it
/// is added to a set of receivers. No other receiving end and no set changes.
pub open spec fn waits_for_its_set(
    before: SelectablesView,
    id: ReceiverId,
    scid: SubChannelId,
    after: SelectablesView,
    mailbox: MailboxId,
) -> bool {
    &&& after.sets == before.sets
    &&& other_ends_stay(before, id, after)
    &&& after.receivers.contains_key(id)
    &&& after.receivers[id].uuid == before.receivers[id].uuid
    &&& after.receivers[id].set == before.receivers[id].set
    &&& only_subchannel(before.receivers[id].demuxer, after.receivers[id].demuxer, scid.0)
    &&& is_new(after.receivers[id].demuxer.sub_channels[scid.0], mailbox)
}

/// A new subchannel at a receiving end in a set waits to be added to a set of
/// receivers.
pub proof fn law_attached_member_waits(
    selectables: &mut Selectables,
    id: ReceiverId,
    scid: SubChannelId,
    mailboxes: &mut SubChannelMailboxes,
    receiver: SelectableSubChannelReceiver,
)
    requires
        call_ensures(Selectables::attach, (selectables, id, scid, mailboxes), receiver),
        !old(selectables)@.receivers[id].demuxer.sub_channels.contains_key(scid.0),
    ensures
        receiver.receiver == id,
        receiver.sub_channel_id == scid,
        exists|mailbox: MailboxId|
            {
                &&& #[trigger] waits_for_its_set(
                    old(selectables)@,
                    id,
                    scid,
                    final(selectables)@,
                    mailbox,
                )
                &&& !old(mailboxes)@.contains_key(mailbox)
                &&& final(mailboxes)@.contains_key(mailbox)
                &&& final(mailboxes)@[mailbox].messages.len() == 0
                &&& final(mailboxes)@[mailbox].senders == 1
                &&& !final(mailboxes)@[mailbox].receiving
                &&& forall|other: MailboxId|
                    #![trigger old(mailboxes)@.contains_key(other)]
                    other != mailbox ==> unchanged(old(mailboxes)@, other, final(mailboxes)@)
            },
{
    let mailbox = final(selectables)@.receivers[id].demuxer.sub_channels[scid.0].sender->0;
    assert(waits_for_its_set(old(selectables)@, id, scid, final(selectables)@, mailbox));
}

/// A message from an IPC receiver that no receiving end is registered for needs
/// nothing to be handled. One that comes without senders is handled by the
/// receiving end without outcomes, and with none that nothing asked for.
pub proof fn law_checked_message_is_handled_if_it_can_be(
    selectables: &mut Selectables,
    set: SetId,
    id: u64,
    message: MultiMessage,
    outcomes: VecDeque<Result<Connection, MuxError>>,
    mailboxes: &mut SubChannelMailboxes,
    outcome: Option<Handled>,
)
    requires
        call_ensures(
            Selectables::checked_message_received,
            (selectables, set, id, message, outcomes, mailboxes),
            outcome,
        ),
    ensures
        outcome is None ==> final(selectables)@ == old(selectables)@ && final(mailboxes)@ == old(
            mailboxes,
        )@,
        !old(selectables)@.sets.contains_key(set)
            || !old(selectables)@.sets[set].multi_receivers.contains_key(id) ==> outcome is Some,
        outcome is Some && (message is Connect || message is Received || message is Disconnect
            || message is ReceiveFailed) && old(selectables)@.sets.contains_key(set)
            && old(selectables)@.sets[set].multi_receivers.contains_key(id) && old(
            selectables,
        )@.receivers.contains_key(old(selectables)@.sets[set].multi_receivers[id])
            ==> outcomes@.len() == 0,
        (message is Connect || message is Received || message is Disconnect
            || message is ReceiveFailed) && outcomes@.len() == 0 ==> outcome is Some,
{
    let none = named_in(message);
    if message is Connect || message is Received || message is Disconnect
        || message is ReceiveFailed {
        assert(none.len() == 0);
        assert forall|known: Set<Uuid>| #[trigger] to_connect(known, none).len() == 0 by {}
    }
}

/// A channel whose subchannels are received from through sets is created if and
/// only if its IPC channels and the means to wait could be. Its sending end is
/// connected, and its receiving end is new, knows that one client, and is alone
/// in a new set, in which its IPC receiver waits. The first failure is the one
/// that is told, and changes nothing.
pub proof fn law_new_selectable_channel_is_connected(
    id: MultiSenderId,
    forward: Result<(Arc<ForwardSender>, u64), IpcError>,
    response: Result<(ResponseSender, ResponseReceiver), IpcError>,
    waiting: Result<(), IpcError>,
    sources: &mut SourceTable,
    selectables: &mut Selectables,
    created: Result<SelectableChannel, MuxError>,
)
    requires
        call_ensures(
            SelectableChannel::new,
            (id, forward, response, waiting, sources, selectables),
            created,
        ) || call_ensures(
            selectable_multi_channel,
            (id, forward, response, waiting, sources, selectables),
            created,
        ),
    ensures
        created is Ok <==> forward is Ok && response is Ok && waiting is Ok,
        created matches Ok(channel) ==> {
            let sender = channel.multi_sender@;
            let after = final(selectables)@;
            let end = after.receivers[channel.receiver];
            &&& channel.multi_sender_id == id
            &&& is_connected_sender(
                sender,
                sender.client_id,
                *forward->Ok_0.0,
                response->Ok_0.1,
                old(sources)@,
                final(sources)@,
            )
            &&& !old(selectables)@.receivers.contains_key(channel.receiver)
            &&& after.receivers.contains_key(channel.receiver)
            &&& other_ends_stay(old(selectables)@, channel.receiver, after)
            &&& !old(selectables)@.sets.contains_key(end.set)
            &&& after.sets.contains_key(end.set)
            &&& other_sets_stay(old(selectables)@, end.set, after)
            &&& after.sets[end.set].pending == Some(
                Pending { ipc_receiver: forward->Ok_0.1, receiver: channel.receiver },
            )
            &&& after.sets[end.set].merged_into is None
            &&& forall|reg: u64| !#[trigger] after.sets[end.set].multi_receivers.contains_key(reg)
            &&& forall|client: Uuid| #[trigger]
                end.demuxer.clients.contains_key(client) <==> client == sender.client_id.0
            &&& end.demuxer.clients[sender.client_id.0] == response->Ok_0.0
            &&& forall|scid: Uuid| !#[trigger] end.demuxer.sub_channels.contains_key(scid)
            &&& forall|uuid: Uuid| !#[trigger] end.demuxer.senders.contains_key(uuid)
        },
        created is Err ==> final(sources)@ == old(sources)@ && final(selectables)@ == old(
            selectables,
        )@,
        forward matches Err(e) ==> created == Err::<SelectableChannel, MuxError>(mux_error(e)),
        forward is Ok ==> (response matches Err(e) ==> created == Err::<
            SelectableChannel,
            MuxError,
        >(mux_error(e))),
        forward is Ok && response is Ok ==> (waiting matches Err(e) ==> created == Err::<
            SelectableChannel,
            MuxError,
        >(mux_error(e))),
{
}

/// Both ends of a new subchannel of a channel in a set are for the same
/// subchannel. Its subsender sends over the channel, which watches over the
/// receiver and takes it to be connected, and its receiver waits to be added to
/// a set of receivers.
pub proof fn law_new_selectable_subchannel_connects_its_ends<T>(
    channel: &mut SelectableChannel,
    selectables: &mut Selectables,
    mailboxes: &mut SubChannelMailboxes,
    ends: (SubSender<T>, SelectableSubReceiver<T>),
)
    requires
        call_ensures(
            SelectableChannel::sub_channel::<T>,
            (channel, selectables, mailboxes),
            ends,
        ),
        !old(selectables)@.receivers[old(channel).receiver].demuxer.sub_channels.contains_key(
            ends.0.sub_channel_sender.sub_channel_id.0,
        ),
    ensures
        ({
            let sender = ends.0.sub_channel_sender;
            let scid = sender.sub_channel_id;
            let own = old(channel).multi_sender@;
            &&& ends.1.sub_channel_receiver.receiver == old(channel).receiver
            &&& ends.1.sub_channel_receiver.sub_channel_id == scid
            &&& *sender.ipc_sender == own.ipc_sender
            &&& sender.ipc_sender_uuid == own.uuid
            &&& sender.sender_id == own.sender_id
            &&& sender.disconnector.sub_channel_id == scid
            &&& *sender.disconnector.ipc_sender == own.ipc_sender
            &&& sender.disconnector.source == ORIGIN
            &&& final(channel).receiver == old(channel).receiver
            &&& final(channel).multi_sender@.proxies.contains_key(scid.0)
            &&& !final(channel).multi_sender@.proxies[scid.0]
            &&& exists|mailbox: MailboxId|
                {
                    &&& #[trigger] waits_for_its_set(
                        old(selectables)@,
                        old(channel).receiver,
                        scid,
                        final(selectables)@,
                        mailbox,
                    )
                    &&& !old(mailboxes)@.contains_key(mailbox)
                    &&& final(mailboxes)@.contains_key(mailbox)
                    &&& final(mailboxes)@[mailbox].messages.len() == 0
                    &&& final(mailboxes)@[mailbox].senders == 1
                    &&& !final(mailboxes)@[mailbox].receiving
                    &&& forall|other: MailboxId|
                        #![trigger old(mailboxes)@.contains_key(other)]
                        other != mailbox ==> unchanged(old(mailboxes)@, other, final(mailboxes)@)
                }
        }),
{
    let scid = ends.0.sub_channel_sender.sub_channel_id;
    let id = old(channel).receiver;
    let mailbox = final(selectables)@.receivers[id].demuxer.sub_channels[scid.0].sender->0;
    assert(waits_for_its_set(old(selectables)@, id, scid, final(selectables)@, mailbox));
}

/// A set of receivers is created if and only if the means to wait could be. It
/// has no receivers, a set of receiving ends of its own, which is empty, and a
/// mailbox of its own, which is new and received from.
pub proof fn law_new_set_of_receivers_is_empty(
    waiting: Result<(), IpcError>,
    selectables: &mut Selectables,
    mailboxes: &mut SubChannelMailboxes,
    created: Result<SubReceiverSet, MuxError>,
    set: SubReceiverSet,
    own: SetId,
    mailbox: MailboxId,
    full: bool,
)
    requires
        call_ensures(SubReceiverSet::new, (waiting, selectables, mailboxes), created),
        created is Ok ==> set == created->Ok_0,
        call_ensures(SubReceiverSet::multi_receiver_set, (&set,), own),
        call_ensures(SubReceiverSet::mailbox, (&set,), mailbox),
        call_ensures(SubReceiverSet::is_full, (&set,), full),
    ensures
        created is Ok <==> waiting is Ok,
        full <==> set@.next_id == u64::MAX,
        created is Ok ==> {
            &&& set@.next_id == 0
            &&& forall|id: u64| !#[trigger] set@.rxs.contains_key(id)
            &&& forall|scid: Uuid| !#[trigger] set@.ids.contains_key(scid)
            &&& !old(selectables)@.sets.contains_key(own)
            &&& final(selectables)@.sets.contains_key(own)
            &&& has_no_receivers(final(selectables)@.sets[own])
            &&& other_sets_stay(old(selectables)@, own, final(selectables)@)
            &&& final(selectables)@.receivers == old(selectables)@.receivers
            &&& !old(mailboxes)@.contains_key(mailbox)
            &&& final(mailboxes)@.contains_key(mailbox)
            &&& final(mailboxes)@[mailbox].messages.len() == 0
            &&& final(mailboxes)@[mailbox].senders == 1
            &&& final(mailboxes)@[mailbox].receiving
            &&& forall|other: MailboxId|
                #![trigger old(mailboxes)@.contains_key(other)]
                other != mailbox ==> unchanged(old(mailboxes)@, other, final(mailboxes)@)
        },
        waiting matches Err(e) ==> {
            &&& created == Err::<SubReceiverSet, MuxError>(mux_error(e))
            &&& final(selectables)@ == old(selectables)@
            &&& final(mailboxes)@ == old(mailboxes)@
        },
{
}

/// Decoding a message that was selected finds its bytes, its subsenders in
/// order and its subchannel. Subsenders left from an earlier message are let go
/// of.
pub proof fn law_selected_message_is_decoded(
    raw: RawMessage,
    context: &mut DeserializationContext,
    begun: (Vec<u8>, Vec<Effect>),
)
    requires
        call_ensures(RawMessage::begin_to, (raw, context), begun),
    ensures
        begun.0 == raw.message.payload,
        final(context).senders@ == raw.message.senders@,
        final(context).via == raw.message.scid,
        final(context).regions@.len() == raw.message.attachments.shmems@.len(),
        forall|i: int|
            #![trigger final(context).regions@[i]]
            0 <= i < final(context).regions@.len() ==> final(context).regions@[i] == Some(
                raw.message.attachments.shmems@[i],
            ),
        final(context).ipc_senders@.len() == raw.message.attachments.ipc_senders@.len(),
        forall|i: int|
            #![trigger final(context).ipc_senders@[i]]
            0 <= i < final(context).ipc_senders@.len() ==> final(context).ipc_senders@[i] == Some(
                raw.message.attachments.ipc_senders@[i],
            ),
        final(context).ipc_receivers@.len() == raw.message.attachments.ipc_receivers@.len(),
        forall|i: int|
            #![trigger final(context).ipc_receivers@[i]]
            0 <= i < final(context).ipc_receivers@.len() ==> final(context).ipc_receivers@[i]
                == Some(raw.message.attachments.ipc_receivers@[i]),
        begun.1@.len() == old(context).senders@.len(),
        forall|i: int|
            #![trigger begun.1@[i]]
            0 <= i < begun.1@.len() ==> begun.1@[i] == Effect::Release(
                old(context).senders@[i].disconnector,
            ),
{
}

/// A router that is new has no handlers, and is woken up by the given receiver.
pub proof fn law_new_router_has_no_handlers<H>(wakeup: u64, router: Router<H>, id: u64)
    requires
        call_ensures(Router::<H>::new, (wakeup,), router),
    ensures
        router@.wakeup == wakeup,
        !router@.handlers.contains_key(id),
{
}

} // verus!
