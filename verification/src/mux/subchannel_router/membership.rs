//! What joins, stays in and leaves sets of receivers.

use crate::mux::demux::{
    releases, Demuxer, DemuxerView, Effect, MailboxMap, Probe, ResolvedMessageOrDisconnect,
    SubChannelMailboxes,
};
use crate::mux::error::{mux_error, IpcError, MuxError, MuxErrorView};
use crate::mux::mailbox::MailboxId;
use crate::mux::protocol::{SubChannelId, ORIGIN};
use crate::mux::receiver::{MultiReceiver, SubChannelReceiver};
use crate::mux::receiving::subsenders_in;
use crate::mux::subchannel_lifecycle::SubSenderView;
use crate::mux::subchannel_router::receiver_set::{
    collected, dropped, let_go, select_step, sub_channel_of, SelectStep, Selection, SubReceiverSet,
    SubReceiverSetView, SubSelectionResult,
};
use crate::mux::subchannel_router::select::{
    closed, joined, registration, JoinError, MultiReceiverSet, OpaqueSelectableSubReceiver,
    Pending, ReceiverId, SelectEvent, SelectableMultiReceiver, SelectableSubChannelReceiver,
    SelectableSubReceiver, Selectables, SetId, SetView,
};
use crate::mux::uuids::{hyphenated, Uuid};
use vstd::prelude::*;

verus! {

/// What is known of the senders of a subchannel that has just been created: its
/// messages go to a mailbox, and one copy of its subsender is held, where it was
/// created.
pub open spec fn is_new(state: SubSenderView<MailboxId, Probe>, mailbox: MailboxId) -> bool {
    &&& state.sender == Some(mailbox)
    &&& forall|source: u128| #[trigger] state.sources.contains(source) <==> source == ORIGIN
    &&& forall|via: u128| #[trigger] state.in_flight.count(via) == 0
    &&& forall|via: u128| !#[trigger] state.probes.contains_key(via)
}

/// One subchannel is known differently, or is new, and nothing else has changed.
pub open spec fn only_subchannel(before: DemuxerView, after: DemuxerView, scid: Uuid) -> bool {
    &&& after.clients == before.clients
    &&& after.disconnectors == before.disconnectors
    &&& after.senders == before.senders
    &&& after.sub_channels.contains_key(scid)
    &&& forall|other: Uuid|
        #![trigger after.sub_channels.contains_key(other)]
        #![trigger before.sub_channels.contains_key(other)]
        other != scid ==> {
            &&& after.sub_channels.contains_key(other) == before.sub_channels.contains_key(other)
            &&& before.sub_channels.contains_key(other) ==> after.sub_channels[other]
                == before.sub_channels[other]
        }
}

/// A mailbox has one sender less, and is gone if nobody is left that sends to it
/// or receives from it. Its messages stay.
pub open spec fn loses_sender(boxes: MailboxMap, id: MailboxId, boxes_after: MailboxMap) -> bool {
    &&& !boxes.contains_key(id) ==> !boxes_after.contains_key(id)
    &&& boxes.contains_key(id) && (boxes[id].senders > 1 || boxes[id].receiving) ==> {
        &&& boxes_after.contains_key(id)
        &&& boxes[id].senders > 0 ==> boxes_after[id].senders == boxes[id].senders - 1
        &&& boxes[id].senders == 0 ==> boxes_after[id].senders == 0
        &&& boxes_after[id].messages == boxes[id].messages
        &&& boxes_after[id].receiving == boxes[id].receiving
    }
    &&& boxes.contains_key(id) && boxes[id].senders == 1 && !boxes[id].receiving
        ==> !boxes_after.contains_key(id)
}

/// A mailbox is as it was.
pub open spec fn unchanged(boxes: MailboxMap, id: MailboxId, boxes_after: MailboxMap) -> bool {
    &&& boxes_after.contains_key(id) == boxes.contains_key(id)
    &&& boxes.contains_key(id) ==> boxes_after[id] == boxes[id]
}

/// A mailbox to which a subchannel delivered loses a sender, and all other
/// mailboxes, except for one, are as they were.
pub open spec fn former_loses_sender(
    before: DemuxerView,
    scid: Uuid,
    boxes: MailboxMap,
    except: MailboxId,
    boxes_after: MailboxMap,
) -> bool {
    forall|id: MailboxId|
        #![trigger boxes.contains_key(id)]
        #![trigger boxes_after.contains_key(id)]
        id != except ==> if before.sub_channels.contains_key(scid)
            && before.sub_channels[scid].sender == Some(id) {
            loses_sender(boxes, id, boxes_after)
        } else {
            unchanged(boxes, id, boxes_after)
        }
}

/// A subchannel that a receiving end starts to receive from is connected, and
/// its messages go to a new, empty mailbox of its own. If the subchannel was
/// there before, its former mailbox loses a sender. All else stays.
pub proof fn law_attached_subchannel_is_connected(
    end: &mut MultiReceiver,
    scid: SubChannelId,
    mailboxes: &mut SubChannelMailboxes,
    receiver: SubChannelReceiver,
)
    requires
        call_ensures(MultiReceiver::attach, (end, scid, mailboxes), receiver),
        forall|id: Uuid|
            #![trigger old(end)@.demuxer.sub_channels[id]]
            old(end)@.demuxer.sub_channels.contains_key(id)
                ==> (old(end)@.demuxer.sub_channels[id].sender matches Some(mailbox)
                ==> old(mailboxes)@.contains_key(mailbox)),
    ensures
        receiver.sub_channel_id == scid,
        !old(mailboxes)@.contains_key(receiver.mailbox),
        final(end)@.uuid == old(end)@.uuid,
        only_subchannel(old(end)@.demuxer, final(end)@.demuxer, scid.0),
        is_new(final(end)@.demuxer.sub_channels[scid.0], receiver.mailbox),
        final(mailboxes)@.contains_key(receiver.mailbox),
        final(mailboxes)@[receiver.mailbox].messages.len() == 0,
        final(mailboxes)@[receiver.mailbox].senders == 1,
        final(mailboxes)@[receiver.mailbox].receiving,
        former_loses_sender(
            old(end)@.demuxer,
            scid.0,
            old(mailboxes)@,
            receiver.mailbox,
            final(mailboxes)@,
        ),
{
}

/// A new subchannel of a receiving end in a set is connected, but nobody
/// receives from its mailbox until it is added to a set of receivers. If the
/// subchannel was there before, its former mailbox loses a sender. All else
/// stays.
pub proof fn law_attached_member_waits_for_its_set(
    end: &mut SelectableMultiReceiver,
    scid: SubChannelId,
    mailboxes: &mut SubChannelMailboxes,
    mailbox: MailboxId,
)
    requires
        call_ensures(SelectableMultiReceiver::attach, (end, scid, mailboxes), mailbox),
        forall|id: Uuid|
            #![trigger old(end)@.demuxer.sub_channels[id]]
            old(end)@.demuxer.sub_channels.contains_key(id)
                ==> (old(end)@.demuxer.sub_channels[id].sender matches Some(mailbox)
                ==> old(mailboxes)@.contains_key(mailbox)),
    ensures
        !old(mailboxes)@.contains_key(mailbox),
        final(end)@.uuid == old(end)@.uuid,
        final(end)@.set == old(end)@.set,
        only_subchannel(old(end)@.demuxer, final(end)@.demuxer, scid.0),
        is_new(final(end)@.demuxer.sub_channels[scid.0], mailbox),
        final(mailboxes)@.contains_key(mailbox),
        final(mailboxes)@[mailbox].messages.len() == 0,
        final(mailboxes)@[mailbox].senders == 1,
        !final(mailboxes)@[mailbox].receiving,
        former_loses_sender(
            old(end)@.demuxer,
            scid.0,
            old(mailboxes)@,
            mailbox,
            final(mailboxes)@,
        ),
{
}

/// The messages for a subchannel can be directed to another mailbox if and only
/// if the subchannel is known. What is known of its copies stays, and the former
/// mailbox loses a sender.
pub proof fn law_switching_redirects(
    end: &mut SelectableMultiReceiver,
    scid: SubChannelId,
    mailbox: MailboxId,
    mailboxes: &mut SubChannelMailboxes,
    switched: Result<(), MuxError>,
)
    requires
        call_ensures(
            SelectableMultiReceiver::switch_sub_channel_sender,
            (end, scid, mailbox, mailboxes),
            switched,
        ),
    ensures
        switched is Ok <==> old(end)@.demuxer.sub_channels.contains_key(scid.0),
        final(end)@.uuid == old(end)@.uuid,
        final(end)@.set == old(end)@.set,
        switched is Ok ==> ({
            let was = old(end)@.demuxer.sub_channels[scid.0];
            let now = final(end)@.demuxer.sub_channels[scid.0];
            &&& only_subchannel(old(end)@.demuxer, final(end)@.demuxer, scid.0)
            &&& now.sender == Some(mailbox)
            &&& now.sources == was.sources
            &&& now.in_flight == was.in_flight
            &&& now.probes == was.probes
            &&& forall|id: MailboxId|
                #![trigger old(mailboxes)@.contains_key(id)]
                #![trigger final(mailboxes)@.contains_key(id)]
                if was.sender == Some(id) {
                    loses_sender(old(mailboxes)@, id, final(mailboxes)@)
                } else {
                    unchanged(old(mailboxes)@, id, final(mailboxes)@)
                }
        }),
        switched matches Err(e) ==> {
            &&& e@ == MuxErrorView::InternalError("missing sub_channel for "@ + hyphenated(scid.0))
            &&& final(end)@ == old(end)@
            &&& final(mailboxes)@ == old(mailboxes)@
        },
{
}

/// A set without registrations in which no IPC receiver waits.
pub open spec fn has_no_receivers(set: SetView) -> bool {
    &&& forall|id: u64| !#[trigger] set.multi_receivers.contains_key(id)
    &&& set.pending is None
}

proof fn lemma_no_receivers(set: SetView)
    ensures
        set.is_empty() == has_no_receivers(set),
{
    if has_no_receivers(set) {
        assert(set.multi_receivers =~= Map::<u64, ReceiverId>::empty());
    }
}

/// An IPC receiver waits in the set in which a channel was created and has to be
/// registered before the channel is received from through another set, unless
/// the one set has been merged into the other. It is registered in that other
/// set, or where it waits if nothing is in that other set yet. Nothing else has
/// to be registered.
pub proof fn law_waiting_receiver_is_registered(
    selectables: &Selectables,
    own: SetId,
    incoming: SetId,
    needed: Option<(SetId, Pending)>,
)
    requires
        call_ensures(Selectables::registration, (selectables, own, incoming), needed),
    ensures
        ({
            let target = selectables@.sets[own];
            let source = selectables@.sets[incoming];
            &&& needed is Some <==> own != incoming && source.pending is Some && (has_no_receivers(
                target,
            ) || source.merged_into != Some(own))
            &&& needed matches Some((set, pending)) ==> {
                &&& source.pending == Some(pending)
                &&& has_no_receivers(target) ==> set == incoming
                &&& !has_no_receivers(target) ==> set == own
            }
        }),
{
    lemma_no_receivers(selectables@.sets[own]);
}

/// What has been registered is what a set is then known to hold: if an IPC
/// receiver had to be registered, it is in the set that is received from
/// afterwards, under the id of the registration, and waits no longer. All that
/// was registered there under another id still is, and so is all that was
/// registered elsewhere. If the registration failed, nothing is registered. If
/// none was needed, nothing changes.
pub proof fn law_joining_keeps_what_was_registered(
    selectables: &mut Selectables,
    own: SetId,
    incoming: SetId,
    registered: Option<Result<u64, IpcError>>,
    result: (SetId, Option<JoinError>),
)
    requires
        call_ensures(Selectables::join, (selectables, own, incoming, registered), result),
        old(selectables)@.sets.contains_key(own),
        old(selectables)@.sets.contains_key(incoming),
        registration(old(selectables)@, own, incoming) is Some ==> registered is Some,
    ensures
        ({
            let before = old(selectables)@;
            let after = final(selectables)@;
            let needed = registration(before, own, incoming);
            &&& after.receivers == before.receivers
            &&& after.sets.dom() == before.sets.dom()
            &&& forall|set: SetId|
                #![trigger after.sets[set]]
                before.sets.contains_key(set) && set != own && set != incoming
                    ==> after.sets[set] == before.sets[set]
            &&& needed matches Some((set, pending)) ==> {
                &&& result.0 == set
                &&& registered matches Some(Ok(id)) ==> {
                    &&& result.1 is None
                    &&& after.sets[set].multi_receivers.contains_key(id)
                    &&& after.sets[set].multi_receivers[id] == pending.receiver
                    &&& forall|other: u64|
                        #![trigger after.sets[set].multi_receivers.contains_key(other)]
                        #![trigger before.sets[set].multi_receivers.contains_key(other)]
                        other != id ==> {
                            &&& after.sets[set].multi_receivers.contains_key(other)
                                == before.sets[set].multi_receivers.contains_key(other)
                            &&& before.sets[set].multi_receivers.contains_key(other)
                                ==> after.sets[set].multi_receivers[other]
                                == before.sets[set].multi_receivers[other]
                        }
                    &&& after.sets[incoming].pending is None
                    &&& set != incoming ==> {
                        &&& after.sets[incoming].merged_into == Some(set)
                        &&& after.sets[incoming].multi_receivers
                            == before.sets[incoming].multi_receivers
                        &&& after.sets[set].pending == before.sets[set].pending
                        &&& after.sets[set].merged_into == before.sets[set].merged_into
                    }
                    &&& set != own ==> after.sets[own] == before.sets[own]
                }
                &&& registered matches Some(Err(e)) ==> {
                    &&& result.1 == Some(JoinError::Registration(e))
                    &&& after.sets[incoming].pending is None
                    &&& after.sets[incoming].multi_receivers
                        == before.sets[incoming].multi_receivers
                    &&& after.sets[incoming].merged_into == before.sets[incoming].merged_into
                    &&& own != incoming ==> after.sets[own] == before.sets[own]
                }
            }
            &&& needed is None ==> after.sets == before.sets
        }),
{
    let before = old(selectables)@;
    let after = final(selectables)@;
    assert(after.sets.dom() =~= before.sets.dom());
    assert(registration(before, own, incoming) is None ==> after.sets =~= before.sets);
}

/// If nothing had to be registered, the subchannels of a channel can be received
/// from through a set if the channel was created in it, has been merged into it,
/// or is all that there is to receive from. Then the set of the channel takes
/// its place. Otherwise the channel is in use through another set.
pub proof fn law_joining_without_registration(
    selectables: &mut Selectables,
    own: SetId,
    incoming: SetId,
    registered: Option<Result<u64, IpcError>>,
    result: (SetId, Option<JoinError>),
)
    requires
        call_ensures(Selectables::join, (selectables, own, incoming, registered), result),
        old(selectables)@.sets.contains_key(own),
        old(selectables)@.sets.contains_key(incoming),
        registration(old(selectables)@, own, incoming) is None,
    ensures
        ({
            let target = old(selectables)@.sets[own];
            let source = old(selectables)@.sets[incoming];
            &&& result.1 is None <==> own == incoming || has_no_receivers(target)
                || source.merged_into == Some(own)
            &&& result.1 is Some ==> result.1->0 is OtherSet
            &&& own != incoming && has_no_receivers(target) ==> result.0 == incoming
            &&& own == incoming || !has_no_receivers(target) ==> result.0 == own
        }),
{
    lemma_no_receivers(old(selectables)@.sets[own]);
}

/// Once a channel has been received from through a set, its other subchannels
/// can be received from through that set too, and nothing has to be registered
/// for them.
pub proof fn law_joined_channel_needs_no_registration(
    selectables: &mut Selectables,
    own: SetId,
    incoming: SetId,
    registered: Option<Result<u64, IpcError>>,
    result: (SetId, Option<JoinError>),
)
    requires
        call_ensures(Selectables::join, (selectables, own, incoming, registered), result),
        old(selectables)@.sets.contains_key(own),
        old(selectables)@.sets.contains_key(incoming),
        registration(old(selectables)@, own, incoming) matches Some(_) && registered
            matches Some(Ok(_)),
        old(selectables)@.sets[own].pending is None,
    ensures
        registration(final(selectables)@, result.0, incoming) is None,
        joined(final(selectables)@, result.0, incoming, None).error is None,
        joined(final(selectables)@, result.0, incoming, None).set == result.0,
        joined(final(selectables)@, result.0, incoming, None).state == final(selectables)@,
{
    let after = final(selectables)@;
    lemma_no_receivers(after.sets[own]);
    lemma_no_receivers(old(selectables)@.sets[own]);
    match registered {
        Some(Ok(id)) => {
            assert(after.sets[result.0].multi_receivers.contains_key(id));
            lemma_no_receivers(after.sets[result.0]);
        },
        _ => {},
    }
}

/// When a set is given up, every receiving end that is registered in it or waits
/// to be forgets its clients, which closes their response channels. All else
/// that the receiving ends know stays, and so do all other receiving ends.
pub proof fn law_closing_a_set_forgets_clients(
    selectables: &mut Selectables,
    set: SetId,
    rid: ReceiverId,
)
    requires
        call_ensures(Selectables::close, (selectables, set), ()),
        old(selectables)@.receivers.contains_key(rid),
    ensures
        ({
            let before = old(selectables)@;
            let after = final(selectables)@;
            let was = before.receivers[rid];
            let now = after.receivers[rid];
            let member = before.sets.contains_key(set) && ((exists|id: u64| #[trigger]
                before.sets[set].multi_receivers.contains_key(id)
                    && before.sets[set].multi_receivers[id] == rid) || (
            before.sets[set].pending matches Some(pending) && pending.receiver == rid));
            &&& after.sets == before.sets
            &&& after.receivers.dom() == before.receivers.dom()
            &&& !member ==> now == was
            &&& member ==> {
                &&& forall|client: Uuid| !#[trigger] now.demuxer.clients.contains_key(client)
                &&& now.demuxer.sub_channels == was.demuxer.sub_channels
                &&& now.demuxer.disconnectors == was.demuxer.disconnectors
                &&& now.demuxer.senders == was.demuxer.senders
                &&& now.uuid == was.uuid
                &&& now.set == was.set
            }
        }),
{
    let before = old(selectables)@;
    let after = final(selectables)@;
    assert(after.receivers.dom() =~= before.receivers.dom());
    if before.sets.contains_key(set) {
        let values = before.sets[set].multi_receivers.values();
        if exists|id: u64| #[trigger]
            before.sets[set].multi_receivers.contains_key(id)
                && before.sets[set].multi_receivers[id] == rid {
            let id = choose|id: u64| #[trigger]
                before.sets[set].multi_receivers.contains_key(id)
                    && before.sets[set].multi_receivers[id] == rid;
            assert(before.sets[set].multi_receivers.dom().contains(id));
            assert(values.contains(rid));
        }
        if values.contains(rid) {
            let id = choose|id: u64| #[trigger]
                before.sets[set].multi_receivers.dom().contains(id)
                    && before.sets[set].multi_receivers[id] == rid;
            assert(before.sets[set].multi_receivers.contains_key(id));
        }
    }
}

/// An IPC receiver whose channel is closed is not registered any more. All other
/// registrations, in that set and in others, stay.
pub proof fn law_closed_channel_is_unregistered(
    selectables: &mut Selectables,
    set: SetId,
    id: u64,
)
    requires
        call_ensures(Selectables::channel_closed, (selectables, set, id), ()),
    ensures
        ({
            let before = old(selectables)@;
            let after = final(selectables)@;
            &&& after.receivers == before.receivers
            &&& after.sets.dom() == before.sets.dom()
            &&& forall|other: SetId|
                #![trigger after.sets[other]]
                before.sets.contains_key(other) && other != set ==> after.sets[other]
                    == before.sets[other]
            &&& before.sets.contains_key(set) ==> {
                &&& !after.sets[set].multi_receivers.contains_key(id)
                &&& after.sets[set].pending == before.sets[set].pending
                &&& after.sets[set].merged_into == before.sets[set].merged_into
                &&& forall|other: u64|
                    #![trigger after.sets[set].multi_receivers.contains_key(other)]
                    #![trigger before.sets[set].multi_receivers.contains_key(other)]
                    other != id ==> {
                        &&& after.sets[set].multi_receivers.contains_key(other)
                            == before.sets[set].multi_receivers.contains_key(other)
                        &&& before.sets[set].multi_receivers.contains_key(other)
                            ==> after.sets[set].multi_receivers[other]
                            == before.sets[set].multi_receivers[other]
                    }
            }
        }),
{
    assert(final(selectables)@.sets.dom() =~= old(selectables)@.sets.dom());
}

/// A new receiving end has an id of its own and is alone in a new set, in which
/// its IPC receiver waits to be registered. No other set or receiving end
/// changes.
pub proof fn law_new_receiving_end_waits(
    selectables: &mut Selectables,
    uuid: Uuid,
    demuxer: Demuxer,
    ipc_receiver: u64,
    id: ReceiverId,
)
    requires
        call_ensures(Selectables::add_receiver, (selectables, uuid, demuxer, ipc_receiver), id),
    ensures
        ({
            let before = old(selectables)@;
            let after = final(selectables)@;
            let set = after.receivers[id].set;
            &&& !before.receivers.contains_key(id)
            &&& after.receivers.contains_key(id)
            &&& after.receivers[id].uuid == uuid
            &&& after.receivers[id].demuxer == demuxer@
            &&& !before.sets.contains_key(set)
            &&& after.sets.contains_key(set)
            &&& after.sets[set].pending == Some(Pending { ipc_receiver, receiver: id })
            &&& after.sets[set].merged_into is None
            &&& forall|reg: u64| !#[trigger] after.sets[set].multi_receivers.contains_key(reg)
            &&& forall|other: ReceiverId|
                #![trigger before.receivers.contains_key(other)]
                before.receivers.contains_key(other) ==> after.receivers.contains_key(other)
                    && after.receivers[other] == before.receivers[other]
            &&& forall|other: SetId|
                #![trigger before.sets.contains_key(other)]
                before.sets.contains_key(other) ==> after.sets.contains_key(other)
                    && after.sets[other] == before.sets[other]
        }),
{
}

/// Waiting for the IPC channels of a set ends with what came of handling a
/// message, when a probe failed, or with an error of the operating system. It
/// goes on if nothing was received and no probe failed.
pub proof fn law_waiting_for_a_set_ends(event: SelectEvent, ended: Option<Result<(), MuxError>>)
    requires
        call_ensures(MultiReceiverSet::select, (event,), ended),
    ensures
        event matches SelectEvent::Handled(result) ==> ended == Some(result),
        event matches SelectEvent::Empty(failed) ==> (ended is None <==> !failed) && (failed
            ==> ended->0 is Ok),
        event matches SelectEvent::IoError(reason) ==> ended == Some(
            Err::<(), MuxError>(MuxError::IpcError(IpcError::Io(reason))),
        ),
{
}

/// Several results from the IPC channels of a set are handled one after the
/// other. The first failure ends that, and waiting ends with it.
pub proof fn law_first_failure_ends_a_batch(
    outcome: Result<(), MuxError>,
    ended: Option<SelectEvent>,
    waited: Option<Result<(), MuxError>>,
)
    requires
        call_ensures(MultiReceiverSet::batch, (outcome,), ended),
        ended is Some ==> call_ensures(MultiReceiverSet::select, (ended->0,), waited),
    ensures
        ended is None <==> outcome is Ok,
        outcome is Err ==> waited == Some(outcome),
{
}

/// A receiver that is added to a set gets the next id there, and its messages go
/// to the mailbox of the set from then on, which gets a sender for it. That
/// succeeds if and only if its channel can join the set and the subchannel is
/// known. Otherwise no receiver is added, and no mailbox changes. In any case
/// the set receives from where its channels have joined.
pub proof fn law_added_receiver_delivers_to_the_set<T>(
    set: &mut SubReceiverSet,
    receiver: OpaqueSelectableSubReceiver,
    typed: SelectableSubReceiver<T>,
    registered: Option<Result<u64, IpcError>>,
    selectables: &mut Selectables,
    mailboxes: &mut SubChannelMailboxes,
    id: Result<u64, MuxError>,
)
    requires
        call_ensures(
            SubReceiverSet::add_opaque,
            (set, receiver, registered, selectables, mailboxes),
            id,
        ) || (typed.sub_channel_receiver == receiver.sub_channel_receiver && call_ensures(
            SubReceiverSet::add::<T>,
            (set, typed, registered, selectables, mailboxes),
            id,
        )),
        old(set)@.next_id < u64::MAX,
        old(selectables)@.receivers.contains_key(receiver.sub_channel_receiver.receiver),
    ensures
        ({
            let own = receiver.sub_channel_receiver;
            let scid = own.sub_channel_id.0;
            let was = old(selectables)@.receivers[own.receiver];
            let now = final(selectables)@.receivers[own.receiver];
            let join = joined(old(selectables)@, old(set)@.set, was.set, registered);
            let mailbox = old(set)@.mailbox;
            &&& final(set)@.set == join.set
            &&& final(set)@.mailbox == mailbox
            &&& final(selectables)@.sets == join.state.sets
            &&& id is Ok <==> join.error is None && was.demuxer.sub_channels.contains_key(scid)
            &&& id matches Ok(given) ==> {
                &&& given == old(set)@.next_id
                &&& final(set)@.next_id == given + 1
                &&& final(set)@.rxs.contains_key(given)
                &&& final(set)@.rxs[given] == own
                &&& final(set)@.ids.contains_key(scid)
                &&& final(set)@.ids[scid] == given
                &&& forall|other: u64|
                    #![trigger final(set)@.rxs.contains_key(other)]
                    other != given ==> {
                        &&& final(set)@.rxs.contains_key(other) == old(set)@.rxs.contains_key(other)
                        &&& old(set)@.rxs.contains_key(other) ==> final(set)@.rxs[other]
                            == old(set)@.rxs[other]
                    }
                &&& forall|other: Uuid|
                    #![trigger final(set)@.ids.contains_key(other)]
                    other != scid ==> {
                        &&& final(set)@.ids.contains_key(other) == old(set)@.ids.contains_key(other)
                        &&& old(set)@.ids.contains_key(other) ==> final(set)@.ids[other]
                            == old(set)@.ids[other]
                    }
                &&& only_subchannel(was.demuxer, now.demuxer, scid)
                &&& now.demuxer.sub_channels[scid].sender == Some(mailbox)
                &&& now.demuxer.sub_channels[scid].sources == was.demuxer.sub_channels[scid].sources
                &&& now.demuxer.sub_channels[scid].in_flight
                    == was.demuxer.sub_channels[scid].in_flight
                &&& now.demuxer.sub_channels[scid].probes == was.demuxer.sub_channels[scid].probes
                &&& was.demuxer.sub_channels[scid].sender != Some(mailbox) ==> {
                    &&& former_loses_sender(
                        was.demuxer,
                        scid,
                        old(mailboxes)@,
                        mailbox,
                        final(mailboxes)@,
                    )
                    &&& old(mailboxes)@.contains_key(mailbox) ==> {
                        &&& final(mailboxes)@.contains_key(mailbox)
                        &&& final(mailboxes)@[mailbox].senders == old(mailboxes)@[mailbox].senders
                            + 1
                        &&& final(mailboxes)@[mailbox].messages
                            == old(mailboxes)@[mailbox].messages
                        &&& final(mailboxes)@[mailbox].receiving
                            == old(mailboxes)@[mailbox].receiving
                    }
                }
            }
            &&& id matches Err(e) ==> {
                &&& final(set)@.next_id == old(set)@.next_id
                &&& final(set)@.rxs == old(set)@.rxs
                &&& final(set)@.ids == old(set)@.ids
                &&& final(mailboxes)@ == old(mailboxes)@
                &&& final(selectables)@.receivers == join.state.receivers
                &&& match join.error {
                    Some(JoinError::Registration(reason)) => e == mux_error(reason),
                    Some(JoinError::OtherSet) => e@ == MuxErrorView::InternalError(
                        "Cannot merge non-empty MultiReceiverSets"@,
                    ),
                    None => e@ == MuxErrorView::InternalError(
                        "missing sub_channel for "@ + hyphenated(scid),
                    ),
                }
            }
        }),
{
    let own = receiver.sub_channel_receiver;
    let was = old(selectables)@.receivers[own.receiver];
    assert(joined(
        old(selectables)@,
        old(set)@.set,
        was.set,
        registered,
    ).state.receivers == old(selectables)@.receivers);
}

/// Something in the mailbox of a set belongs to a receiver in it: its subchannel
/// is in the set, and was not closed before.
pub open spec fn belongs(
    set: SubReceiverSetView,
    messages: Seq<ResolvedMessageOrDisconnect>,
    i: int,
) -> bool {
    &&& set.ids.contains_key(sub_channel_of(messages[i]).0)
    &&& !closed_in(messages, i, sub_channel_of(messages[i]))
}

/// One of the first messages tells that a subchannel is closed.
pub open spec fn closed_in(
    messages: Seq<ResolvedMessageOrDisconnect>,
    n: int,
    scid: SubChannelId,
) -> bool {
    exists|j: int|
        0 <= j < n && #[trigger] messages[j] == ResolvedMessageOrDisconnect::Disconnect(scid)
}

/// The set after all events have been collected: the receivers of subchannels
/// that were closed are gone, and all others are there under their ids.
pub open spec fn loses_closed(
    before: SubReceiverSetView,
    messages: Seq<ResolvedMessageOrDisconnect>,
    n: int,
    rxs: Map<u64, SelectableSubChannelReceiver>,
    ids: Map<Uuid, u64>,
) -> bool {
    &&& forall|scid: Uuid| #[trigger]
        ids.contains_key(scid) == (before.ids.contains_key(scid) && !closed_in(
            messages,
            n,
            SubChannelId(scid),
        ))
    &&& forall|scid: Uuid| #[trigger] ids.contains_key(scid) ==> ids[scid] == before.ids[scid]
    &&& forall|id: u64| #[trigger]
        rxs.contains_key(id) == (before.rxs.contains_key(id) && !exists|scid: Uuid| #[trigger]
            before.ids.contains_key(scid) && before.ids[scid] == id && closed_in(
                messages,
                n,
                SubChannelId(scid),
            ))
    &&& forall|id: u64| #[trigger] rxs.contains_key(id) ==> rxs[id] == before.rxs[id]
}

/// The id under which an event is reported.
pub open spec fn reported_under(event: SubSelectionResult) -> u64 {
    match event {
        SubSelectionResult::MessageReceived(id, _) => id,
        SubSelectionResult::ChannelClosed(id) => id,
    }
}

/// An event brings what was in the mailbox, under the id of its receiver.
pub open spec fn reports(
    event: SubSelectionResult,
    set: SubReceiverSetView,
    message: ResolvedMessageOrDisconnect,
) -> bool {
    &&& reported_under(event) == set.ids[sub_channel_of(message).0]
    &&& message matches ResolvedMessageOrDisconnect::ResolvedMessage(message) ==> (event
        matches SubSelectionResult::MessageReceived(_, raw) && raw.message == message)
    &&& message is Disconnect ==> event is ChannelClosed
}

proof fn lemma_closed_in_prefix(
    messages: Seq<ResolvedMessageOrDisconnect>,
    n: int,
    scid: SubChannelId,
)
    requires
        0 <= n < messages.len(),
    ensures
        closed_in(messages.drop_last(), n, scid) == closed_in(messages, n, scid),
        closed_in(messages, n + 1, scid) == (closed_in(messages, n, scid) || messages[n]
            == ResolvedMessageOrDisconnect::Disconnect(scid)),
{
    let earlier = messages.drop_last();
    if closed_in(earlier, n, scid) {
        let j = choose|j: int|
            0 <= j < n && #[trigger] earlier[j] == ResolvedMessageOrDisconnect::Disconnect(scid);
        assert(messages[j] == earlier[j]);
    }
    if closed_in(messages, n, scid) {
        let j = choose|j: int|
            0 <= j < n && #[trigger] messages[j] == ResolvedMessageOrDisconnect::Disconnect(scid);
        assert(earlier[j] == messages[j]);
    }
    if closed_in(messages, n + 1, scid) {
        let j = choose|j: int|
            0 <= j < n + 1 && #[trigger] messages[j] == ResolvedMessageOrDisconnect::Disconnect(
                scid,
            );
        if j < n {
            assert(messages[j] == ResolvedMessageOrDisconnect::Disconnect(scid));
        }
    }
}

proof fn lemma_collected(set: SubReceiverSetView, messages: Seq<ResolvedMessageOrDisconnect>)
    requires
        forall|i: int| #![trigger messages[i]] 0 <= i < messages.len() ==> belongs(set, messages, i),
    ensures
        ({
            let after = collected(set, messages);
            &&& after.error is None
            &&& after.taken == messages.len()
            &&& after.results.len() == messages.len()
            &&& forall|i: int|
                #![trigger after.results[i]]
                0 <= i < messages.len() ==> reports(after.results[i], set, messages[i])
            &&& loses_closed(set, messages, messages.len() as int, after.rxs, after.ids)
        }),
    decreases messages.len(),
{
    let n = messages.len() as int;
    let after = collected(set, messages);
    if n > 0 {
        let earlier = messages.drop_last();
        assert forall|i: int| #![trigger earlier[i]] 0 <= i < earlier.len() implies belongs(
            set,
            earlier,
            i,
        ) by {
            assert(messages[i] == earlier[i]);
            lemma_closed_in_prefix(messages, i, sub_channel_of(messages[i]));
        }
        lemma_collected(set, earlier);
        let before = collected(set, earlier);
        let last = messages[n - 1];
        let of = sub_channel_of(last);
        assert(belongs(set, messages, n - 1));
        lemma_closed_in_prefix(messages, n - 1, of);
        assert(SubChannelId(of.0) == of);
        assert(before.ids.contains_key(of.0));
        assert forall|i: int| #![trigger after.results[i]] 0 <= i < n implies reports(
            after.results[i],
            set,
            messages[i],
        ) by {
            if i < n - 1 {
                assert(after.results[i] == before.results[i]);
                assert(earlier[i] == messages[i]);
            }
        }
        assert forall|scid: Uuid| #[trigger]
            after.ids.contains_key(scid) == (set.ids.contains_key(scid) && !closed_in(
                messages,
                n,
                SubChannelId(scid),
            )) by {
            lemma_closed_in_prefix(messages, n - 1, SubChannelId(scid));
            assert(before.ids.contains_key(scid) == (set.ids.contains_key(scid) && !closed_in(
                earlier,
                n - 1,
                SubChannelId(scid),
            )));
        }
        assert forall|id: u64| #[trigger]
            after.rxs.contains_key(id) == (set.rxs.contains_key(id) && !exists|scid: Uuid| #[trigger]
                set.ids.contains_key(scid) && set.ids[scid] == id && closed_in(
                    messages,
                    n,
                    SubChannelId(scid),
                )) by {
            assert(before.rxs.contains_key(id) == (set.rxs.contains_key(id) && !exists|scid: Uuid| #[trigger]
                set.ids.contains_key(scid) && set.ids[scid] == id && closed_in(
                    earlier,
                    n - 1,
                    SubChannelId(scid),
                )));
            if exists|scid: Uuid| #[trigger]
                set.ids.contains_key(scid) && set.ids[scid] == id && closed_in(
                    earlier,
                    n - 1,
                    SubChannelId(scid),
                ) {
                let scid = choose|scid: Uuid| #[trigger]
                    set.ids.contains_key(scid) && set.ids[scid] == id && closed_in(
                        earlier,
                        n - 1,
                        SubChannelId(scid),
                    );
                lemma_closed_in_prefix(messages, n - 1, SubChannelId(scid));
                assert(closed_in(messages, n, SubChannelId(scid)));
            }
            if exists|scid: Uuid| #[trigger]
                set.ids.contains_key(scid) && set.ids[scid] == id && closed_in(
                    messages,
                    n,
                    SubChannelId(scid),
                ) {
                let scid = choose|scid: Uuid| #[trigger]
                    set.ids.contains_key(scid) && set.ids[scid] == id && closed_in(
                        messages,
                        n,
                        SubChannelId(scid),
                    );
                lemma_closed_in_prefix(messages, n - 1, SubChannelId(scid));
                if !closed_in(earlier, n - 1, SubChannelId(scid)) {
                    assert(last == ResolvedMessageOrDisconnect::Disconnect(SubChannelId(scid)));
                }
            }
            if last is Disconnect && before.ids[of.0] == id {
                assert(set.ids.contains_key(of.0) && set.ids[of.0] == id);
                assert(closed_in(messages, n, SubChannelId(of.0)));
            }
        }
    } else {
        assert forall|scid: Uuid| !#[trigger] closed_in(messages, 0, SubChannelId(scid)) by {}
    }
}

proof fn lemma_collected_fails(
    set: SubReceiverSetView,
    messages: Seq<ResolvedMessageOrDisconnect>,
    n: int,
)
    requires
        0 <= n < messages.len(),
        forall|i: int| #![trigger messages[i]] 0 <= i < n ==> belongs(set, messages, i),
        !belongs(set, messages, n),
    ensures
        ({
            let after = collected(set, messages);
            let first = collected(set, messages.take(n));
            &&& after.error == Some(
                MuxErrorView::InternalError(
                    if messages[n] is Disconnect {
                        "missing id for disconnected subchannel "@
                    } else {
                        "missing id for subchannel "@
                    } + hyphenated(sub_channel_of(messages[n]).0),
                ),
            )
            &&& after.taken == n + 1
            &&& after.results == first.results
            &&& after.rxs == first.rxs
            &&& after.ids == first.ids
        }),
    decreases messages.len(),
{
    let earlier = messages.drop_last();
    assert forall|i: int| #![trigger earlier[i]] 0 <= i < n && i < earlier.len() implies belongs(
        set,
        earlier,
        i,
    ) by {
        assert(messages[i] == earlier[i]);
        lemma_closed_in_prefix(messages, i, sub_channel_of(messages[i]));
    }
    if n < earlier.len() {
        assert(messages[n] == earlier[n]);
        lemma_closed_in_prefix(messages, n, sub_channel_of(messages[n]));
        lemma_collected_fails(set, earlier, n);
        assert(earlier.take(n) =~= messages.take(n));
    } else {
        assert(messages.take(n) =~= earlier);
        lemma_collected(set, earlier);
        let of = sub_channel_of(messages[n]);
        lemma_closed_in_prefix(messages, n, of);
        assert(SubChannelId(of.0) == of);
        assert(!collected(set, earlier).ids.contains_key(of.0));
    }
}

proof fn lemma_dropped(
    results: Seq<SubSelectionResult>,
    set: SubReceiverSetView,
    messages: Seq<ResolvedMessageOrDisconnect>,
)
    requires
        results.len() == messages.len(),
        forall|i: int|
            #![trigger results[i]]
            0 <= i < results.len() ==> reports(results[i], set, messages[i]),
    ensures
        dropped(results) == let_go(messages),
    decreases results.len(),
{
    if results.len() > 0 {
        let earlier = results.drop_last();
        assert forall|i: int| #![trigger earlier[i]] 0 <= i < earlier.len() implies reports(
            earlier[i],
            set,
            messages.drop_last()[i],
        ) by {
            assert(earlier[i] == results[i]);
        }
        lemma_dropped(earlier, set, messages.drop_last());
        let n = results.len() - 1;
        assert(reports(results[n], set, messages[n]));
    }
}

/// A subsender in a message is let go of after all subsenders before it.
pub open spec fn let_go_at(
    effects: Seq<Effect>,
    messages: Seq<ResolvedMessageOrDisconnect>,
    i: int,
    k: int,
) -> bool {
    let at = subsenders_in(messages.take(i)) + k;
    0 <= i < messages.len() ==> match messages[i] {
        ResolvedMessageOrDisconnect::ResolvedMessage(message) => 0 <= k < message.senders@.len()
            ==> at < effects.len() && effects[at] == Effect::Release(
            message.senders@[k].disconnector,
        ),
        ResolvedMessageOrDisconnect::Disconnect(_) => true,
    }
}

/// Each subsender in messages is let go of, message by message and in order, and
/// nothing else is done.
pub open spec fn let_go_in_order(
    effects: Seq<Effect>,
    messages: Seq<ResolvedMessageOrDisconnect>,
) -> bool {
    &&& effects.len() == subsenders_in(messages)
    &&& forall|i: int, k: int| #[trigger] let_go_at(effects, messages, i, k)
}

proof fn lemma_let_go_at(messages: Seq<ResolvedMessageOrDisconnect>, i: int, k: int)
    ensures
        let_go(messages).len() == subsenders_in(messages),
        let_go_at(let_go(messages), messages, i, k),
    decreases messages.len(),
{
    if messages.len() > 0 {
        let earlier = messages.drop_last();
        let n = messages.len() - 1;
        lemma_let_go_at(earlier, i, k);
        if 0 <= i < n {
            assert(earlier.take(i) =~= messages.take(i));
            assert(earlier[i] == messages[i]);
        } else if i == n {
            assert(messages.take(n) =~= earlier);
        }
    }
}

proof fn lemma_let_go(messages: Seq<ResolvedMessageOrDisconnect>)
    ensures
        let_go_in_order(let_go(messages), messages),
{
    lemma_let_go_at(messages, 0, 0);
    assert forall|i: int, k: int| #[trigger] let_go_at(let_go(messages), messages, i, k) by {
        lemma_let_go_at(messages, i, k);
    }
}

/// What comes of selecting from a set.
///
/// Everything in its mailbox is reported once, in order and under the id of the
/// receiver that it belongs to, and the receivers of subchannels that were
/// closed leave the set. If something belongs to no receiver, that is told, and
/// what was collected, with that thing, is given up. If nobody sends to the
/// mailbox any more, the set is disconnected and all is given up.
pub proof fn law_select_reports_everything(
    set: &mut SubReceiverSet,
    mailboxes: &mut SubChannelMailboxes,
    selection: Selection,
    n: int,
)
    requires
        call_ensures(SubReceiverSet::select, (set, mailboxes), selection),
        old(mailboxes)@.contains_key(old(set)@.mailbox),
        ({
            let messages = old(mailboxes)@[old(set)@.mailbox].messages;
            &&& 0 <= n <= messages.len()
            &&& forall|i: int| #![trigger messages[i]] 0 <= i < n ==> belongs(old(set)@, messages, i)
            &&& n < messages.len() ==> !belongs(old(set)@, messages, n)
        }),
    ensures
        ({
            let own = old(set)@.mailbox;
            let held = old(mailboxes)@[own];
            let left = final(mailboxes)@[own];
            let messages = held.messages;
            &&& final(set)@.next_id == old(set)@.next_id
            &&& final(set)@.set == old(set)@.set
            &&& final(set)@.mailbox == own
            &&& loses_closed(old(set)@, messages, n, final(set)@.rxs, final(set)@.ids)
            &&& final(mailboxes)@.contains_key(own)
            &&& left.senders == held.senders
            &&& left.receiving == held.receiving
            &&& forall|other: MailboxId|
                #![trigger final(mailboxes)@.contains_key(other)]
                other != own ==> unchanged(old(mailboxes)@, other, final(mailboxes)@)
            &&& n == messages.len() ==> left.messages.len() == 0
            &&& n < messages.len() ==> left.messages == messages.skip(n + 1)
            &&& n == messages.len() && held.senders > 0 ==> {
                &&& selection.result matches Ok(events)
                &&& events@.len() == n
                &&& forall|i: int|
                    #![trigger events@[i]]
                    0 <= i < n ==> reports(events@[i], old(set)@, messages[i])
                &&& selection.effects@.len() == 0
            }
            &&& n == messages.len() && held.senders == 0 ==> {
                &&& selection.result == Err::<Vec<SubSelectionResult>, MuxError>(
                    MuxError::Disconnected,
                )
                &&& let_go_in_order(selection.effects@, messages)
            }
            &&& n < messages.len() ==> {
                &&& selection.result matches Err(e)
                &&& e@ == MuxErrorView::InternalError(
                    if messages[n] is Disconnect {
                        "missing id for disconnected subchannel "@
                    } else {
                        "missing id for subchannel "@
                    } + hyphenated(sub_channel_of(messages[n]).0),
                )
                &&& let_go_in_order(
                    selection.effects@,
                    seq![messages[n]] + messages.take(n),
                )
            }
        }),
{
    let messages = old(mailboxes)@[old(set)@.mailbox].messages;
    let first = messages.take(n);
    assert forall|i: int| #![trigger first[i]] 0 <= i < n implies belongs(old(set)@, first, i) by {
        assert(messages[i] == first[i]);
        lemma_closed_in_take(messages, n, i, sub_channel_of(messages[i]));
    }
    lemma_collected(old(set)@, first);
    let so_far = collected(old(set)@, first);
    lemma_dropped(so_far.results, old(set)@, first);
    lemma_let_go(first);
    assert forall|scid: Uuid| #[trigger]
        closed_in(messages, n, SubChannelId(scid)) == closed_in(first, n, SubChannelId(scid)) by {
        lemma_closed_in_take(messages, n, n, SubChannelId(scid));
    }
    if n < messages.len() {
        lemma_collected_fails(old(set)@, messages, n);
        let given_up = seq![messages[n]] + first;
        lemma_let_go(given_up);
        lemma_let_go_cons(messages[n], first);
    } else {
        assert(first =~= messages);
        assert(messages.skip(n) =~= Seq::empty());
    }
    assert(loses_closed(old(set)@, messages, n, so_far.rxs, so_far.ids)) by {
        assert forall|id: u64| #[trigger]
            so_far.rxs.contains_key(id) == (old(set)@.rxs.contains_key(id) && !exists|scid: Uuid| #[trigger]
                old(set)@.ids.contains_key(scid) && old(set)@.ids[scid] == id && closed_in(
                    messages,
                    n,
                    SubChannelId(scid),
                )) by {
            if exists|scid: Uuid| #[trigger]
                old(set)@.ids.contains_key(scid) && old(set)@.ids[scid] == id && closed_in(
                    first,
                    n,
                    SubChannelId(scid),
                ) {
                let scid = choose|scid: Uuid| #[trigger]
                    old(set)@.ids.contains_key(scid) && old(set)@.ids[scid] == id && closed_in(
                        first,
                        n,
                        SubChannelId(scid),
                    );
                assert(closed_in(messages, n, SubChannelId(scid)));
            }
        }
    }
}

proof fn lemma_closed_in_take(
    messages: Seq<ResolvedMessageOrDisconnect>,
    n: int,
    i: int,
    scid: SubChannelId,
)
    requires
        0 <= i <= n <= messages.len(),
    ensures
        closed_in(messages.take(n), i, scid) == closed_in(messages, i, scid),
{
    let first = messages.take(n);
    if closed_in(first, i, scid) {
        let j = choose|j: int|
            0 <= j < i && #[trigger] first[j] == ResolvedMessageOrDisconnect::Disconnect(scid);
        assert(messages[j] == first[j]);
    }
    if closed_in(messages, i, scid) {
        let j = choose|j: int|
            0 <= j < i && #[trigger] messages[j] == ResolvedMessageOrDisconnect::Disconnect(scid);
        assert(first[j] == messages[j]);
    }
}

proof fn lemma_let_go_cons(
    message: ResolvedMessageOrDisconnect,
    messages: Seq<ResolvedMessageOrDisconnect>,
)
    ensures
        let_go(seq![message] + messages) == let_go(seq![message]) + let_go(messages),
        let_go(seq![message]) == (match message {
            ResolvedMessageOrDisconnect::ResolvedMessage(message) => releases(message.senders@),
            ResolvedMessageOrDisconnect::Disconnect(_) => Seq::<Effect>::empty(),
        }),
    decreases messages.len(),
{
    reveal_with_fuel(let_go, 2);
    let one = seq![message];
    assert(one.drop_last() =~= Seq::<ResolvedMessageOrDisconnect>::empty());
    assert(let_go(one) =~= match message {
        ResolvedMessageOrDisconnect::ResolvedMessage(message) => releases(message.senders@),
        ResolvedMessageOrDisconnect::Disconnect(_) => Seq::<Effect>::empty(),
    });
    if messages.len() == 0 {
        assert(one + messages =~= one);
        assert(let_go(one) + let_go(messages) =~= let_go(one));
    } else {
        lemma_let_go_cons(message, messages.drop_last());
        assert((one + messages).drop_last() =~= one + messages.drop_last());
        assert((one + messages).last() == messages.last());
        assert(let_go(one + messages) =~= let_go(one) + let_go(messages));
    }
}

/// When a set is given up, each subsender in what was left in its mailbox is let
/// go of, in order, nobody receives from the mailbox any more, and it loses the
/// sender of the set. The receiving ends of the set forget their clients.
pub proof fn law_closing_a_set_lets_go(
    set: SubReceiverSet,
    selectables: &mut Selectables,
    mailboxes: &mut SubChannelMailboxes,
    effects: Vec<Effect>,
)
    requires
        call_ensures(SubReceiverSet::close, (set, selectables, mailboxes), effects),
    ensures
        final(selectables)@ == closed(old(selectables)@, set@.set),
        ({
            let own = set@.mailbox;
            let held = old(mailboxes)@[own];
            &&& old(mailboxes)@.contains_key(own) ==> {
                &&& let_go_in_order(effects@, held.messages)
                &&& held.senders <= 1 ==> !final(mailboxes)@.contains_key(own)
                &&& held.senders > 1 ==> {
                    &&& final(mailboxes)@.contains_key(own)
                    &&& final(mailboxes)@[own].senders == held.senders - 1
                    &&& final(mailboxes)@[own].messages.len() == 0
                    &&& !final(mailboxes)@[own].receiving
                }
            }
            &&& !old(mailboxes)@.contains_key(own) ==> effects@.len() == 0
            &&& forall|other: MailboxId|
                #![trigger final(mailboxes)@.contains_key(other)]
                other != own ==> unchanged(old(mailboxes)@, other, final(mailboxes)@)
        }),
{
    lemma_let_go(old(mailboxes)@[set@.mailbox].messages);
}

/// Selecting ends when there is at least one event, or an error. Otherwise the
/// IPC channels are waited for.
pub proof fn law_selecting_ends_with_events(
    result: Result<Vec<SubSelectionResult>, MuxError>,
    step: SelectStep,
)
    requires
        call_ensures(select_step, (result,), step),
    ensures
        step is Wait <==> (result matches Ok(events) && events@.len() == 0),
        step matches SelectStep::Return(returned) ==> returned == result,
{
}

} // verus!
