//! What polling does at a receiving end, in a set or not.

use crate::mux::demux::{
    lists_once, lost_vias, polled_in_order, polled_one, Demuxer, DemuxerView, Handled, LostChannels,
    MailboxMap, Polled, Probe, ResolvedMessageOrDisconnect, SubChannelMailboxes,
};
use crate::mux::handling::in_use;
use crate::mux::mailbox::MailboxId;
use crate::mux::protocol::SubChannelId;
use crate::mux::receiver::{receiver_polled, MultiReceiver, MultiReceiverView, ReceiveEvent};
use crate::mux::subchannel_lifecycle::SubSenderView;
use crate::mux::subchannel_router::select::{
    members_polled, receiver_step, selectable_polled, set_polled, PolledSet, ReceiverId,
    SelectableMultiReceiver, SelectableView, Selectables, SelectablesView, SetId, SetView,
};
use crate::mux::uuids::Uuid;
use vstd::multiset::Multiset;
use vstd::prelude::*;

verus! {

/// The senders of all subchannels have been polled at the receiving end with the
/// given UUID, which may be in a set or not.
pub open spec fn polled_at(
    before: DemuxerView,
    boxes: MailboxMap,
    receiver: Uuid,
    lost: LostChannels,
    failed: bool,
    after: DemuxerView,
    boxes_after: MailboxMap,
) -> bool {
    ||| receiver_polled(
        MultiReceiverView { uuid: receiver, demuxer: before },
        boxes,
        lost,
        failed,
        MultiReceiverView { uuid: receiver, demuxer: after },
        boxes_after,
    )
    ||| exists|set: SetId| #[trigger]
        selectable_polled(
            SelectableView { uuid: receiver, set, demuxer: before },
            boxes,
            lost,
            failed,
            SelectableView { uuid: receiver, set, demuxer: after },
            boxes_after,
        )
}

/// The channel that carries copies of a subsender over a subchannel is probed,
/// and has been found to be gone.
pub open spec fn carrier_gone(
    state: SubSenderView<MailboxId, Probe>,
    via: u128,
    lost: LostChannels,
) -> bool {
    state.probes.contains_key(via) && match state.probes[via] {
        Probe::MultiSender(id) => exists|i: int|
            0 <= i < lost.multi_senders@.len() && #[trigger] lost.multi_senders@[i] == id,
        Probe::Keepalive(handle) => exists|i: int|
            0 <= i < lost.keepalives@.len() && #[trigger] lost.keepalives@[i] == handle,
        Probe::Lost => true,
    }
}

/// All copies of a subsender whose channel is gone have been given up, and no
/// others, and the subchannel is disconnected if no copy is left in use.
/// Nothing is done for a subchannel that is disconnected.
pub open spec fn gives_up_lost(
    was: SubSenderView<MailboxId, Probe>,
    lost: LostChannels,
    now: SubSenderView<MailboxId, Probe>,
) -> bool {
    &&& was.sender is None ==> now == was
    &&& was.sender is Some ==> {
        &&& now.sources == was.sources
        &&& forall|via: u128| #[trigger]
            now.in_flight.count(via) == if carrier_gone(was, via, lost) {
                0
            } else {
                was.in_flight.count(via)
            }
        &&& forall|via: u128| #[trigger]
            now.probes.contains_key(via) == (was.probes.contains_key(via) && !(carrier_gone(
                was,
                via,
                lost,
            ) && was.in_flight.count(via) > 0))
        &&& forall|via: u128| #[trigger]
            now.probes.contains_key(via) ==> now.probes[via] == was.probes[via]
        &&& in_use(now) ==> now.sender == was.sender
        &&& !in_use(now) ==> now.sender is None
    }
}

/// A probe of a connected subchannel reports that its channel is gone.
pub open spec fn reports_loss(state: DemuxerView, lost: LostChannels) -> bool {
    exists|scid: Uuid, via: u128|
        {
            &&& #[trigger] state.sub_channels.contains_key(scid)
            &&& state.sub_channels[scid].sender is Some
            &&& #[trigger] carrier_gone(state.sub_channels[scid], via, lost)
        }
}

/// A subchannel that delivered to a mailbox has been disconnected.
pub open spec fn has_ended(
    before: DemuxerView,
    after: DemuxerView,
    scid: Uuid,
    id: MailboxId,
) -> bool {
    &&& before.sub_channels.contains_key(scid)
    &&& before.sub_channels[scid].sender == Some(id)
    &&& after.sub_channels[scid].sender is None
}

/// The news of the disconnections of the given subchannels, in order.
pub open spec fn news(ended: Seq<Uuid>) -> Seq<ResolvedMessageOrDisconnect> {
    Seq::new(
        ended.len(),
        |i: int| ResolvedMessageOrDisconnect::Disconnect(SubChannelId(ended[i])),
    )
}

proof fn lemma_gone(state: SubSenderView<MailboxId, Probe>, lost: LostChannels, via: u128)
    ensures
        lost_vias(state, lost).contains(via) == carrier_gone(state, via, lost),
{
    if state.probes.contains_key(via) {
        match state.probes[via] {
            Probe::MultiSender(id) => {
                if lost.multi_senders@.contains(id) {
                    let i = choose|i: int|
                        0 <= i < lost.multi_senders@.len() && lost.multi_senders@[i] == id;
                    assert(lost.multi_senders@[i] == id);
                }
            },
            Probe::Keepalive(handle) => {
                if lost.keepalives@.contains(handle) {
                    let i = choose|i: int|
                        0 <= i < lost.keepalives@.len() && lost.keepalives@[i] == handle;
                    assert(lost.keepalives@[i] == handle);
                }
            },
            Probe::Lost => {},
        }
    }
}

spec fn polled_state(
    state: SubSenderView<MailboxId, Probe>,
    lost: LostChannels,
) -> SubSenderView<MailboxId, Probe> {
    if state.sender is None {
        state
    } else {
        state.lost_via(lost_vias(state, lost)).settled()
    }
}

proof fn lemma_polled_state(state: SubSenderView<MailboxId, Probe>, lost: LostChannels)
    ensures
        gives_up_lost(state, lost, polled_state(state, lost)),
{
    let gone = lost_vias(state, lost);
    let after = state.lost_via(gone);
    let now = polled_state(state, lost);
    assert forall|via: u128| gone.contains(via) == carrier_gone(state, via, lost) by {
        lemma_gone(state, lost, via);
    }
    if state.sender is Some {
        assert forall|via: u128| #[trigger]
            now.in_flight.count(via) == if carrier_gone(state, via, lost) {
                0
            } else {
                state.in_flight.count(via)
            } by {
            assert(gone.contains(via) == carrier_gone(state, via, lost));
        }
        assert forall|via: u128| #[trigger]
            now.probes.contains_key(via) == (state.probes.contains_key(via) && !(carrier_gone(
                state,
                via,
                lost,
            ) && state.in_flight.count(via) > 0)) by {
            assert(gone.contains(via) == carrier_gone(state, via, lost));
        }
        if !in_use(now) {
            assert forall|source: u128| !after.sources.contains(source) by {
                assert(!now.sources.contains(source));
            }
            assert(after.sources =~= Set::<u128>::empty());
            assert forall|via: u128| after.in_flight.count(via) == 0 by {
                assert(!(now.in_flight.count(via) > 0));
            }
            assert(after.in_flight =~= Multiset::<u128>::empty());
        }
    }
}

spec fn told(before: DemuxerView, order: Seq<Uuid>, lost: LostChannels, id: MailboxId) -> Seq<Uuid>
    decreases order.len(),
{
    if order.len() == 0 {
        Seq::empty()
    } else {
        let earlier = told(before, order.drop_last(), lost, id);
        let state = before.sub_channels[order.last()];
        if state.sender == Some(id) && polled_state(state, lost).sender is None {
            earlier.push(order.last())
        } else {
            earlier
        }
    }
}

proof fn lemma_told(
    before: DemuxerView,
    order: Seq<Uuid>,
    lost: LostChannels,
    id: MailboxId,
)
    requires
        order.no_duplicates(),
    ensures
        told(before, order, lost, id).no_duplicates(),
        forall|scid: Uuid| #[trigger]
            told(before, order, lost, id).contains(scid) <==> order.contains(scid)
                && before.sub_channels[scid].sender == Some(id) && polled_state(
                before.sub_channels[scid],
                lost,
            ).sender is None,
    decreases order.len(),
{
    if order.len() > 0 {
        let earlier = order.drop_last();
        let last = order[order.len() - 1];
        lemma_told(before, earlier, lost, id);
        assert(order =~= earlier.push(last));
        assert(!earlier.contains(last));
        let t = told(before, earlier, lost, id);
        assert forall|scid: Uuid| #[trigger]
            told(before, order, lost, id).contains(scid) <==> order.contains(scid)
                && before.sub_channels[scid].sender == Some(id) && polled_state(
                before.sub_channels[scid],
                lost,
            ).sender is None by {
            assert(order.contains(scid) <==> earlier.contains(scid) || scid == last) by {
                if earlier.contains(scid) {
                    let i = choose|i: int| 0 <= i < earlier.len() && earlier[i] == scid;
                    assert(order[i] == scid);
                }
                if scid == last {
                    assert(order[order.len() - 1] == scid);
                }
            }
            assert(t.push(last).contains(scid) <==> t.contains(scid) || scid == last) by {
                if t.contains(scid) {
                    let i = choose|i: int| 0 <= i < t.len() && t[i] == scid;
                    assert(t.push(last)[i] == scid);
                }
                if scid == last {
                    assert(t.push(last)[t.len() as int] == scid);
                }
            }
        }
        assert(!t.contains(last));
    }
}

proof fn lemma_polled_in_order(
    before: Polled,
    order: Seq<Uuid>,
    lost: LostChannels,
    id: MailboxId,
)
    requires
        order.no_duplicates(),
        forall|i: int|
            0 <= i < order.len() ==> before.state.sub_channels.contains_key(#[trigger] order[i]),
    ensures
        ({
            let after = polled_in_order(before, order, lost);
            let ended = told(before.state, order, lost, id);
            &&& after.state.clients == before.state.clients
            &&& after.state.disconnectors == before.state.disconnectors
            &&& after.state.senders == before.state.senders
            &&& after.state.sub_channels.dom() == before.state.sub_channels.dom()
            &&& forall|scid: Uuid|
                #![trigger after.state.sub_channels[scid]]
                before.state.sub_channels.contains_key(scid) ==> after.state.sub_channels[scid]
                    == if order.contains(scid) {
                    polled_state(before.state.sub_channels[scid], lost)
                } else {
                    before.state.sub_channels[scid]
                }
            &&& after.failed == (before.failed || exists|i: int, via: u128|
                {
                    &&& 0 <= i < order.len()
                    &&& before.state.sub_channels[#[trigger] order[i]].sender is Some
                    &&& #[trigger] carrier_gone(before.state.sub_channels[order[i]], via, lost)
                })
            &&& before.boxes.contains_key(id) && before.boxes[id].receiving ==> {
                &&& after.boxes.contains_key(id)
                &&& after.boxes[id].receiving
                &&& after.boxes[id].messages == before.boxes[id].messages + news(ended)
                &&& ended.len() <= before.boxes[id].senders ==> after.boxes[id].senders
                    == before.boxes[id].senders - ended.len()
            }
            &&& ended.len() == 0 ==> {
                &&& after.boxes.contains_key(id) == before.boxes.contains_key(id)
                &&& before.boxes.contains_key(id) ==> after.boxes[id] == before.boxes[id]
            }
        }),
    decreases order.len(),
{
    let after = polled_in_order(before, order, lost);
    let ended = told(before.state, order, lost, id);
    if order.len() == 0 {
        assert(before.boxes[id].messages + news(ended) =~= before.boxes[id].messages);
    } else {
        let earlier = order.drop_last();
        let last = order[order.len() - 1];
        lemma_polled_in_order(before, earlier, lost, id);
        let middle = polled_in_order(before, earlier, lost);
        let so_far = told(before.state, earlier, lost, id);
        assert(before.state.sub_channels.contains_key(last));
        assert(middle.state.sub_channels.dom().contains(last));
        assert(!earlier.contains(last));
        let state = before.state.sub_channels[last];
        assert(middle.state.sub_channels[last] == state);
        assert(after == polled_one(middle, last, lost));
        assert(after.state.sub_channels.dom() =~= middle.state.sub_channels.dom());
        assert forall|scid: Uuid|
            #![trigger after.state.sub_channels[scid]]
            before.state.sub_channels.contains_key(scid) implies after.state.sub_channels[scid]
            == if order.contains(scid) {
            polled_state(before.state.sub_channels[scid], lost)
        } else {
            before.state.sub_channels[scid]
        } by {
            if scid == last {
                assert(order.contains(scid));
            } else {
                assert(order.contains(scid) == earlier.contains(scid)) by {
                    if earlier.contains(scid) {
                        let i = choose|i: int| 0 <= i < earlier.len() && earlier[i] == scid;
                        assert(order[i] == scid);
                    }
                    if order.contains(scid) {
                        let i = choose|i: int| 0 <= i < order.len() && order[i] == scid;
                        assert(earlier[i] == scid);
                    }
                }
                assert(after.state.sub_channels[scid] == middle.state.sub_channels[scid]);
            }
        }
        let gone = lost_vias(state, lost);
        assert forall|via: u128| gone.contains(via) == carrier_gone(state, via, lost) by {
            lemma_gone(state, lost, via);
        }
        if middle.failed && !before.failed {
            let (i, via) = choose|i: int, via: u128|
                {
                    &&& 0 <= i < earlier.len()
                    &&& before.state.sub_channels[#[trigger] earlier[i]].sender is Some
                    &&& #[trigger] carrier_gone(before.state.sub_channels[earlier[i]], via, lost)
                };
            assert(order[i] == earlier[i]);
            assert(carrier_gone(before.state.sub_channels[order[i]], via, lost));
        }
        if state.sender is Some && gone != Set::<u128>::empty() {
            assert(exists|via: u128| gone.contains(via)) by {
                if forall|via: u128| !gone.contains(via) {
                    assert(gone =~= Set::<u128>::empty());
                }
            }
            let via = choose|via: u128| gone.contains(via);
            assert(carrier_gone(before.state.sub_channels[order[order.len() - 1]], via, lost));
        }
        if exists|i: int, via: u128|
            {
                &&& 0 <= i < order.len()
                &&& before.state.sub_channels[#[trigger] order[i]].sender is Some
                &&& #[trigger] carrier_gone(before.state.sub_channels[order[i]], via, lost)
            } {
            let (i, via) = choose|i: int, via: u128|
                {
                    &&& 0 <= i < order.len()
                    &&& before.state.sub_channels[#[trigger] order[i]].sender is Some
                    &&& #[trigger] carrier_gone(before.state.sub_channels[order[i]], via, lost)
                };
            if i < earlier.len() {
                assert(order[i] == earlier[i]);
                assert(carrier_gone(before.state.sub_channels[earlier[i]], via, lost));
            } else {
                assert(gone.contains(via));
            }
        }
        assert(news(so_far.push(last)) =~= news(so_far).push(
            ResolvedMessageOrDisconnect::Disconnect(SubChannelId(last)),
        ));
        if before.boxes.contains_key(id) && before.boxes[id].receiving {
            assert(after.boxes[id].messages =~= before.boxes[id].messages + news(ended));
        }
    }
}

proof fn lemma_order(
    before: DemuxerView,
    boxes: MailboxMap,
    receiver: Uuid,
    lost: LostChannels,
    failed: bool,
    after: DemuxerView,
    boxes_after: MailboxMap,
) -> (order: Seq<Uuid>)
    requires
        polled_at(before, boxes, receiver, lost, failed, after, boxes_after),
    ensures
        lists_once(order, before.sub_channels.dom()),
        (Polled { state: after, boxes: boxes_after, failed }) == polled_in_order(
            Polled { state: before, boxes, failed: false },
            order,
            lost,
        ),
        forall|i: int|
            0 <= i < order.len() ==> before.sub_channels.contains_key(#[trigger] order[i]),
{
    let order = choose|order: Seq<Uuid>|
        {
            &&& #[trigger] lists_once(order, before.sub_channels.dom())
            &&& Polled { state: after, boxes: boxes_after, failed } == polled_in_order(
                Polled { state: before, boxes, failed: false },
                order,
                lost,
            )
        };
    assert forall|i: int| 0 <= i < order.len() implies before.sub_channels.contains_key(
        #[trigger] order[i],
    ) by {
        assert(order.contains(order[i]));
        assert(before.sub_channels.dom().contains(order[i]));
    }
    order
}

/// Polling gives up the copies of a subsender in flight whose channels are
/// gone, and no others, for every connected subchannel. One of which no copy is
/// left in use is disconnected.
pub proof fn law_poll_gives_up_lost_copies(
    before: DemuxerView,
    boxes: MailboxMap,
    receiver: Uuid,
    lost: LostChannels,
    failed: bool,
    after: DemuxerView,
    boxes_after: MailboxMap,
    scid: Uuid,
)
    requires
        polled_at(before, boxes, receiver, lost, failed, after, boxes_after),
        before.sub_channels.contains_key(scid),
    ensures
        gives_up_lost(before.sub_channels[scid], lost, after.sub_channels[scid]),
        after.sub_channels.dom() == before.sub_channels.dom(),
        after.clients == before.clients,
        after.disconnectors == before.disconnectors,
        after.senders == before.senders,
{
    let order = lemma_order(before, boxes, receiver, lost, failed, after, boxes_after);
    lemma_polled_in_order(Polled { state: before, boxes, failed: false }, order, lost, 0);
    assert(before.sub_channels.dom().contains(scid));
    lemma_polled_state(before.sub_channels[scid], lost);
}

/// Polling tells whether a probe of a connected subchannel reported that its
/// channel is gone.
pub proof fn law_poll_tells_of_losses(
    before: DemuxerView,
    boxes: MailboxMap,
    receiver: Uuid,
    lost: LostChannels,
    failed: bool,
    after: DemuxerView,
    boxes_after: MailboxMap,
)
    requires
        polled_at(before, boxes, receiver, lost, failed, after, boxes_after),
    ensures
        failed == reports_loss(before, lost),
{
    let order = lemma_order(before, boxes, receiver, lost, failed, after, boxes_after);
    lemma_polled_in_order(Polled { state: before, boxes, failed: false }, order, lost, 0);
    if failed {
        let (i, via) = choose|i: int, via: u128|
            {
                &&& 0 <= i < order.len()
                &&& before.sub_channels[#[trigger] order[i]].sender is Some
                &&& #[trigger] carrier_gone(before.sub_channels[order[i]], via, lost)
            };
        assert(before.sub_channels.contains_key(order[i]));
        assert(carrier_gone(before.sub_channels[order[i]], via, lost));
    }
    if reports_loss(before, lost) {
        let (scid, via) = choose|scid: Uuid, via: u128|
            {
                &&& #[trigger] before.sub_channels.contains_key(scid)
                &&& before.sub_channels[scid].sender is Some
                &&& #[trigger] carrier_gone(before.sub_channels[scid], via, lost)
            };
        assert(before.sub_channels.dom().contains(scid));
        let i = choose|i: int| 0 <= i < order.len() && order[i] == scid;
        assert(carrier_gone(before.sub_channels[order[i]], via, lost));
    }
}

/// The mailbox of each subchannel that polling disconnects is told of it once,
/// after all that it held, and of nothing else. A mailbox to which none of them
/// delivered does not change.
pub proof fn law_poll_tells_mailboxes(
    before: DemuxerView,
    boxes: MailboxMap,
    receiver: Uuid,
    lost: LostChannels,
    failed: bool,
    after: DemuxerView,
    boxes_after: MailboxMap,
    id: MailboxId,
) -> (ended: Seq<Uuid>)
    requires
        polled_at(before, boxes, receiver, lost, failed, after, boxes_after),
    ensures
        ended.no_duplicates(),
        forall|scid: Uuid| #[trigger]
            ended.contains(scid) <==> has_ended(before, after, scid, id),
        boxes.contains_key(id) && boxes[id].receiving ==> {
            &&& boxes_after.contains_key(id)
            &&& boxes_after[id].receiving
            &&& boxes_after[id].messages == boxes[id].messages + news(ended)
            &&& ended.len() <= boxes[id].senders ==> boxes_after[id].senders == boxes[id].senders
                - ended.len()
        },
        ended.len() == 0 ==> {
            &&& boxes_after.contains_key(id) == boxes.contains_key(id)
            &&& boxes.contains_key(id) ==> boxes_after[id] == boxes[id]
        },
{
    let order = lemma_order(before, boxes, receiver, lost, failed, after, boxes_after);
    lemma_polled_in_order(Polled { state: before, boxes, failed: false }, order, lost, id);
    lemma_told(before, order, lost, id);
    let ended = told(before, order, lost, id);
    assert forall|scid: Uuid| #[trigger]
        ended.contains(scid) <==> has_ended(before, after, scid, id) by {
        assert(before.sub_channels.dom().contains(scid) <==> order.contains(scid));
    }
    ended
}

/// A connected subchannel of which no source holds a copy, and of which every
/// copy in flight is carried by a channel that is gone, is disconnected by a
/// poll. Its mailbox, if no other subchannel delivers to it, ends with the news,
/// and the poll tells of the loss.
pub proof fn law_poll_ends_lost_subchannel(
    before: DemuxerView,
    boxes: MailboxMap,
    receiver: Uuid,
    lost: LostChannels,
    failed: bool,
    after: DemuxerView,
    boxes_after: MailboxMap,
    scid: SubChannelId,
    id: MailboxId,
)
    requires
        polled_at(before, boxes, receiver, lost, failed, after, boxes_after),
        all_lost(before, scid, id, lost),
        boxes.contains_key(id),
        boxes[id].receiving,
        forall|other: Uuid|
            #![trigger before.sub_channels[other]]
            before.sub_channels.contains_key(other) && before.sub_channels[other].sender
                == Some(id) ==> other == scid.0,
    ensures
        after.sub_channels[scid.0].sender is None,
        boxes_after.contains_key(id),
        boxes_after[id].messages == boxes[id].messages.push(
            ResolvedMessageOrDisconnect::Disconnect(scid),
        ),
        failed,
{
    let was = before.sub_channels[scid.0];
    let now = after.sub_channels[scid.0];
    law_poll_gives_up_lost_copies(
        before,
        boxes,
        receiver,
        lost,
        failed,
        after,
        boxes_after,
        scid.0,
    );
    lemma_all_lost_ends(before, scid, id, lost, now);
    law_poll_tells_of_losses(before, boxes, receiver, lost, failed, after, boxes_after);
    lemma_all_lost_reported(before, scid, id, lost);
    let ended = law_poll_tells_mailboxes(
        before,
        boxes,
        receiver,
        lost,
        failed,
        after,
        boxes_after,
        id,
    );
    lemma_only_one(ended, scid.0);
    assert(boxes[id].messages + news(ended) =~= boxes[id].messages.push(
        ResolvedMessageOrDisconnect::Disconnect(scid),
    ));
}

/// A connected subchannel delivers to a mailbox, no source holds a copy of its
/// subsender, and there are copies in flight, all of them carried by channels
/// that are gone.
pub open spec fn all_lost(
    state: DemuxerView,
    scid: SubChannelId,
    id: MailboxId,
    lost: LostChannels,
) -> bool {
    &&& state.sub_channels.contains_key(scid.0)
    &&& state.sub_channels[scid.0].sender == Some(id)
    &&& forall|source: u128| !#[trigger] state.sub_channels[scid.0].sources.contains(source)
    &&& exists|via: u128| #[trigger] state.sub_channels[scid.0].in_flight.count(via) > 0
    &&& forall|via: u128| #[trigger]
        state.sub_channels[scid.0].in_flight.count(via) > 0 ==> carrier_gone(
            state.sub_channels[scid.0],
            via,
            lost,
        )
}

proof fn lemma_all_lost_ends(
    state: DemuxerView,
    scid: SubChannelId,
    id: MailboxId,
    lost: LostChannels,
    now: SubSenderView<MailboxId, Probe>,
)
    requires
        all_lost(state, scid, id, lost),
        gives_up_lost(state.sub_channels[scid.0], lost, now),
    ensures
        now.sender is None,
{
    let was = state.sub_channels[scid.0];
    assert forall|source: u128| !#[trigger] now.sources.contains(source) by {
        assert(!was.sources.contains(source));
    }
    assert forall|via: u128| !(#[trigger] now.in_flight.count(via) > 0) by {
        assert(was.in_flight.count(via) > 0 ==> carrier_gone(was, via, lost));
    }
    assert(!in_use(now));
}

proof fn lemma_all_lost_reported(
    state: DemuxerView,
    scid: SubChannelId,
    id: MailboxId,
    lost: LostChannels,
)
    requires
        all_lost(state, scid, id, lost),
    ensures
        reports_loss(state, lost),
{
    let was = state.sub_channels[scid.0];
    let via = choose|via: u128| #[trigger] was.in_flight.count(via) > 0;
    assert(state.sub_channels.contains_key(scid.0) && carrier_gone(
        state.sub_channels[scid.0],
        via,
        lost,
    ));
}

proof fn lemma_only_one(items: Seq<Uuid>, item: Uuid)
    requires
        items.no_duplicates(),
        items.contains(item),
        forall|other: Uuid| #[trigger] items.contains(other) ==> other == item,
    ensures
        items == seq![item],
{
    let i = choose|i: int| 0 <= i < items.len() && items[i] == item;
    assert(items.contains(items[0]));
    if items.len() > 1 {
        assert(items.contains(items[1]));
    }
    assert(items =~= seq![item]);
}

proof fn lemma_giving_up_twice(
    was: SubSenderView<MailboxId, Probe>,
    lost: LostChannels,
    middle: SubSenderView<MailboxId, Probe>,
    now: SubSenderView<MailboxId, Probe>,
)
    requires
        gives_up_lost(was, lost, middle),
        gives_up_lost(middle, lost, now),
    ensures
        gives_up_lost(was, lost, now),
{
    if was.sender is Some && middle.sender is Some {
        assert forall|via: u128| carrier_gone(middle, via, lost) implies #[trigger] carrier_gone(
            was,
            via,
            lost,
        ) by {
            assert(middle.probes.contains_key(via));
        }
        assert forall|via: u128| #[trigger]
            now.in_flight.count(via) == if carrier_gone(was, via, lost) {
                0
            } else {
                was.in_flight.count(via)
            } by {
            assert(middle.in_flight.count(via) == if carrier_gone(was, via, lost) {
                0
            } else {
                was.in_flight.count(via)
            });
        }
        assert forall|via: u128| #[trigger]
            now.probes.contains_key(via) == (was.probes.contains_key(via) && !(carrier_gone(
                was,
                via,
                lost,
            ) && was.in_flight.count(via) > 0)) by {
            assert(middle.probes.contains_key(via) == (was.probes.contains_key(via) && !(
            carrier_gone(was, via, lost) && was.in_flight.count(via) > 0)));
            assert(middle.in_flight.count(via) == if carrier_gone(was, via, lost) {
                0
            } else {
                was.in_flight.count(via)
            });
        }
        assert forall|via: u128| #[trigger]
            now.probes.contains_key(via) implies now.probes[via] == was.probes[via] by {
            assert(middle.probes.contains_key(via));
        }
        assert(in_use(now) ==> now.sender == was.sender);
    }
}

proof fn lemma_no_loss_is_new(was: DemuxerView, lost: LostChannels, now: DemuxerView)
    requires
        now.sub_channels.dom() == was.sub_channels.dom(),
        forall|scid: Uuid|
            #![trigger now.sub_channels[scid]]
            was.sub_channels.contains_key(scid) ==> gives_up_lost(
                was.sub_channels[scid],
                lost,
                now.sub_channels[scid],
            ),
        reports_loss(now, lost),
    ensures
        reports_loss(was, lost),
{
    let (scid, via) = choose|scid: Uuid, via: u128|
        {
            &&& #[trigger] now.sub_channels.contains_key(scid)
            &&& now.sub_channels[scid].sender is Some
            &&& #[trigger] carrier_gone(now.sub_channels[scid], via, lost)
        };
    assert(now.sub_channels.dom().contains(scid));
    assert(was.sub_channels.contains_key(scid));
    assert(now.sub_channels[scid].probes.contains_key(via));
    assert(carrier_gone(was.sub_channels[scid], via, lost));
}

/// A receiving end is registered in a set under one of the given ids.
pub open spec fn registered(set: SetView, ids: Seq<u64>, rid: ReceiverId) -> bool {
    exists|i: int| 0 <= i < ids.len() && set.multi_receivers[#[trigger] ids[i]] == rid
}

/// What polling did to one receiving end, if it was polled.
spec fn receiver_outcome(
    before: PolledSet,
    lost: LostChannels,
    after: PolledSet,
    rid: ReceiverId,
    polled: bool,
) -> bool {
    let was = before.state.receivers[rid];
    let now = after.state.receivers[rid];
    &&& now.uuid == was.uuid
    &&& now.set == was.set
    &&& !polled ==> now == was
    &&& now.demuxer.clients == was.demuxer.clients
    &&& now.demuxer.disconnectors == was.demuxer.disconnectors
    &&& now.demuxer.senders == was.demuxer.senders
    &&& now.demuxer.sub_channels.dom() == was.demuxer.sub_channels.dom()
    &&& polled ==> forall|scid: Uuid|
        #![trigger now.demuxer.sub_channels[scid]]
        was.demuxer.sub_channels.contains_key(scid) ==> gives_up_lost(
            was.demuxer.sub_channels[scid],
            lost,
            now.demuxer.sub_channels[scid],
        )
}

/// Polling one receiving end, at the level of the set.
proof fn lemma_receiver_step(
    before: PolledSet,
    rid: ReceiverId,
    lost: LostChannels,
    after: PolledSet,
) -> (failed: bool)
    requires
        receiver_step(before, rid, lost, after),
        before.state.receivers.contains_key(rid),
    ensures
        after.state == before.state.with_receiver(rid, after.state.receivers[rid]),
        receiver_outcome(before, lost, after, rid, true),
        polled_at(
            before.state.receivers[rid].demuxer,
            before.boxes,
            before.state.receivers[rid].uuid,
            lost,
            failed,
            after.state.receivers[rid].demuxer,
            after.boxes,
        ),
        failed == reports_loss(before.state.receivers[rid].demuxer, lost),
        after.failed == (before.failed || failed),
{
    let was = before.state.receivers[rid];
    let now = after.state.receivers[rid];
    let failed = if selectable_polled(was, before.boxes, lost, true, now, after.boxes)
        && after.failed {
        true
    } else {
        false
    };
    assert(selectable_polled(was, before.boxes, lost, failed, now, after.boxes));
    assert(selectable_polled(
        SelectableView { uuid: was.uuid, set: was.set, demuxer: was.demuxer },
        before.boxes,
        lost,
        failed,
        SelectableView { uuid: was.uuid, set: was.set, demuxer: now.demuxer },
        after.boxes,
    ));
    law_poll_tells_of_losses(
        was.demuxer,
        before.boxes,
        was.uuid,
        lost,
        failed,
        now.demuxer,
        after.boxes,
    );
    let order = lemma_order(
        was.demuxer,
        before.boxes,
        was.uuid,
        lost,
        failed,
        now.demuxer,
        after.boxes,
    );
    lemma_polled_in_order(
        Polled { state: was.demuxer, boxes: before.boxes, failed: false },
        order,
        lost,
        0,
    );
    assert forall|scid: Uuid|
        #![trigger now.demuxer.sub_channels[scid]]
        was.demuxer.sub_channels.contains_key(scid) implies gives_up_lost(
        was.demuxer.sub_channels[scid],
        lost,
        now.demuxer.sub_channels[scid],
    ) by {
        law_poll_gives_up_lost_copies(
            was.demuxer,
            before.boxes,
            was.uuid,
            lost,
            failed,
            now.demuxer,
            after.boxes,
            scid,
        );
    }
    failed
}

proof fn lemma_set_polled(
    set: SetView,
    before: PolledSet,
    ids: Seq<u64>,
    lost: LostChannels,
    after: PolledSet,
)
    requires
        set_polled(set, before, ids, lost, after),
    ensures
        after.state.sets == before.state.sets,
        after.state.receivers.dom() == before.state.receivers.dom(),
        forall|rid: ReceiverId|
            #![trigger after.state.receivers[rid]]
            before.state.receivers.contains_key(rid) ==> receiver_outcome(
                before,
                lost,
                after,
                rid,
                registered(set, ids, rid),
            ),
        after.failed == (before.failed || exists|rid: ReceiverId|
            {
                &&& #[trigger] registered(set, ids, rid)
                &&& before.state.receivers.contains_key(rid)
                &&& reports_loss(before.state.receivers[rid].demuxer, lost)
            }),
    decreases ids.len(),
{
    if ids.len() > 0 {
        let earlier = ids.drop_last();
        let last = ids[ids.len() - 1];
        let middle = choose|middle: PolledSet|
            {
                &&& set_polled(set, before, ids.drop_last(), lost, middle)
                &&& #[trigger] receiver_step(
                    middle,
                    set.multi_receivers[ids.last()],
                    lost,
                    after,
                )
            };
        lemma_set_polled(set, before, earlier, lost, middle);
        let own = set.multi_receivers[last];
        assert forall|rid: ReceiverId| #[trigger]
            registered(set, ids, rid) == (registered(set, earlier, rid) || rid == own) by {
            if registered(set, earlier, rid) {
                let i = choose|i: int|
                    0 <= i < earlier.len() && set.multi_receivers[#[trigger] earlier[i]] == rid;
                assert(set.multi_receivers[ids[i]] == rid);
            }
            if registered(set, ids, rid) {
                let i = choose|i: int|
                    0 <= i < ids.len() && set.multi_receivers[#[trigger] ids[i]] == rid;
                if i < earlier.len() {
                    assert(set.multi_receivers[earlier[i]] == rid);
                }
            }
            assert(set.multi_receivers[ids[ids.len() - 1]] == own);
        }
        if middle.state.receivers.contains_key(own) {
            let failed = lemma_receiver_step(middle, own, lost, after);
            assert(before.state.receivers.contains_key(own));
            assert(after.state.receivers.dom() =~= before.state.receivers.dom());
            let first = before.state.receivers[own];
            let mid = middle.state.receivers[own];
            let end = after.state.receivers[own];
            assert(receiver_outcome(before, lost, middle, own, registered(set, earlier, own)));
            assert forall|scid: Uuid|
                #![trigger end.demuxer.sub_channels[scid]]
                first.demuxer.sub_channels.contains_key(scid) implies gives_up_lost(
                first.demuxer.sub_channels[scid],
                lost,
                end.demuxer.sub_channels[scid],
            ) by {
                assert(mid.demuxer.sub_channels.dom().contains(scid));
                if registered(set, earlier, own) {
                    assert(gives_up_lost(
                        first.demuxer.sub_channels[scid],
                        lost,
                        mid.demuxer.sub_channels[scid],
                    ));
                    lemma_giving_up_twice(
                        first.demuxer.sub_channels[scid],
                        lost,
                        mid.demuxer.sub_channels[scid],
                        end.demuxer.sub_channels[scid],
                    );
                }
            }
            assert forall|rid: ReceiverId|
                #![trigger after.state.receivers[rid]]
                before.state.receivers.contains_key(rid) implies receiver_outcome(
                before,
                lost,
                after,
                rid,
                registered(set, ids, rid),
            ) by {
                assert(receiver_outcome(before, lost, middle, rid, registered(set, earlier, rid)));
                assert(registered(set, ids, rid) == (registered(set, earlier, rid) || rid == own));
            }
            if failed {
                if registered(set, earlier, own) {
                    lemma_no_loss_is_new(first.demuxer, lost, mid.demuxer);
                }
                assert(registered(set, ids, own));
            }
            if exists|rid: ReceiverId|
                {
                    &&& #[trigger] registered(set, ids, rid)
                    &&& before.state.receivers.contains_key(rid)
                    &&& reports_loss(before.state.receivers[rid].demuxer, lost)
                } {
                let rid = choose|rid: ReceiverId|
                    {
                        &&& #[trigger] registered(set, ids, rid)
                        &&& before.state.receivers.contains_key(rid)
                        &&& reports_loss(before.state.receivers[rid].demuxer, lost)
                    };
                if !registered(set, earlier, rid) {
                    assert(rid == own);
                    assert(mid == first);
                }
            }
        } else {
            assert(!before.state.receivers.contains_key(own));
            assert forall|rid: ReceiverId|
                #![trigger after.state.receivers[rid]]
                before.state.receivers.contains_key(rid) implies receiver_outcome(
                before,
                lost,
                after,
                rid,
                registered(set, ids, rid),
            ) by {
                assert(receiver_outcome(before, lost, middle, rid, registered(set, earlier, rid)));
                assert(registered(set, ids, rid) == (registered(set, earlier, rid) || rid == own));
            }
        }
        if middle.failed && !before.failed {
            let rid = choose|rid: ReceiverId|
                {
                    &&& #[trigger] registered(set, earlier, rid)
                    &&& before.state.receivers.contains_key(rid)
                    &&& reports_loss(before.state.receivers[rid].demuxer, lost)
                };
            assert(registered(set, ids, rid));
        }
        if !middle.state.receivers.contains_key(own) && exists|rid: ReceiverId|
            {
                &&& #[trigger] registered(set, ids, rid)
                &&& before.state.receivers.contains_key(rid)
                &&& reports_loss(before.state.receivers[rid].demuxer, lost)
            } {
            let rid = choose|rid: ReceiverId|
                {
                    &&& #[trigger] registered(set, ids, rid)
                    &&& before.state.receivers.contains_key(rid)
                    &&& reports_loss(before.state.receivers[rid].demuxer, lost)
                };
            assert(registered(set, earlier, rid));
        }
    }
}

/// Of all subchannels of all receiving ends, only one delivers to a mailbox.
pub open spec fn sole_deliverer(
    state: SelectablesView,
    rid: ReceiverId,
    scid: Uuid,
    id: MailboxId,
) -> bool {
    forall|r: ReceiverId, s: Uuid|
        #![trigger state.receivers[r].demuxer.sub_channels[s]]
        state.receivers.contains_key(r) && state.receivers[r].demuxer.sub_channels.contains_key(s)
            && state.receivers[r].demuxer.sub_channels[s].sender == Some(id) ==> r == rid && s
            == scid
}

/// A mailbox that is received from has been told of disconnections, after all
/// that it held, and of nothing else.
pub open spec fn grows_by_news(
    boxes: MailboxMap,
    id: MailboxId,
    boxes_after: MailboxMap,
) -> bool {
    &&& boxes_after.contains_key(id)
    &&& boxes_after[id].receiving
    &&& boxes_after[id].messages.len() >= boxes[id].messages.len()
    &&& boxes_after[id].messages.take(boxes[id].messages.len() as int) == boxes[id].messages
    &&& forall|k: int|
        #![trigger boxes_after[id].messages[k]]
        boxes[id].messages.len() <= k < boxes_after[id].messages.len()
            ==> boxes_after[id].messages[k] is Disconnect
}

/// The news of a disconnection has been put in a mailbox after the first
/// messages.
pub open spec fn news_since(
    messages: Seq<ResolvedMessageOrDisconnect>,
    first: nat,
    scid: Uuid,
) -> bool {
    exists|k: int|
        first <= k < messages.len() && #[trigger] messages[k]
            == ResolvedMessageOrDisconnect::Disconnect(SubChannelId(scid))
}

proof fn lemma_set_polled_mailbox(
    set: SetView,
    before: PolledSet,
    ids: Seq<u64>,
    lost: LostChannels,
    after: PolledSet,
    rid: ReceiverId,
    scid: Uuid,
    id: MailboxId,
)
    requires
        set_polled(set, before, ids, lost, after),
        before.state.receivers.contains_key(rid),
        before.state.receivers[rid].demuxer.sub_channels.contains_key(scid),
        before.boxes.contains_key(id),
        before.boxes[id].receiving,
    ensures
        grows_by_news(before.boxes, id, after.boxes),
        before.state.receivers[rid].demuxer.sub_channels[scid].sender == Some(id)
            && after.state.receivers[rid].demuxer.sub_channels[scid].sender is None ==> news_since(
            after.boxes[id].messages,
            before.boxes[id].messages.len(),
            scid,
        ),
        sole_deliverer(before.state, rid, scid, id) ==> after.boxes[id].messages == (if
            before.state.receivers[rid].demuxer.sub_channels[scid].sender == Some(id)
            && after.state.receivers[rid].demuxer.sub_channels[scid].sender is None {
            before.boxes[id].messages.push(
                ResolvedMessageOrDisconnect::Disconnect(SubChannelId(scid)),
            )
        } else {
            before.boxes[id].messages
        }),
    decreases ids.len(),
{
    let n = before.boxes[id].messages.len();
    let messages = after.boxes[id].messages;
    if ids.len() == 0 {
        assert(messages.take(n as int) =~= messages);
    } else {
        let earlier = ids.drop_last();
        let middle = choose|middle: PolledSet|
            {
                &&& set_polled(set, before, ids.drop_last(), lost, middle)
                &&& #[trigger] receiver_step(
                    middle,
                    set.multi_receivers[ids.last()],
                    lost,
                    after,
                )
            };
        let own = set.multi_receivers[ids.last()];
        lemma_set_polled(set, before, earlier, lost, middle);
        lemma_set_polled_mailbox(set, before, earlier, lost, middle, rid, scid, id);
        let between = middle.boxes[id].messages;
        let was = before.state.receivers[rid].demuxer.sub_channels[scid];
        assert(receiver_outcome(before, lost, middle, rid, registered(set, earlier, rid)));
        let mid = middle.state.receivers[rid].demuxer.sub_channels[scid];
        assert(mid.sender is Some ==> mid.sender == was.sender);
        if middle.state.receivers.contains_key(own) {
            let failed = lemma_receiver_step(middle, own, lost, after);
            let ended = law_poll_tells_mailboxes(
                middle.state.receivers[own].demuxer,
                middle.boxes,
                middle.state.receivers[own].uuid,
                lost,
                failed,
                after.state.receivers[own].demuxer,
                after.boxes,
                id,
            );
            assert(messages == between + news(ended));
            assert(messages.take(n as int) =~= between.take(n as int));
            assert forall|k: int| #![trigger messages[k]] n <= k < messages.len() implies messages[k]
                is Disconnect by {
                if k < between.len() {
                    assert(messages[k] == between[k]);
                }
            }
            let now = after.state.receivers[rid].demuxer.sub_channels[scid];
            if was.sender == Some(id) && now.sender is None {
                if mid.sender is None {
                    let k = choose|k: int|
                        n <= k < between.len() && #[trigger] between[k]
                            == ResolvedMessageOrDisconnect::Disconnect(SubChannelId(scid));
                    assert(messages[k] == between[k]);
                } else {
                    assert(own == rid);
                    assert(middle.state.receivers[rid].demuxer.sub_channels.dom().contains(scid));
                    assert(has_ended(
                        middle.state.receivers[own].demuxer,
                        after.state.receivers[own].demuxer,
                        scid,
                        id,
                    ));
                    assert(ended.contains(scid));
                    let i = choose|i: int| 0 <= i < ended.len() && ended[i] == scid;
                    assert(messages[between.len() + i] == ResolvedMessageOrDisconnect::Disconnect(
                        SubChannelId(scid),
                    ));
                }
            }
            if sole_deliverer(before.state, rid, scid, id) {
                assert forall|s: Uuid| #[trigger] ended.contains(s) implies own == rid && s
                    == scid by {
                    assert(has_ended(
                        middle.state.receivers[own].demuxer,
                        after.state.receivers[own].demuxer,
                        s,
                        id,
                    ));
                    assert(receiver_outcome(
                        before,
                        lost,
                        middle,
                        own,
                        registered(set, earlier, own),
                    ));
                    assert(before.state.receivers[own].demuxer.sub_channels.dom().contains(s));
                    assert(middle.state.receivers[own].demuxer.sub_channels[s].sender == Some(id));
                    assert(before.state.receivers[own].demuxer.sub_channels[s].sender == Some(id));
                }
                if ended.len() > 0 {
                    assert(ended.contains(ended[0]));
                    lemma_only_one(ended, scid);
                    assert(has_ended(
                        middle.state.receivers[own].demuxer,
                        after.state.receivers[own].demuxer,
                        scid,
                        id,
                    ));
                    assert(messages =~= between.push(
                        ResolvedMessageOrDisconnect::Disconnect(SubChannelId(scid)),
                    ));
                } else {
                    assert(messages =~= between);
                    if own == rid && mid.sender == Some(id) {
                        assert(middle.state.receivers[rid].demuxer.sub_channels.dom().contains(scid));
                        assert(!ended.contains(scid));
                    }
                }
            }
        }
    }
}

proof fn lemma_registrations(set: SetView, ids: Seq<u64>, rid: ReceiverId)
    requires
        ids.to_set() == set.multi_receivers.dom(),
    ensures
        registered(set, ids, rid) == set.multi_receivers.values().contains(rid),
{
    if registered(set, ids, rid) {
        let i = choose|i: int| 0 <= i < ids.len() && set.multi_receivers[#[trigger] ids[i]] == rid;
        assert(ids.contains(ids[i]));
        assert(ids.to_set().contains(ids[i]));
        assert(set.multi_receivers.dom().contains(ids[i]));
    }
    if set.multi_receivers.values().contains(rid) {
        let reg = choose|reg: u64| #[trigger]
            set.multi_receivers.dom().contains(reg) && set.multi_receivers[reg] == rid;
        assert(ids.to_set().contains(reg));
        assert(ids.contains(reg));
        let i = choose|i: int| 0 <= i < ids.len() && ids[i] == reg;
        assert(set.multi_receivers[ids[i]] == rid);
    }
}

/// Polling a set gives up the lost copies at every receiving end registered in
/// it, for each of its subchannels, and does nothing to any other receiving
/// end.
pub proof fn law_set_poll_reaches_every_member(
    before: PolledSet,
    set: SetId,
    lost: LostChannels,
    after: PolledSet,
    rid: ReceiverId,
    scid: Uuid,
)
    requires
        members_polled(before, set, lost, after),
        before.state.receivers.contains_key(rid),
        before.state.receivers[rid].demuxer.sub_channels.contains_key(scid),
    ensures
        after.state.sets == before.state.sets,
        after.state.receivers.dom() == before.state.receivers.dom(),
        before.state.sets.contains_key(set)
            && before.state.sets[set].multi_receivers.values().contains(rid) ==> {
            &&& after.state.receivers[rid].uuid == before.state.receivers[rid].uuid
            &&& after.state.receivers[rid].set == before.state.receivers[rid].set
            &&& after.state.receivers[rid].demuxer.clients
                == before.state.receivers[rid].demuxer.clients
            &&& after.state.receivers[rid].demuxer.senders
                == before.state.receivers[rid].demuxer.senders
            &&& after.state.receivers[rid].demuxer.sub_channels.contains_key(scid)
            &&& gives_up_lost(
                before.state.receivers[rid].demuxer.sub_channels[scid],
                lost,
                after.state.receivers[rid].demuxer.sub_channels[scid],
            )
        },
        !before.state.sets.contains_key(set)
            || !before.state.sets[set].multi_receivers.values().contains(rid)
            ==> after.state.receivers[rid] == before.state.receivers[rid],
{
    if before.state.sets.contains_key(set) {
        let polled = before.state.sets[set];
        let ids = choose|ids: Seq<u64>|
            {
                &&& ids.no_duplicates()
                &&& ids.to_set() == polled.multi_receivers.dom()
                &&& #[trigger] set_polled(polled, before, ids, lost, after)
            };
        lemma_set_polled(polled, before, ids, lost, after);
        lemma_registrations(polled, ids, rid);
        assert(receiver_outcome(before, lost, after, rid, registered(polled, ids, rid)));
        assert(after.state.receivers[rid].demuxer.sub_channels.dom().contains(scid));
    }
}

/// Polling a set tells whether a probe of a connected subchannel of a receiving
/// end registered in it reported that its channel is gone.
pub proof fn law_set_poll_tells_of_losses(
    before: PolledSet,
    set: SetId,
    lost: LostChannels,
    after: PolledSet,
)
    requires
        members_polled(before, set, lost, after),
        !before.failed,
    ensures
        after.failed == (before.state.sets.contains_key(set) && exists|rid: ReceiverId|
            {
                &&& #[trigger] before.state.sets[set].multi_receivers.values().contains(rid)
                &&& before.state.receivers.contains_key(rid)
                &&& reports_loss(before.state.receivers[rid].demuxer, lost)
            }),
{
    if before.state.sets.contains_key(set) {
        let polled = before.state.sets[set];
        let ids = choose|ids: Seq<u64>|
            {
                &&& ids.no_duplicates()
                &&& ids.to_set() == polled.multi_receivers.dom()
                &&& #[trigger] set_polled(polled, before, ids, lost, after)
            };
        lemma_set_polled(polled, before, ids, lost, after);
        assert forall|rid: ReceiverId| #[trigger]
            registered(polled, ids, rid) == polled.multi_receivers.values().contains(rid) by {
            lemma_registrations(polled, ids, rid);
        }
        if after.failed {
            let rid = choose|rid: ReceiverId|
                {
                    &&& #[trigger] registered(polled, ids, rid)
                    &&& before.state.receivers.contains_key(rid)
                    &&& reports_loss(before.state.receivers[rid].demuxer, lost)
                };
            assert(polled.multi_receivers.values().contains(rid));
        }
        if exists|rid: ReceiverId|
            {
                &&& #[trigger] polled.multi_receivers.values().contains(rid)
                &&& before.state.receivers.contains_key(rid)
                &&& reports_loss(before.state.receivers[rid].demuxer, lost)
            } {
            let rid = choose|rid: ReceiverId|
                {
                    &&& #[trigger] polled.multi_receivers.values().contains(rid)
                    &&& before.state.receivers.contains_key(rid)
                    &&& reports_loss(before.state.receivers[rid].demuxer, lost)
                };
            assert(registered(polled, ids, rid));
        }
    }
}

/// Polling a set puts nothing but news of disconnections in a mailbox, after all
/// that it held: that of each subchannel which delivered to it and has been
/// disconnected. If no other subchannel delivers to it, that is all.
pub proof fn law_set_poll_tells_mailboxes(
    before: PolledSet,
    set: SetId,
    lost: LostChannels,
    after: PolledSet,
    rid: ReceiverId,
    scid: Uuid,
    id: MailboxId,
)
    requires
        members_polled(before, set, lost, after),
        before.state.receivers.contains_key(rid),
        before.state.receivers[rid].demuxer.sub_channels.contains_key(scid),
        before.boxes.contains_key(id),
        before.boxes[id].receiving,
    ensures
        grows_by_news(before.boxes, id, after.boxes),
        ({
            let ended = before.state.receivers[rid].demuxer.sub_channels[scid].sender == Some(id)
                && after.state.receivers[rid].demuxer.sub_channels[scid].sender is None;
            let held = before.boxes[id].messages;
            &&& ended ==> news_since(after.boxes[id].messages, held.len(), scid)
            &&& sole_deliverer(before.state, rid, scid, id) ==> after.boxes[id].messages
                == if ended {
                held.push(ResolvedMessageOrDisconnect::Disconnect(SubChannelId(scid)))
            } else {
                held
            }
        }),
{
    if before.state.sets.contains_key(set) {
        let polled = before.state.sets[set];
        let ids = choose|ids: Seq<u64>|
            {
                &&& ids.no_duplicates()
                &&& ids.to_set() == polled.multi_receivers.dom()
                &&& #[trigger] set_polled(polled, before, ids, lost, after)
            };
        lemma_set_polled_mailbox(polled, before, ids, lost, after, rid, scid, id);
    } else {
        let held = before.boxes[id].messages;
        assert(held.take(held.len() as int) =~= held);
    }
}

/// A connected subchannel of a receiving end registered in a set, of which no
/// source holds a copy and of which every copy in flight is carried by a channel
/// that is gone, is disconnected when the set is polled. Its mailbox is told
/// after all that it held, and last if no other subchannel delivers to it, and
/// the poll tells of the loss.
pub proof fn law_set_poll_ends_lost_subchannel(
    before: PolledSet,
    set: SetId,
    lost: LostChannels,
    after: PolledSet,
    rid: ReceiverId,
    scid: SubChannelId,
    id: MailboxId,
)
    requires
        members_polled(before, set, lost, after),
        !before.failed,
        before.state.sets.contains_key(set),
        before.state.sets[set].multi_receivers.values().contains(rid),
        before.state.receivers.contains_key(rid),
        all_lost(before.state.receivers[rid].demuxer, scid, id, lost),
        before.boxes.contains_key(id),
        before.boxes[id].receiving,
    ensures
        after.failed,
        after.state.receivers.contains_key(rid),
        after.state.receivers[rid].demuxer.sub_channels.contains_key(scid.0),
        after.state.receivers[rid].demuxer.sub_channels[scid.0].sender is None,
        grows_by_news(before.boxes, id, after.boxes),
        news_since(after.boxes[id].messages, before.boxes[id].messages.len(), scid.0),
        sole_deliverer(before.state, rid, scid.0, id) ==> after.boxes[id].messages
            == before.boxes[id].messages.push(ResolvedMessageOrDisconnect::Disconnect(scid)),
{
    law_set_poll_reaches_every_member(before, set, lost, after, rid, scid.0);
    lemma_all_lost_ends(
        before.state.receivers[rid].demuxer,
        scid,
        id,
        lost,
        after.state.receivers[rid].demuxer.sub_channels[scid.0],
    );
    lemma_all_lost_reported(before.state.receivers[rid].demuxer, scid, id, lost);
    law_set_poll_tells_of_losses(before, set, lost, after);
    law_set_poll_tells_mailboxes(before, set, lost, after, rid, scid.0, id);
    assert(after.state.receivers.dom().contains(rid));
    assert(SubChannelId(scid.0) == scid);
}

/// A demuxer polls all its subchannels.
pub proof fn law_demuxer_polls(
    demuxer: &mut Demuxer,
    lost: &LostChannels,
    mailboxes: &mut SubChannelMailboxes,
    failed: bool,
    receiver: Uuid,
)
    requires
        call_ensures(Demuxer::poll_all_subchannels, (demuxer, lost, mailboxes), failed),
    ensures
        polled_at(
            old(demuxer)@,
            old(mailboxes)@,
            receiver,
            *lost,
            failed,
            final(demuxer)@,
            final(mailboxes)@,
        ),
{
}

/// A receiving end that is in no set polls all its subchannels, and keeps its
/// UUID.
pub proof fn law_receiving_end_polls(
    end: &mut MultiReceiver,
    lost: &LostChannels,
    mailboxes: &mut SubChannelMailboxes,
    failed: bool,
)
    requires
        call_ensures(MultiReceiver::poll, (end, lost, mailboxes), failed),
    ensures
        final(end)@.uuid == old(end)@.uuid,
        polled_at(
            old(end)@.demuxer,
            old(mailboxes)@,
            old(end)@.uuid,
            *lost,
            failed,
            final(end)@.demuxer,
            final(mailboxes)@,
        ),
{
}

/// A receiving end that has waited for a message in vain polls all its
/// subchannels.
pub proof fn law_waiting_in_vain_polls(
    end: &mut MultiReceiver,
    lost: &LostChannels,
    mailboxes: &mut SubChannelMailboxes,
    outcome: Handled,
)
    requires
        call_ensures(
            MultiReceiver::try_recv_timeout,
            (end, ReceiveEvent::Empty, lost, mailboxes),
            outcome,
        ),
    ensures
        exists|failed: bool| #[trigger]
            polled_at(
                old(end)@.demuxer,
                old(mailboxes)@,
                old(end)@.uuid,
                *lost,
                failed,
                final(end)@.demuxer,
                final(mailboxes)@,
            ),
{
    let failed = choose|failed: bool| #[trigger]
        receiver_polled(
            old(end)@,
            old(mailboxes)@,
            *lost,
            failed,
            final(end)@,
            final(mailboxes)@,
        );
    assert(polled_at(
        old(end)@.demuxer,
        old(mailboxes)@,
        old(end)@.uuid,
        *lost,
        failed,
        final(end)@.demuxer,
        final(mailboxes)@,
    ));
}

/// A receiving end in a set polls all its subchannels, keeps its UUID and stays
/// in its set.
pub proof fn law_set_member_polls(
    end: &mut SelectableMultiReceiver,
    lost: &LostChannels,
    mailboxes: &mut SubChannelMailboxes,
    failed: bool,
)
    requires
        call_ensures(SelectableMultiReceiver::poll, (end, lost, mailboxes), failed),
    ensures
        final(end)@.uuid == old(end)@.uuid,
        final(end)@.set == old(end)@.set,
        polled_at(
            old(end)@.demuxer,
            old(mailboxes)@,
            old(end)@.uuid,
            *lost,
            failed,
            final(end)@.demuxer,
            final(mailboxes)@,
        ),
{
}

/// Polling a set polls the receiving ends registered in it.
pub proof fn law_set_polls(
    selectables: &mut Selectables,
    set: SetId,
    lost: &LostChannels,
    mailboxes: &mut SubChannelMailboxes,
    failed: bool,
)
    requires
        call_ensures(Selectables::poll_set, (selectables, set, lost, mailboxes), failed),
    ensures
        members_polled(
            PolledSet { state: old(selectables)@, boxes: old(mailboxes)@, failed: false },
            set,
            *lost,
            PolledSet { state: final(selectables)@, boxes: final(mailboxes)@, failed },
        ),
{
}

/// The probes of a receiving end are those of its connected subchannels, each by
/// which a subchannel that carries copies is watched.
pub proof fn law_watched_carriers_are_probed(
    demuxer: &Demuxer,
    probes: Vec<Probe>,
    scid: Uuid,
    via: Uuid,
)
    requires
        call_ensures(Demuxer::probes, (demuxer,), probes),
        demuxer@.sub_channels.contains_key(scid),
        demuxer@.sub_channels[scid].sender is Some,
        demuxer@.sub_channels[scid].probes.contains_key(via),
    ensures
        exists|i: int|
            0 <= i < probes@.len() && #[trigger] probes@[i]
                == demuxer@.sub_channels[scid].probes[via],
{
    let probe = demuxer@.sub_channels[scid].probes[via];
    assert(demuxer@.sub_channels.contains_key(scid)
        && demuxer@.sub_channels[scid].probes.contains_key(via));
    assert(probes@.contains(probe));
}

} // verus!
