//! Lifecycle of the senders of one subchannel, as its receiving side sees it.

use crate::bags::{
    bag_contents, bag_insert, bag_is_empty, bag_items, bag_len, bag_new, bag_remove, bag_remove_up_to,
};
use hashbag::HashBag;
use std::collections::{HashMap, HashSet};
use std::marker::PhantomData;
use vstd::multiset::Multiset;
use vstd::prelude::*;

verus! {

broadcast use vstd::std_specs::hash::group_hash_axioms;

/// Runs a callback when it is dropped.
///
/// Each subsender shares a tracker with its clones, so that the callback runs
/// when the last of them is gone.
pub struct SubSenderTracker<T: Fn()> {
    notify_dropped: Box<T>,
}

impl<T: Fn()> SubSenderTracker<T> {
    /// The callback that runs when the tracker is dropped.
    pub closed spec fn callback(self) -> T {
        *self.notify_dropped
    }

    /// A tracker with a callback that can be called at any time.
    pub fn new(notify_dropped: Box<T>) -> (tracker: SubSenderTracker<T>)
        requires
            call_requires(*notify_dropped, ()),
        ensures
            tracker.callback() == *notify_dropped,
    {
        SubSenderTracker { notify_dropped }
    }
}

impl<T: Fn()> Drop for SubSenderTracker<T> {
    /// Calls the callback that the tracker was made with, which takes no
    /// argument and can be called at any time. What a callback does is up to
    /// the caller who made it; one that unwinds all the same is that caller's
    /// fault.
    #[verifier::external_body]
    fn drop(&mut self)
        opens_invariants none
        no_unwind
    {
        (self.notify_dropped)();
    }
}

/// Tracks whether the receiver of a subchannel has disconnected.
pub struct SubReceiverProxy {
    disconnected: bool,
}

impl View for SubReceiverProxy {
    type V = bool;

    closed spec fn view(&self) -> bool {
        self.disconnected
    }
}

impl SubReceiverProxy {
    /// A proxy of a connected receiver.
    pub fn new() -> (proxy: SubReceiverProxy)
        ensures
            !proxy@,
    {
        SubReceiverProxy { disconnected: false }
    }

    /// Records that the receiver has disconnected.
    pub fn disconnect(&mut self)
        ensures
            final(self)@,
    {
        self.disconnected = true;
    }

    /// Whether the receiver has disconnected.
    pub fn disconnected(&self) -> (disconnected: bool)
        ensures
            disconnected == self@,
    {
        self.disconnected
    }
}

/// Something that messages can be sent to.
pub trait Sender<M, Error> {
    fn send(&self, msg: M) -> Result<(), Error>;
}

/// What a state machine knows of the senders of its subchannel.
#[verifier::ext_equal]
pub struct SubSenderView<T, Probe> {
    /// Where messages for the subchannel are delivered, until disconnection.
    pub sender: Option<T>,
    /// The sources that hold at least one copy of the subsender.
    pub sources: Set<u128>,
    /// How often the subsender is in flight via each subchannel.
    pub in_flight: Multiset<u128>,
    /// How to find out whether the channel under a subchannel is still alive.
    pub probes: Map<u128, Probe>,
}

impl<T, Probe> SubSenderView<T, Probe> {
    /// A subsender that one source holds and that is not in flight.
    pub open spec fn initial(sender: T, source: u128) -> Self {
        SubSenderView {
            sender: Some(sender),
            sources: set![source],
            in_flight: Multiset::empty(),
            probes: Map::empty(),
        }
    }

    /// Nobody holds the subsender and it is not in flight.
    pub open spec fn unreachable(self) -> bool {
        self.sources == Set::<u128>::empty() && self.in_flight == Multiset::<u128>::empty()
    }

    /// The state once a subsender that turned out to be unreachable has been
    /// disconnected.
    pub open spec fn settled(self) -> Self {
        if self.unreachable() {
            SubSenderView { sender: None, ..self }
        } else {
            self
        }
    }

    /// What settling hands back: the sender, if the subsender is unreachable.
    pub open spec fn handed_back(self) -> Option<T> {
        if self.unreachable() {
            self.sender
        } else {
            None
        }
    }

    /// A copy of the subsender has been sent via a subchannel.
    pub open spec fn sent_via(self, via: u128, probe: Probe) -> Self {
        SubSenderView {
            in_flight: self.in_flight.insert(via),
            probes: self.probes.insert(via, probe),
            ..self
        }
    }

    /// A copy that was in flight has arrived at a source. The channel that
    /// carried it is probed no longer if it was the last one there.
    pub open spec fn arrived(self, via: u128, source: u128) -> Self {
        SubSenderView {
            sources: self.sources.insert(source),
            in_flight: self.in_flight.remove(via),
            probes: if self.in_flight.remove(via).count(via) == 0 {
                self.probes.remove(via)
            } else {
                self.probes
            },
            ..self
        }
    }

    /// A source has dropped its last copy.
    pub open spec fn dropped_at(self, source: u128) -> Self {
        SubSenderView { sources: self.sources.remove(source), ..self }
    }

    /// A copy that was in flight will not arrive.
    pub open spec fn failed_via(self, via: u128) -> Self {
        SubSenderView { in_flight: self.in_flight.remove(via), ..self }
    }

    /// The channels under the given subchannels are gone, with all copies that
    /// were in flight there.
    pub open spec fn lost_via(self, lost: Set<u128>) -> Self {
        SubSenderView {
            in_flight: self.in_flight.filter(|via: u128| !lost.contains(via)),
            probes: self.probes.remove_keys(
                lost.filter(|via: u128| self.in_flight.contains(via)),
            ),
            ..self
        }
    }
}

/// Tracks the senders of one subchannel, so that its receiver can be told when
/// the last of them is gone.
pub struct SubSenderStateMachine<T, M, Error, Probe> {
    maybe: Option<T>,
    sources: HashSet<u128>,
    in_flight: HashBag<u128>,
    probes: HashMap<u128, Probe>,
    phantom_m: PhantomData<M>,
    phantom_e: PhantomData<Error>,
}

impl<T, M, Error, Probe> View for SubSenderStateMachine<T, M, Error, Probe> {
    type V = SubSenderView<T, Probe>;

    closed spec fn view(&self) -> SubSenderView<T, Probe> {
        SubSenderView {
            sender: self.maybe,
            sources: self.sources@,
            in_flight: bag_contents(self.in_flight),
            probes: self.probes@,
        }
    }
}

pub(crate) fn contains(items: &Vec<u128>, item: u128) -> (found: bool)
    ensures
        found == items@.contains(item),
{
    let mut i: usize = 0;
    while i < items.len()
        invariant
            i <= items.len(),
            forall|j: int| 0 <= j < i ==> items@[j] != item,
        decreases items.len() - i,
    {
        if items[i] == item {
            return true;
        }
        i += 1;
    }
    false
}

impl<T, M, Error, Probe> SubSenderStateMachine<T, M, Error, Probe> {
    /// A state machine for a subsender held by one source.
    pub fn new(t: T, initial_source: u128) -> (machine: Self)
        ensures
            machine@ == SubSenderView::<T, Probe>::initial(t, initial_source),
    {
        let mut sources: HashSet<u128> = HashSet::new();
        sources.insert(initial_source);
        SubSenderStateMachine {
            maybe: Some(t),
            sources,
            in_flight: bag_new(),
            probes: HashMap::new(),
            phantom_m: PhantomData,
            phantom_e: PhantomData,
        }
    }

    /// Where messages for the subchannel are delivered, until disconnection.
    pub fn sender(&self) -> (sender: Option<&T>)
        ensures
            (match sender {
                Some(t) => self@.sender == Some(*t),
                None => self@.sender is None,
            }),
    {
        self.maybe.as_ref()
    }

    /// Sends a message to the subchannel, unless it is disconnected.
    pub fn send(&self, msg: M) -> (result: Option<Result<(), Error>>) where T: Sender<M, Error>
        requires
            self@.sender is Some ==> call_requires(T::send, (&self@.sender->0, msg)),
        ensures
            (match result {
                Some(sent) => self@.sender is Some && call_ensures(
                    T::send,
                    (&self@.sender->0, msg),
                    sent,
                ),
                None => self@.sender is None,
            }),
    {
        match &self.maybe {
            Some(t) => Some(t.send(msg)),
            None => None,
        }
    }

    /// Whether one more copy in flight can be counted.
    pub fn can_count_more(&self) -> (can: bool)
        ensures
            can == (self@.in_flight.len() < usize::MAX),
    {
        bag_len(&self.in_flight) < usize::MAX
    }

    /// Records that a copy of the subsender is being sent via the given
    /// subchannel.
    pub fn to_be_sent(&mut self, via: u128, probe: Probe)
        requires
            old(self)@.in_flight.len() < usize::MAX,
        ensures
            final(self)@ == old(self)@.sent_via(via, probe),
    {
        bag_insert(&mut self.in_flight, via);
        self.probes.insert(via, probe);
    }

    /// Records the receipt of a copy that was in flight.
    pub fn received(&mut self, via: &u128, received_at_source: u128)
        ensures
            final(self)@ == old(self)@.arrived(*via, received_at_source),
    {
        let carried: usize = bag_remove(&mut self.in_flight, *via);
        self.sources.insert(received_at_source);
        if carried <= 1 {
            self.probes.remove(via);
        }
    }

    /// Takes the sender out if the subsender is unreachable.
    fn settle(&mut self) -> (handed_back: Option<T>)
        ensures
            final(self)@ == old(self)@.settled(),
            handed_back == old(self)@.handed_back(),
    {
        if self.sources.is_empty() && bag_is_empty(&self.in_flight) {
            assert(self.sources@ =~= Set::<u128>::empty());
            assert(bag_contents(self.in_flight) =~= Multiset::<u128>::empty());
            assert(self@.unreachable());
            self.maybe.take()
        } else {
            assert(!self@.unreachable());
            None
        }
    }

    /// Disconnects the subsender from the given source. The sender is handed
    /// back if the subsender is then unreachable: sending is disabled and
    /// receiving should report disconnection.
    pub fn disconnect(&mut self, source: u128) -> (handed_back: Option<T>)
        ensures
            final(self)@ == old(self)@.dropped_at(source).settled(),
            handed_back == old(self)@.dropped_at(source).handed_back(),
    {
        self.sources.remove(&source);
        assert(self@ =~= old(self)@.dropped_at(source));
        self.settle()
    }

    /// Removes a copy that was in flight and disconnects it.
    pub fn receive_failed(&mut self, via: &u128) -> (handed_back: Option<T>)
        ensures
            final(self)@ == old(self)@.failed_via(*via).settled(),
            handed_back == old(self)@.failed_via(*via).handed_back(),
    {
        bag_remove(&mut self.in_flight, *via);
        assert(self@ =~= old(self)@.failed_via(*via));
        self.settle()
    }

    /// Delivers later messages for the subchannel elsewhere.
    pub fn switch_sender(&mut self, t: T)
        ensures
            final(self)@ == (SubSenderView { sender: Some(t), ..old(self)@ }),
    {
        self.maybe = Some(t);
    }
}

/// The vias of the given probes are exactly those in `lost` and those whose
/// probe reported a living channel.
pub open spec fn probed<Probe: Fn() -> bool>(probes: Map<u128, Probe>, lost: Set<u128>) -> bool {
    &&& lost.subset_of(probes.dom())
    &&& forall|via: u128|
        #![trigger probes[via]]
        probes.contains_key(via) ==> call_ensures(probes[via], (), !lost.contains(via))
}

impl<T, M, Error, Probe> SubSenderStateMachine<T, M, Error, Probe> {
    /// Gives up on all copies that were in flight via the given subchannels,
    /// whose channels have been found to be gone. A state machine that is
    /// already disconnected is left alone.
    ///
    /// Returns `false` and the sender if the subsender is then unreachable, and
    /// `true` otherwise.
    pub fn poll_with(&mut self, lost: &Vec<u128>) -> (polled: (bool, Option<T>))
        ensures
            old(self)@.sender is None ==> final(self)@ == old(self)@ && polled == (true, None::<T>),
            old(self)@.sender is Some ==> {
                let after = old(self)@.lost_via(lost@.to_set());
                &&& final(self)@ == after.settled()
                &&& polled == (!after.unreachable(), after.handed_back())
            },
    {
        broadcast use vstd::seq_lib::group_to_multiset_ensures;

        if self.maybe.is_none() {
            return (true, None);
        }
        let items: Vec<u128> = bag_items(&self.in_flight);
        let ghost before = self@;
        let ghost all_lost = lost@.to_set();
        proof {
            assert(items@.len() == items.len());
            assert(before.in_flight.len() == items@.len());
        }
        let mut i: usize = 0;
        while i < items.len()
            invariant
                i <= items.len(),
                before == old(self)@,
                all_lost == lost@.to_set(),
                items@.to_multiset() == before.in_flight,
                before.in_flight.len() <= usize::MAX,
                self@.sender == before.sender,
                self@.sources == before.sources,
                forall|via: u128|
                    #![trigger self@.in_flight.count(via)]
                    self@.in_flight.count(via) == (if all_lost.contains(via) && items@.take(
                        i as int,
                    ).contains(via) {
                        0
                    } else {
                        before.in_flight.count(via)
                    }),
                self@.probes == before.probes.remove_keys(
                    all_lost.filter(|via: u128| items@.take(i as int).contains(via)),
                ),
            decreases items.len() - i,
        {
            let via: u128 = items[i];
            let ghost mid = self@;
            proof {
                let earlier = items@.take(i as int);
                let now = items@.take(i + 1);
                assert(now =~= earlier.push(via));
                assert forall|v: u128| now.contains(v) <==> (earlier.contains(v) || v == via) by {
                    if earlier.contains(v) {
                        let k = choose|k: int| 0 <= k < earlier.len() && earlier[k] == v;
                        assert(now[k] == v);
                    }
                    if v == via {
                        assert(now[i as int] == v);
                    }
                }
                assert(lost@.contains(via) == all_lost.contains(via));
            }
            if contains(lost, via) {
                bag_remove_up_to(&mut self.in_flight, via, usize::MAX);
                self.probes.remove(&via);
                proof {
                    assert(mid.in_flight.count(via) <= before.in_flight.count(via));
                    assert(before.in_flight.count(via) <= before.in_flight.len());
                    assert(self@.in_flight == mid.in_flight.update(via, 0));
                    assert forall|v: u128| #![trigger self@.in_flight.count(v)]
                        self@.in_flight.count(v) == (if v == via { 0 } else { mid.in_flight.count(v) }) by {
                        if v != via {
                            vstd::multiset::lemma_update_different(mid.in_flight, via, 0, v);
                        } else {
                            vstd::multiset::lemma_update_same(mid.in_flight, via, 0);
                        }
                    }
                }
            }
            proof {
                assert(self@.probes =~= before.probes.remove_keys(
                    all_lost.filter(|v: u128| items@.take(i + 1).contains(v)),
                ));
            }
            i += 1;
        }
        proof {
            assert(items@.take(items@.len() as int) =~= items@);
            assert forall|v: u128| items@.contains(v) <==> before.in_flight.contains(v) by {}
            assert(self@.in_flight =~= before.in_flight.filter(|via: u128| !all_lost.contains(via)));
            assert(self@.probes =~= before.lost_via(all_lost).probes);
            assert(self@ =~= before.lost_via(all_lost));
        }
        let handed_back = self.settle();
        (handed_back.is_none(), handed_back)
    }
}

impl<T, M, Error, Probe: Copy> SubSenderStateMachine<T, M, Error, Probe> {
    /// The probes, each with its via, in no particular order.
    pub fn probes(&self) -> (probes: Vec<(u128, Probe)>)
        ensures
            forall|i: int|
                #![trigger probes@[i]]
                0 <= i < probes@.len() ==> self@.probes.contains_pair(probes@[i].0, probes@[i].1),
            forall|via: u128|
                #![trigger self@.probes.contains_key(via)]
                self@.probes.contains_key(via) ==> probes@.contains((via, self@.probes[via])),
    {
        let mut probes: Vec<(u128, Probe)> = Vec::new();
        for entry in entries: self.probes.iter()
            invariant
                forall|k: int|
                    #![trigger entries.seq()[k]]
                    0 <= k < entries.seq().len() ==> {
                        &&& self@.probes.contains_key(*entries.seq()[k].0)
                        &&& self@.probes[*entries.seq()[k].0] == *entries.seq()[k].1
                    },
                forall|via: u128|
                    #![trigger self@.probes.contains_key(via)]
                    self@.probes.contains_key(via) ==> entries.seq().contains(
                        (&via, &self@.probes[via]),
                    ),
                probes@.len() == entries.index(),
                forall|k: int|
                    #![trigger probes@[k]]
                    #![trigger entries.seq()[k]]
                    0 <= k < probes@.len() ==> probes@[k] == (
                        *entries.seq()[k].0,
                        *entries.seq()[k].1,
                    ),
        {
            let (via, probe) = entry;
            assert(entries.seq()[entries.index() as int] == (via, probe));
            probes.push((*via, *probe));
        }
        probes
    }
}

/// The vias whose probe reports that the channel is gone.
pub(crate) fn probe_all<Probe: Fn() -> bool>(probes: &HashMap<u128, Probe>) -> (lost: Vec<u128>)
    requires
        forall|via: u128|
            #![trigger probes@[via]]
            probes@.contains_key(via) ==> call_requires(probes@[via], ()),
    ensures
        probed(probes@, lost@.to_set()),
{
    let mut lost: Vec<u128> = Vec::new();
    for entry in entries: probes.iter()
        invariant
            forall|via: u128|
                #![trigger probes@[via]]
                probes@.contains_key(via) ==> call_requires(probes@[via], ()),
            forall|k: int|
                #![trigger entries.seq()[k]]
                0 <= k < entries.seq().len() ==> {
                    &&& probes@.contains_key(*entries.seq()[k].0)
                    &&& probes@[*entries.seq()[k].0] == *entries.seq()[k].1
                },
            forall|via: u128|
                #![trigger probes@[via]]
                probes@.contains_key(via) ==> entries.seq().contains(
                    (&via, &probes@[via]),
                ),
            entries.seq().no_duplicates(),
            forall|via: u128|
                #![trigger lost@.contains(via)]
                lost@.contains(via) ==> exists|k: int|
                    0 <= k < entries.index() && *(#[trigger] entries.seq()[k]).0 == via,
            forall|k: int|
                #![trigger entries.seq()[k]]
                0 <= k < entries.index() ==> call_ensures(
                    *entries.seq()[k].1,
                    (),
                    !lost@.contains(*entries.seq()[k].0),
                ),
    {
        let (via, probe) = entry;
        let ghost before = lost@;
        let alive = probe();
        if !alive {
            lost.push(*via);
        }
        proof {
            let n = entries.index();
            assert(entries.seq()[n] == (via, probe));
            assert(alive ==> lost@ == before);
            assert(!alive ==> lost@ == before.push(*via));
            assert forall|v: u128| #![trigger lost@.contains(v)]
                lost@.contains(v) == (before.contains(v) || (!alive && v == *via)) by {
                if before.contains(v) {
                    let j = choose|j: int| 0 <= j < before.len() && before[j] == v;
                    assert(lost@[j] == v);
                }
                if !alive && v == *via {
                    assert(lost@[before.len() as int] == v);
                }
            }
            assert forall|k: int| 0 <= k < n implies *(#[trigger] entries.seq()[k]).0 != *via by {
                if *entries.seq()[k].0 == *via {
                    assert(entries.seq()[k] == entries.seq()[n]);
                }
            }
        }
    }
    proof {
        let found = lost@.to_set();
        assert forall|via: u128| #![trigger probes@[via]]
            probes@.contains_key(via) implies call_ensures(
            probes@[via],
            (),
            !found.contains(via),
        ) by {
            assert(found.contains(via) == lost@.contains(via));
        }
    }
    lost
}

impl<T, M, Error, Probe: Fn() -> bool> SubSenderStateMachine<T, M, Error, Probe> {
    /// Probes the channels that carry copies of the subsender and gives up on
    /// the copies whose channel is gone. A state machine that is already
    /// disconnected is left alone, and no probe is run.
    ///
    /// Returns `false` and the sender if the subsender is then unreachable, and
    /// `true` otherwise.
    pub fn poll(&mut self) -> (polled: (bool, Option<T>))
        requires
            forall|via: u128|
                #![trigger old(self)@.probes[via]]
                old(self)@.probes.contains_key(via) ==> call_requires(old(self)@.probes[via], ()),
        ensures
            old(self)@.sender is None ==> final(self)@ == old(self)@ && polled == (true, None::<T>),
            old(self)@.sender is Some ==> exists|lost: Set<u128>|
                {
                    let after = old(self)@.lost_via(lost);
                    &&& #[trigger] probed(old(self)@.probes, lost)
                    &&& final(self)@ == after.settled()
                    &&& polled == (!after.unreachable(), after.handed_back())
                },
    {
        if self.maybe.is_none() {
            return (true, None);
        }
        assert(self@.probes == old(self)@.probes);
        let lost: Vec<u128> = probe_all(&self.probes);
        self.poll_with(&lost)
    }
}

/// What can happen to the copies of a subsender.
pub enum SubSenderEvent<Probe> {
    /// A copy is sent via a subchannel.
    Sent { via: u128, probe: Probe },
    /// A copy that was sent via a subchannel arrives at a source.
    Arrived { via: u128, source: u128 },
    /// A source drops its last copy.
    Dropped { source: u128 },
    /// A copy that was sent via a subchannel cannot be received.
    Failed { via: u128 },
    /// The channels under some subchannels are found to be gone.
    Lost { lost: Set<u128> },
}

impl<T, Probe> SubSenderView<T, Probe> {
    /// The state after an event.
    pub open spec fn after(self, event: SubSenderEvent<Probe>) -> Self {
        match event {
            SubSenderEvent::Sent { via, probe } => self.sent_via(via, probe),
            SubSenderEvent::Arrived { via, source } => self.arrived(via, source),
            SubSenderEvent::Dropped { source } => self.dropped_at(source).settled(),
            SubSenderEvent::Failed { via } => self.failed_via(via).settled(),
            SubSenderEvent::Lost { lost } => if self.sender is None {
                self
            } else {
                self.lost_via(lost).settled()
            },
        }
    }

    /// The state after a series of events.
    pub open spec fn after_all(self, events: Seq<SubSenderEvent<Probe>>) -> Self
        decreases events.len(),
    {
        if events.len() == 0 {
            self
        } else {
            self.after_all(events.drop_last()).after(events.last())
        }
    }
}

/// The number of copies that were sent via a subchannel.
pub open spec fn times_sent<Probe>(events: Seq<SubSenderEvent<Probe>>, via: u128) -> nat
    decreases events.len(),
{
    if events.len() == 0 {
        0
    } else {
        times_sent(events.drop_last(), via) + if events.last() matches SubSenderEvent::Sent {
            via: v,
            ..
        } && v == via {
            1nat
        } else {
            0
        }
    }
}

/// The number of copies that were sent via a subchannel and either arrived or
/// failed to.
pub open spec fn times_ended<Probe>(events: Seq<SubSenderEvent<Probe>>, via: u128) -> nat
    decreases events.len(),
{
    if events.len() == 0 {
        0
    } else {
        times_ended(events.drop_last(), via) + match events.last() {
            SubSenderEvent::Arrived { via: v, .. } => if v == via {
                1nat
            } else {
                0
            },
            SubSenderEvent::Failed { via: v } => if v == via {
                1nat
            } else {
                0
            },
            _ => 0,
        }
    }
}

/// No event reports that the channel under a subchannel is gone.
pub open spec fn never_lost<Probe>(events: Seq<SubSenderEvent<Probe>>, via: u128) -> bool {
    forall|i: int|
        #![trigger events[i]]
        0 <= i < events.len() ==> (events[i] matches SubSenderEvent::Lost { lost }
            ==> !lost.contains(via))
}

/// A source that drops its last copy does not disconnect a subsender of which
/// another source holds a copy, or of which a copy is in flight.
pub proof fn law_remaining_copy_keeps_subsender_connected<T, Probe>(
    state: SubSenderView<T, Probe>,
    source: u128,
    other: u128,
)
    requires
        state.in_flight.count(other) > 0 || (state.sources.contains(other) && other != source),
    ensures
        state.dropped_at(source).settled() == state.dropped_at(source),
        state.dropped_at(source).handed_back() is None,
{
    let after = state.dropped_at(source);
    if state.in_flight.count(other) > 0 {
        assert(after.in_flight != Multiset::<u128>::empty());
    } else {
        assert(after.sources.contains(other));
    }
}

/// The drop of the last copy disconnects the subsender and hands its sender
/// back.
pub proof fn law_last_drop_disconnects<T, Probe>(state: SubSenderView<T, Probe>, source: u128)
    requires
        state.sources.subset_of(set![source]),
        state.in_flight == Multiset::<u128>::empty(),
    ensures
        state.dropped_at(source).settled().sender is None,
        state.dropped_at(source).handed_back() == state.sender,
{
    assert(state.dropped_at(source).sources =~= Set::<u128>::empty());
}

/// Disconnection is final: whatever happens to a disconnected subsender, it
/// stays disconnected, and no sender is handed back a second time.
pub proof fn law_disconnection_is_final<T, Probe>(
    state: SubSenderView<T, Probe>,
    events: Seq<SubSenderEvent<Probe>>,
    source: u128,
    via: u128,
    lost: Set<u128>,
)
    requires
        state.sender is None,
    ensures
        state.after_all(events).sender is None,
        state.after_all(events).dropped_at(source).handed_back() is None,
        state.after_all(events).failed_via(via).handed_back() is None,
        state.after_all(events).lost_via(lost).handed_back() is None,
    decreases events.len(),
{
    if events.len() > 0 {
        law_disconnection_is_final(state, events.drop_last(), source, via, lost);
    }
}

/// A subsender is not disconnected before a moment at which nobody held it and
/// no copy was in flight.
pub proof fn law_connected_while_reachable<T, Probe>(
    state: SubSenderView<T, Probe>,
    events: Seq<SubSenderEvent<Probe>>,
)
    requires
        forall|n: int|
            #![trigger events.take(n)]
            0 <= n <= events.len() ==> !state.after_all(events.take(n)).unreachable(),
    ensures
        state.after_all(events).sender == state.sender,
    decreases events.len(),
{
    assert(events.take(events.len() as int) =~= events);
    if events.len() > 0 {
        let earlier = events.drop_last();
        assert forall|n: int| #![trigger earlier.take(n)] 0 <= n <= earlier.len() implies !state.after_all(
            earlier.take(n),
        ).unreachable() by {
            assert(earlier.take(n) =~= events.take(n));
        }
        law_connected_while_reachable(state, earlier);
    }
}

/// As long as fewer copies have ended than were sent via a subchannel whose
/// channel lives, one of them is in flight, and the subsender stays connected:
/// as many receipts are needed as there were transmissions.
pub proof fn law_each_transmission_needs_a_receipt<T, Probe>(
    state: SubSenderView<T, Probe>,
    events: Seq<SubSenderEvent<Probe>>,
    via: u128,
)
    requires
        never_lost(events, via),
        times_ended(events, via) < times_sent(events, via),
    ensures
        state.after_all(events).in_flight.count(via) > 0,
        !state.after_all(events).unreachable(),
{
    lemma_in_flight_at_least(state, events, via);
    let after = state.after_all(events);
    assert(after.in_flight != Multiset::<u128>::empty());
}

proof fn lemma_in_flight_at_least<T, Probe>(
    state: SubSenderView<T, Probe>,
    events: Seq<SubSenderEvent<Probe>>,
    via: u128,
)
    requires
        never_lost(events, via),
    ensures
        state.after_all(events).in_flight.count(via) + times_ended(events, via) >= times_sent(
            events,
            via,
        ),
    decreases events.len(),
{
    if events.len() > 0 {
        let earlier = events.drop_last();
        assert forall|i: int| #![trigger earlier[i]] 0 <= i < earlier.len() implies (
        earlier[i] matches SubSenderEvent::Lost { lost } ==> !lost.contains(via)) by {
            assert(earlier[i] == events[i]);
        }
        lemma_in_flight_at_least(state, earlier, via);
        let before = state.after_all(earlier);
        assert(events[events.len() - 1] == events.last());
        match events.last() {
            SubSenderEvent::Sent { via: v, probe } => {
                assert(before.in_flight.insert(v).count(via) == before.in_flight.count(via) + if v
                    == via {
                    1nat
                } else {
                    0
                });
            },
            SubSenderEvent::Lost { lost } => {
                assert(before.lost_via(lost).in_flight.count(via) == before.in_flight.count(via));
            },
            _ => {},
        }
    }
}

proof fn lemma_copies_are_probed<T, Probe>(
    sender: T,
    source: u128,
    events: Seq<SubSenderEvent<Probe>>,
    via: u128,
)
    ensures
        ({
            let state = SubSenderView::initial(sender, source).after_all(events);
            state.in_flight.count(via) > 0 ==> state.probes.contains_key(via)
        }),
    decreases events.len(),
{
    if events.len() > 0 {
        lemma_copies_are_probed(sender, source, events.drop_last(), via);
        let before = SubSenderView::initial(sender, source).after_all(events.drop_last());
        match events.last() {
            SubSenderEvent::Sent { via: v, probe } => {
                assert(before.in_flight.insert(v).count(via) == before.in_flight.count(via) + if v
                    == via {
                    1nat
                } else {
                    0
                });
            },
            SubSenderEvent::Lost { lost } => {
                if before.sender is Some {
                    assert(before.lost_via(lost).in_flight.count(via) == if lost.contains(via) {
                        0
                    } else {
                        before.in_flight.count(via)
                    });
                }
            },
            _ => {},
        }
    }
}

/// No copy in flight is forgotten: whatever has happened to a subsender, the
/// channel that carries a copy is probed. Once no source holds a copy and all
/// channels that carry one are found to be gone, the subsender is disconnected.
pub proof fn law_lost_copies_disconnect<T, Probe>(
    sender: T,
    source: u128,
    events: Seq<SubSenderEvent<Probe>>,
    lost: Set<u128>,
)
    ensures
        ({
            let state = SubSenderView::initial(sender, source).after_all(events);
            &&& forall|via: u128| #[trigger]
                state.in_flight.contains(via) ==> state.probes.contains_key(via)
            &&& state.sources == Set::<u128>::empty() && state.probes.dom().subset_of(lost) ==> {
                &&& state.lost_via(lost).unreachable()
                &&& state.lost_via(lost).settled().sender is None
                &&& state.lost_via(lost).handed_back() == state.sender
            }
        }),
{
    let state = SubSenderView::initial(sender, source).after_all(events);
    assert forall|via: u128| #[trigger] state.in_flight.contains(via) implies state.probes.contains_key(
        via,
    ) by {
        lemma_copies_are_probed(sender, source, events, via);
    }
    if state.sources == Set::<u128>::empty() && state.probes.dom().subset_of(lost) {
        assert forall|via: u128| #[trigger] state.lost_via(lost).in_flight.count(via) == 0 by {
            if state.in_flight.count(via) > 0 {
                assert(state.in_flight.contains(via));
                assert(state.probes.dom().contains(via));
            }
        }
        assert(state.lost_via(lost).in_flight =~= Multiset::<u128>::empty());
    }
}

/// A copy that is sent and then arrives leaves nothing in flight that was not
/// in flight before, and so does one that fails to arrive.
pub proof fn law_ending_undoes_sending<T, Probe>(
    state: SubSenderView<T, Probe>,
    via: u128,
    probe: Probe,
    source: u128,
)
    ensures
        state.sent_via(via, probe).arrived(via, source).in_flight == state.in_flight,
        state.sent_via(via, probe).arrived(via, source).sources.contains(source),
        state.sent_via(via, probe).failed_via(via).in_flight == state.in_flight,
        state.sent_via(via, probe).failed_via(via).sources == state.sources,
{
    assert(state.in_flight.insert(via).remove(via) =~= state.in_flight);
}

/// Giving up on lost channels ends every copy that was in flight there and no
/// other.
pub proof fn law_lost_channels_end_their_copies<T, Probe>(
    state: SubSenderView<T, Probe>,
    lost: Set<u128>,
    via: u128,
)
    ensures
        lost.contains(via) ==> state.lost_via(lost).in_flight.count(via) == 0,
        !lost.contains(via) ==> state.lost_via(lost).in_flight.count(via)
            == state.in_flight.count(via),
        lost.contains(via) && state.in_flight.count(via) > 0 ==> !state.lost_via(
            lost,
        ).probes.contains_key(via),
        !lost.contains(via) ==> state.lost_via(lost).probes.contains_key(via)
            == state.probes.contains_key(via),
{
}

/// A state machine that is new knows of one copy of the subsender, at the source
/// where it was created, and delivers to the given sender.
pub proof fn law_new_subsender_has_one_copy<T, M, Error, Probe>(
    t: T,
    source: u128,
    machine: SubSenderStateMachine<T, M, Error, Probe>,
)
    requires
        call_ensures(SubSenderStateMachine::<T, M, Error, Probe>::new, (t, source), machine),
    ensures
        machine@.sender == Some(t),
        forall|other: u128| #[trigger] machine@.sources.contains(other) <==> other == source,
        forall|copy: u128| #[trigger] machine@.in_flight.count(copy) == 0,
        forall|via: u128| !#[trigger] machine@.probes.contains_key(via),
{
}

/// A message is handed to the sender, as it is, if and only if the subsender is
/// connected.
pub proof fn law_connected_subsender_delivers<T: Sender<M, Error>, M, Error, Probe>(
    machine: &SubSenderStateMachine<T, M, Error, Probe>,
    sender: Option<&T>,
    message: M,
    result: Option<Result<(), Error>>,
    can: bool,
)
    requires
        call_ensures(SubSenderStateMachine::<T, M, Error, Probe>::sender, (machine,), sender),
        call_ensures(
            SubSenderStateMachine::<T, M, Error, Probe>::send,
            (machine, message),
            result,
        ),
        call_ensures(SubSenderStateMachine::<T, M, Error, Probe>::can_count_more, (machine,), can),
    ensures
        sender is Some <==> machine@.sender is Some,
        sender matches Some(t) ==> machine@.sender == Some(*t),
        result is Some <==> machine@.sender is Some,
        result matches Some(sent) ==> call_ensures(T::send, (&machine@.sender->0, message), sent),
        can <==> machine@.in_flight.len() < usize::MAX,
{
}

/// Some source holds a copy of a subsender, or some subchannel carries one.
pub open spec fn in_use<T, Probe>(state: SubSenderView<T, Probe>) -> bool {
    ||| exists|source: u128| #[trigger] state.sources.contains(source)
    ||| exists|copy: u128| #[trigger] state.in_flight.count(copy) > 0
}

proof fn lemma_in_use<T, Probe>(state: SubSenderView<T, Probe>)
    ensures
        state.unreachable() == !in_use(state),
{
    if !in_use(state) {
        assert forall|source: u128| !state.sources.contains(source) by {}
        assert(state.sources =~= Set::<u128>::empty());
        assert forall|copy: u128| state.in_flight.count(copy) == 0 by {}
        assert(state.in_flight =~= Multiset::<u128>::empty());
    }
}

/// The sender is handed back, and the subsender disconnected, if and only if no
/// copy of it is left in use.
pub open spec fn ends_when_unused<T, Probe>(
    was: SubSenderView<T, Probe>,
    now: SubSenderView<T, Probe>,
    handed_back: Option<T>,
) -> bool {
    &&& in_use(now) ==> now.sender == was.sender && handed_back is None
    &&& !in_use(now) ==> now.sender is None && handed_back == was.sender
}

/// A copy that is sent is in flight once more, and the channel that carries it
/// is watched by the probe that came last. Nothing else changes.
pub proof fn law_sent_copy_is_in_flight<T, M, Error, Probe>(
    machine: &mut SubSenderStateMachine<T, M, Error, Probe>,
    via: u128,
    probe: Probe,
)
    requires
        call_ensures(
            SubSenderStateMachine::<T, M, Error, Probe>::to_be_sent,
            (machine, via, probe),
            (),
        ),
    ensures
        ({
            let was = old(machine)@;
            let now = final(machine)@;
            &&& now.sender == was.sender
            &&& now.sources == was.sources
            &&& now.in_flight.count(via) == was.in_flight.count(via) + 1
            &&& forall|copy: u128|
                copy != via ==> #[trigger] now.in_flight.count(copy) == was.in_flight.count(copy)
            &&& now.probes.contains_key(via)
            &&& now.probes[via] == probe
            &&& forall|other: u128|
                #![trigger was.probes.contains_key(other)]
                #![trigger now.probes.contains_key(other)]
                other != via ==> {
                    &&& now.probes.contains_key(other) == was.probes.contains_key(other)
                    &&& was.probes.contains_key(other) ==> now.probes[other] == was.probes[other]
                }
        }),
{
}

/// A copy that has arrived is held where it arrived, and in flight once less. The
/// channel that carried it is watched no longer if it was the last one there.
/// Nothing else changes.
pub proof fn law_received_copy_is_held<T, M, Error, Probe>(
    machine: &mut SubSenderStateMachine<T, M, Error, Probe>,
    via: &u128,
    source: u128,
)
    requires
        call_ensures(
            SubSenderStateMachine::<T, M, Error, Probe>::received,
            (machine, via, source),
            (),
        ),
    ensures
        ({
            let was = old(machine)@;
            let now = final(machine)@;
            &&& now.sender == was.sender
            &&& forall|other: u128| #[trigger]
                now.sources.contains(other) <==> was.sources.contains(other) || other == source
            &&& was.in_flight.count(*via) > 0 ==> now.in_flight.count(*via)
                == was.in_flight.count(*via) - 1
            &&& was.in_flight.count(*via) == 0 ==> now.in_flight.count(*via) == 0
            &&& forall|copy: u128|
                copy != *via ==> #[trigger] now.in_flight.count(copy) == was.in_flight.count(copy)
            &&& forall|other: u128| #[trigger]
                now.probes.contains_key(other) == (was.probes.contains_key(other) && !(other == *via
                    && now.in_flight.count(other) == 0))
            &&& forall|other: u128| #[trigger]
                now.probes.contains_key(other) ==> now.probes[other] == was.probes[other]
        }),
{
}

/// A source that drops its last copy holds none any more, and all other copies
/// stay. The subsender is disconnected if that was the last one in use.
pub proof fn law_source_lets_go<T, M, Error, Probe>(
    machine: &mut SubSenderStateMachine<T, M, Error, Probe>,
    source: u128,
    handed_back: Option<T>,
)
    requires
        call_ensures(
            SubSenderStateMachine::<T, M, Error, Probe>::disconnect,
            (machine, source),
            handed_back,
        ),
    ensures
        ({
            let was = old(machine)@;
            let now = final(machine)@;
            &&& forall|other: u128| #[trigger]
                now.sources.contains(other) <==> was.sources.contains(other) && other != source
            &&& now.in_flight == was.in_flight
            &&& now.probes == was.probes
            &&& ends_when_unused(was, now, handed_back)
        }),
{
    lemma_in_use(old(machine)@.dropped_at(source));
    lemma_in_use(old(machine)@.dropped_at(source).settled());
}

/// All copies of a subsender in flight via the given subchannels have been given
/// up, and those subchannels are watched no longer. All other copies stay.
pub open spec fn gives_up_lost<T, Probe>(
    was: SubSenderView<T, Probe>,
    lost: Set<u128>,
    now: SubSenderView<T, Probe>,
) -> bool {
    &&& now.sources == was.sources
    &&& forall|via: u128| #[trigger]
        now.in_flight.count(via) == if lost.contains(via) {
            0
        } else {
            was.in_flight.count(via)
        }
    &&& forall|via: u128| #[trigger]
        now.probes.contains_key(via) == (was.probes.contains_key(via) && !(lost.contains(via)
            && was.in_flight.count(via) > 0))
    &&& forall|via: u128| #[trigger]
        now.probes.contains_key(via) ==> now.probes[via] == was.probes[via]
}

proof fn lemma_lost<T, Probe>(state: SubSenderView<T, Probe>, lost: Set<u128>)
    ensures
        gives_up_lost(state, lost, state.lost_via(lost).settled()),
        ends_when_unused(
            state,
            state.lost_via(lost).settled(),
            state.lost_via(lost).handed_back(),
        ),
        state.lost_via(lost).unreachable() == !in_use(state.lost_via(lost).settled()),
{
    let after = state.lost_via(lost);
    lemma_in_use(after);
    lemma_in_use(after.settled());
}

/// A copy that cannot be received is in flight once less, and held nowhere for
/// it. The subsender is disconnected if that was the last one in use.
pub proof fn law_failed_copy_is_given_up<T, M, Error, Probe>(
    machine: &mut SubSenderStateMachine<T, M, Error, Probe>,
    via: &u128,
    handed_back: Option<T>,
)
    requires
        call_ensures(
            SubSenderStateMachine::<T, M, Error, Probe>::receive_failed,
            (machine, via),
            handed_back,
        ),
    ensures
        ({
            let was = old(machine)@;
            let now = final(machine)@;
            &&& now.sources == was.sources
            &&& now.probes == was.probes
            &&& was.in_flight.count(*via) > 0 ==> now.in_flight.count(*via) == was.in_flight.count(
                *via,
            ) - 1
            &&& was.in_flight.count(*via) == 0 ==> now.in_flight.count(*via) == 0
            &&& forall|other: u128|
                other != *via ==> #[trigger] now.in_flight.count(other) == was.in_flight.count(
                    other,
                )
            &&& ends_when_unused(was, now, handed_back)
        }),
{
    lemma_in_use(old(machine)@.failed_via(*via));
    lemma_in_use(old(machine)@.failed_via(*via).settled());
}

/// Later messages are delivered to another sender. The copies of the subsender
/// stay as they are.
pub proof fn law_switched_sender_delivers<T, M, Error, Probe>(
    machine: &mut SubSenderStateMachine<T, M, Error, Probe>,
    t: T,
)
    requires
        call_ensures(
            SubSenderStateMachine::<T, M, Error, Probe>::switch_sender,
            (machine, t),
            (),
        ),
    ensures
        final(machine)@.sender == Some(t),
        final(machine)@.sources == old(machine)@.sources,
        final(machine)@.in_flight == old(machine)@.in_flight,
        final(machine)@.probes == old(machine)@.probes,
{
}

/// Polling gives up the copies whose channels are gone, and no others, and
/// disconnects the subsender if none is left in use, which is what it tells.
/// A subsender that is disconnected is left alone.
pub proof fn law_poll_gives_up_lost_copies<T, M, Error, Probe>(
    machine: &mut SubSenderStateMachine<T, M, Error, Probe>,
    lost: &Vec<u128>,
    polled: (bool, Option<T>),
)
    requires
        call_ensures(
            SubSenderStateMachine::<T, M, Error, Probe>::poll_with,
            (machine, lost),
            polled,
        ),
    ensures
        old(machine)@.sender is None ==> final(machine)@ == old(machine)@ && polled.0
            && polled.1 is None,
        old(machine)@.sender is Some ==> {
            &&& gives_up_lost(old(machine)@, lost@.to_set(), final(machine)@)
            &&& ends_when_unused(old(machine)@, final(machine)@, polled.1)
            &&& polled.0 == in_use(final(machine)@)
        },
{
    lemma_lost(old(machine)@, lost@.to_set());
}

/// A poll that runs the probes gives up the copies in flight via exactly those
/// subchannels whose probe failed.
pub proof fn law_poll_runs_the_probes<T, M, Error, Probe: Fn() -> bool>(
    machine: &mut SubSenderStateMachine<T, M, Error, Probe>,
    polled: (bool, Option<T>),
)
    requires
        call_ensures(SubSenderStateMachine::<T, M, Error, Probe>::poll, (machine,), polled),
    ensures
        old(machine)@.sender is None ==> final(machine)@ == old(machine)@ && polled.0
            && polled.1 is None,
        old(machine)@.sender is Some ==> exists|lost: Set<u128>|
            {
                &&& #[trigger] gives_up_lost(old(machine)@, lost, final(machine)@)
                &&& ends_when_unused(old(machine)@, final(machine)@, polled.1)
                &&& polled.0 == in_use(final(machine)@)
                &&& forall|via: u128| #[trigger]
                    lost.contains(via) ==> old(machine)@.probes.contains_key(via)
                &&& forall|via: u128|
                    #![trigger old(machine)@.probes[via]]
                    old(machine)@.probes.contains_key(via) ==> call_ensures(
                        old(machine)@.probes[via],
                        (),
                        !lost.contains(via),
                    )
            },
{
    if old(machine)@.sender is Some {
        assert forall|lost: Set<u128>| #[trigger] probed(old(machine)@.probes, lost) implies {
            &&& gives_up_lost(old(machine)@, lost, old(machine)@.lost_via(lost).settled())
            &&& ends_when_unused(
                old(machine)@,
                old(machine)@.lost_via(lost).settled(),
                old(machine)@.lost_via(lost).handed_back(),
            )
            &&& old(machine)@.lost_via(lost).unreachable() == !in_use(
                old(machine)@.lost_via(lost).settled(),
            )
        } by {
            lemma_lost(old(machine)@, lost);
        }
    }
}

/// A proxy of a receiver is connected until it is told otherwise.
pub proof fn law_proxy_is_connected_until_told(
    created: SubReceiverProxy,
    told: &mut SubReceiverProxy,
    asked: &SubReceiverProxy,
    disconnected: bool,
)
    requires
        call_ensures(SubReceiverProxy::new, (), created),
        call_ensures(SubReceiverProxy::disconnect, (told,), ()),
        call_ensures(SubReceiverProxy::disconnected, (asked,), disconnected),
    ensures
        *asked == created ==> !disconnected,
        *asked == *final(told) ==> disconnected,
{
}

} // verus!
