//! Lifecycle of the senders of one subchannel, where a copy in flight is known
//! by the source that it was sent from and the subchannel that carries it.

use crate::bags::{
    pair_bag_contents, pair_bag_insert, pair_bag_is_empty, pair_bag_items, pair_bag_len,
    pair_bag_new, pair_bag_remove, pair_bag_remove_up_to,
};
use crate::mux::demux::contains as contains_handle;
use crate::mux::sender_id::ForwardSender;
use crate::mux::subchannel_lifecycle::{contains, probe_all, probed};
pub use crate::mux::subchannel_lifecycle::{Sender, SubReceiverProxy, SubSenderTracker};
use hashbag::HashBag;
use std::collections::{HashMap, HashSet};
use std::marker::PhantomData;
use std::sync::Arc;
use vstd::multiset::Multiset;
use vstd::prelude::*;

verus! {

broadcast use vstd::std_specs::hash::group_hash_axioms;

/// What a state machine knows of the senders of its subchannel.
#[verifier::ext_equal]
pub struct SubSenderView<T, Probe> {
    /// Where messages for the subchannel are delivered, until disconnection.
    pub sender: Option<T>,
    /// The sources that hold at least one copy of the subsender.
    pub sources: Set<u128>,
    /// How often the subsender is in flight from each source via each
    /// subchannel.
    pub in_flight: Multiset<(u128, u128)>,
    /// How to find out whether the channel under a subchannel is still alive.
    pub probes: Map<u128, Probe>,
}

impl<T, Probe> SubSenderView<T, Probe> {
    /// A subsender that one source holds and that is not in flight.
    pub open spec fn initial(sender: T, source: u128) -> Self {
        SubSenderView {
            sender: Some(sender),
            sources: set![source],
            in_flight: Multiset::empty(),
            probes: Map::empty(),
        }
    }

    /// Nobody holds the subsender and it is not in flight.
    pub open spec fn unreachable(self) -> bool {
        self.sources == Set::<u128>::empty() && (self.in_flight == Multiset::<
            (u128, u128),
        >::empty())
    }

    /// The state once a subsender that turned out to be unreachable has been
    /// disconnected.
    pub open spec fn settled(self) -> Self {
        if self.unreachable() {
            SubSenderView { sender: None, ..self }
        } else {
            self
        }
    }

    /// What settling hands back: the sender, if the subsender is unreachable.
    pub open spec fn handed_back(self) -> Option<T> {
        if self.unreachable() {
            self.sender
        } else {
            None
        }
    }

    /// A copy of the subsender has been sent from a source via a subchannel.
    pub open spec fn sent_via(self, from: u128, via: u128, probe: Probe) -> Self {
        SubSenderView {
            in_flight: self.in_flight.insert((from, via)),
            probes: self.probes.insert(via, probe),
            ..self
        }
    }

    /// A copy that was in flight has arrived at a source.
    pub open spec fn arrived(self, from: u128, via: u128, source: u128) -> Self {
        SubSenderView {
            sources: self.sources.insert(source),
            in_flight: self.in_flight.remove((from, via)),
            ..self
        }
    }

    /// A source has dropped its last copy.
    pub open spec fn dropped_at(self, source: u128) -> Self {
        SubSenderView { sources: self.sources.remove(source), ..self }
    }

    /// Copies are in flight via a subchannel.
    pub open spec fn carried_by(self, via: u128) -> bool {
        exists|from: u128| #[trigger] self.in_flight.contains((from, via))
    }

    /// The channels under the given subchannels are gone, with all copies that
    /// were in flight there.
    pub open spec fn lost_via(self, lost: Set<u128>) -> Self {
        SubSenderView {
            in_flight: self.in_flight.filter(|copy: (u128, u128)| !lost.contains(copy.1)),
            probes: self.probes.remove_keys(lost.filter(|via: u128| self.carried_by(via))),
            ..self
        }
    }
}

/// A copy that was sent via the subchannel is among the given ones.
spec fn carries(copies: Seq<(u128, u128)>, via: u128) -> bool {
    exists|from: u128| #[trigger] copies.contains((from, via))
}

/// Tracks the senders of one subchannel, so that its receiver can be told when
/// the last of them is gone.
pub struct SubSenderStateMachine<T, M, Error, Probe> {
    maybe: Option<T>,
    sources: HashSet<u128>,
    in_flight: HashBag<(u128, u128)>,
    probes: HashMap<u128, Probe>,
    phantom_m: PhantomData<M>,
    phantom_e: PhantomData<Error>,
}

impl<T, M, Error, Probe> View for SubSenderStateMachine<T, M, Error, Probe> {
    type V = SubSenderView<T, Probe>;

    closed spec fn view(&self) -> SubSenderView<T, Probe> {
        SubSenderView {
            sender: self.maybe,
            sources: self.sources@,
            in_flight: pair_bag_contents(self.in_flight),
            probes: self.probes@,
        }
    }
}

impl<T, M, Error, Probe> SubSenderStateMachine<T, M, Error, Probe> {
    /// A state machine for a subsender held by one source.
    pub fn new(t: T, initial_source: u128) -> (machine: Self)
        ensures
            machine@ == SubSenderView::<T, Probe>::initial(t, initial_source),
    {
        let mut sources: HashSet<u128> = HashSet::new();
        sources.insert(initial_source);
        SubSenderStateMachine {
            maybe: Some(t),
            sources,
            in_flight: pair_bag_new(),
            probes: HashMap::new(),
            phantom_m: PhantomData,
            phantom_e: PhantomData,
        }
    }

    /// Where messages for the subchannel are delivered, until disconnection.
    pub fn sender(&self) -> (sender: Option<&T>)
        ensures
            (match sender {
                Some(t) => self@.sender == Some(*t),
                None => self@.sender is None,
            }),
    {
        self.maybe.as_ref()
    }

    /// Sends a message to the subchannel, unless it is disconnected.
    pub fn send(&self, msg: M) -> (result: Option<Result<(), Error>>) where T: Sender<M, Error>
        requires
            self@.sender is Some ==> call_requires(T::send, (&self@.sender->0, msg)),
        ensures
            (match result {
                Some(sent) => self@.sender is Some && call_ensures(
                    T::send,
                    (&self@.sender->0, msg),
                    sent,
                ),
                None => self@.sender is None,
            }),
    {
        match &self.maybe {
            Some(t) => Some(t.send(msg)),
            None => None,
        }
    }

    /// Whether one more copy in flight can be counted.
    pub fn can_count_more(&self) -> (can: bool)
        ensures
            can == (self@.in_flight.len() < usize::MAX),
    {
        pair_bag_len(&self.in_flight) < usize::MAX
    }

    /// Records that a copy of the subsender is being sent from the given source
    /// via the given subchannel.
    pub fn to_be_sent(&mut self, from: u128, via: u128, probe: Probe)
        requires
            old(self)@.in_flight.len() < usize::MAX,
        ensures
            final(self)@ == old(self)@.sent_via(from, via, probe),
    {
        pair_bag_insert(&mut self.in_flight, (from, via));
        self.probes.insert(via, probe);
    }

    /// Records the receipt of a copy that was in flight.
    pub fn received(&mut self, from: u128, via: u128, received_at_source: u128)
        ensures
            final(self)@ == old(self)@.arrived(from, via, received_at_source),
    {
        pair_bag_remove(&mut self.in_flight, (from, via));
        self.sources.insert(received_at_source);
    }

    /// Takes the sender out if the subsender is unreachable.
    fn settle(&mut self) -> (handed_back: Option<T>)
        ensures
            final(self)@ == old(self)@.settled(),
            handed_back == old(self)@.handed_back(),
    {
        if self.sources.is_empty() && pair_bag_is_empty(&self.in_flight) {
            assert(self.sources@ =~= Set::<u128>::empty());
            assert(pair_bag_contents(self.in_flight) =~= Multiset::<(u128, u128)>::empty());
            assert(self@.unreachable());
            self.maybe.take()
        } else {
            assert(!self@.unreachable());
            None
        }
    }

    /// Disconnects the subsender from the given source. Once it has been
    /// disconnected from all its sources and is not in flight, the sender is
    /// handed back: sending is disabled and receiving should report
    /// disconnection.
    pub fn disconnect(&mut self, source: u128) -> (handed_back: Option<T>)
        ensures
            final(self)@ == old(self)@.dropped_at(source).settled(),
            handed_back == old(self)@.dropped_at(source).handed_back(),
    {
        self.sources.remove(&source);
        assert(self@ =~= old(self)@.dropped_at(source));
        self.settle()
    }

    /// Gives up on all copies that were in flight via the given subchannels,
    /// whose channels have been found to be gone.
    ///
    /// Returns whether none was gone, and the sender if the subsender is then
    /// unreachable.
    pub fn poll_with(&mut self, lost: &Vec<u128>) -> (polled: (bool, Option<T>))
        ensures
            ({
                let after = old(self)@.lost_via(lost@.to_set());
                &&& final(self)@ == after.settled()
                &&& polled == (lost@.len() == 0, after.handed_back())
            }),
    {
        broadcast use vstd::seq_lib::group_to_multiset_ensures;

        let items: Vec<(u128, u128)> = pair_bag_items(&self.in_flight);
        let ghost before = self@;
        let ghost all_lost = lost@.to_set();
        proof {
            assert(items@.len() == items.len());
            assert(before.in_flight.len() == items@.len());
        }
        let mut i: usize = 0;
        while i < items.len()
            invariant
                i <= items.len(),
                before == old(self)@,
                all_lost == lost@.to_set(),
                items@.to_multiset() == before.in_flight,
                before.in_flight.len() <= usize::MAX,
                self@.sender == before.sender,
                self@.sources == before.sources,
                forall|copy: (u128, u128)|
                    #![trigger self@.in_flight.count(copy)]
                    self@.in_flight.count(copy) == (if all_lost.contains(copy.1) && items@.take(
                        i as int,
                    ).contains(copy) {
                        0
                    } else {
                        before.in_flight.count(copy)
                    }),
                self@.probes == before.probes.remove_keys(
                    all_lost.filter(|via: u128| carries(items@.take(i as int), via)),
                ),
            decreases items.len() - i,
        {
            let copy: (u128, u128) = items[i];
            let ghost mid = self@;
            proof {
                let earlier = items@.take(i as int);
                let now = items@.take(i + 1);
                assert(now =~= earlier.push(copy));
                assert forall|c: (u128, u128)| #[trigger]
                    now.contains(c) <==> (earlier.contains(c) || c == copy) by {
                    if earlier.contains(c) {
                        let k = choose|k: int| 0 <= k < earlier.len() && earlier[k] == c;
                        assert(now[k] == c);
                    }
                    if c == copy {
                        assert(now[i as int] == c);
                    }
                }
                assert forall|via: u128| #[trigger]
                    carries(now, via) <==> (carries(earlier, via) || via == copy.1) by {
                    if carries(earlier, via) {
                        let from = choose|from: u128| #[trigger] earlier.contains((from, via));
                        assert(now.contains((from, via)));
                    }
                    if via == copy.1 {
                        assert(now.contains((copy.0, via)));
                    }
                    if carries(now, via) {
                        let from = choose|from: u128| #[trigger] now.contains((from, via));
                        assert(earlier.contains((from, via)) || (from, via) == copy);
                    }
                }
                assert(lost@.contains(copy.1) == all_lost.contains(copy.1));
            }
            if contains(lost, copy.1) {
                pair_bag_remove_up_to(&mut self.in_flight, copy, usize::MAX);
                self.probes.remove(&copy.1);
                proof {
                    assert(mid.in_flight.count(copy) <= before.in_flight.count(copy));
                    assert(before.in_flight.count(copy) <= before.in_flight.len());
                    assert(self@.in_flight == mid.in_flight.update(copy, 0));
                    assert forall|c: (u128, u128)| #![trigger self@.in_flight.count(c)]
                        self@.in_flight.count(c) == (if c == copy { 0 } else { mid.in_flight.count(c) }) by {
                        if c != copy {
                            vstd::multiset::lemma_update_different(mid.in_flight, copy, 0, c);
                        } else {
                            vstd::multiset::lemma_update_same(mid.in_flight, copy, 0);
                        }
                    }
                }
            }
            proof {
                assert(self@.probes =~= before.probes.remove_keys(
                    all_lost.filter(|via: u128| carries(items@.take(i + 1), via)),
                ));
            }
            i += 1;
        }
        proof {
            assert(items@.take(items@.len() as int) =~= items@);
            assert forall|c: (u128, u128)| #[trigger]
                items@.contains(c) <==> before.in_flight.contains(c) by {}
            assert forall|via: u128| #[trigger]
                carries(items@, via) <==> before.carried_by(via) by {
                if carries(items@, via) {
                    let from = choose|from: u128| #[trigger] items@.contains((from, via));
                    assert(before.in_flight.contains((from, via)));
                }
                if before.carried_by(via) {
                    let from = choose|from: u128| #[trigger] before.in_flight.contains((from, via));
                    assert(items@.contains((from, via)));
                }
            }
            assert(self@.in_flight =~= before.in_flight.filter(
                |c: (u128, u128)| !all_lost.contains(c.1),
            ));
            assert(self@.probes =~= before.lost_via(all_lost).probes);
            assert(self@ =~= before.lost_via(all_lost));
        }
        let handed_back = self.settle();
        (lost.len() == 0, handed_back)
    }
}

impl<T, M, Error, Probe: Fn() -> bool> SubSenderStateMachine<T, M, Error, Probe> {
    /// Probes the channels that carry copies of the subsender and gives up on
    /// the copies whose channel is gone.
    ///
    /// Returns whether none was gone, and the sender if the subsender is then
    /// unreachable.
    pub fn poll(&mut self) -> (polled: (bool, Option<T>))
        requires
            forall|via: u128|
                #![trigger old(self)@.probes[via]]
                old(self)@.probes.contains_key(via) ==> call_requires(old(self)@.probes[via], ()),
        ensures
            exists|lost: Set<u128>|
                {
                    let after = old(self)@.lost_via(lost);
                    &&& #[trigger] probed(old(self)@.probes, lost)
                    &&& final(self)@ == after.settled()
                    &&& polled.0 == (lost =~= Set::empty())
                    &&& polled.1 == after.handed_back()
                },
    {
        assert(self@.probes == old(self)@.probes);
        let lost: Vec<u128> = probe_all(&self.probes);
        proof {
            let found = lost@.to_set();
            if lost@.len() > 0 {
                assert(found.contains(lost@[0]));
            } else {
                assert(found =~= Set::empty());
            }
        }
        self.poll_with(&lost)
    }
}

/// The subchannels whose probe, an IPC sender, is among those with the given
/// handles.
pub open spec fn lost_vias<T>(
    state: SubSenderView<T, Arc<ForwardSender>>,
    lost: Seq<u64>,
) -> Set<u128> {
    state.probes.dom().filter(|via: u128| lost.contains(state.probes[via].handle))
}

impl<T, M, Error> SubSenderStateMachine<T, M, Error, Arc<ForwardSender>> {
    /// The handles of the IPC senders by which channels are probed, each with
    /// its via, in no particular order.
    pub fn probes(&self) -> (probes: Vec<(u128, u64)>)
        ensures
            forall|i: int|
                #![trigger probes@[i]]
                0 <= i < probes@.len() ==> self@.probes.contains_key(probes@[i].0)
                    && self@.probes[probes@[i].0].handle == probes@[i].1,
            forall|via: u128|
                #![trigger self@.probes.contains_key(via)]
                self@.probes.contains_key(via) ==> probes@.contains(
                    (via, self@.probes[via].handle),
                ),
    {
        let mut probes: Vec<(u128, u64)> = Vec::new();
        for entry in entries: self.probes.iter()
            invariant
                forall|k: int|
                    #![trigger entries.seq()[k]]
                    0 <= k < entries.seq().len() ==> {
                        &&& self@.probes.contains_key(*entries.seq()[k].0)
                        &&& self@.probes[*entries.seq()[k].0] == *entries.seq()[k].1
                    },
                forall|via: u128|
                    #![trigger self@.probes.contains_key(via)]
                    self@.probes.contains_key(via) ==> entries.seq().contains(
                        (&via, &self@.probes[via]),
                    ),
                probes@.len() == entries.index(),
                forall|k: int|
                    #![trigger probes@[k]]
                    #![trigger entries.seq()[k]]
                    0 <= k < probes@.len() ==> probes@[k] == (
                        *entries.seq()[k].0,
                        entries.seq()[k].1.handle,
                    ),
        {
            let (via, probe) = entry;
            assert(entries.seq()[entries.index() as int] == (via, probe));
            probes.push((*via, probe.handle));
        }
        proof {
            assert forall|via: u128| #![trigger self@.probes.contains_key(via)]
                self@.probes.contains_key(via) implies probes@.contains(
                (via, self@.probes[via].handle),
            ) by {
            }
        }
        probes
    }

    /// The vias whose probe is among the IPC senders with the given handles.
    fn vias_among(&self, lost: &Vec<u64>) -> (vias: Vec<u128>)
        ensures
            vias@.to_set() == lost_vias(self@, lost@),
    {
        let probes: Vec<(u128, u64)> = self.probes();
        let mut vias: Vec<u128> = Vec::new();
        let mut i: usize = 0;
        while i < probes.len()
            invariant
                i <= probes.len(),
                forall|via: u128| #[trigger]
                    vias@.contains(via) <==> exists|k: int|
                        0 <= k < i && (#[trigger] probes@[k]).0 == via && lost@.contains(
                            probes@[k].1,
                        ),
            decreases probes.len() - i,
        {
            let ghost before = vias@;
            let (via, handle) = probes[i];
            let is_lost: bool = contains_handle(lost, handle);
            if is_lost {
                vias.push(via);
            }
            proof {
                assert forall|v: u128| #[trigger]
                    vias@.contains(v) <==> exists|k: int|
                        0 <= k < i + 1 && (#[trigger] probes@[k]).0 == v && lost@.contains(
                            probes@[k].1,
                        ) by {
                    assert(vias@.contains(v) <==> before.contains(v) || (is_lost && v == via)) by {
                        if before.contains(v) {
                            let n = choose|n: int| 0 <= n < before.len() && before[n] == v;
                            assert(vias@[n] == v);
                        }
                        if is_lost && v == via {
                            assert(vias@.last() == v);
                        }
                    }
                    if is_lost && v == via {
                        assert(probes@[i as int].0 == v);
                    }
                }
            }
            i += 1;
        }
        proof {
            let gone = lost_vias(self@, lost@);
            assert forall|via: u128| vias@.to_set().contains(via) <==> gone.contains(via) by {
                if vias@.contains(via) {
                    let k = choose|k: int|
                        0 <= k < probes@.len() && (#[trigger] probes@[k]).0 == via
                            && lost@.contains(probes@[k].1);
                    assert(self@.probes.contains_key(via));
                }
                if gone.contains(via) {
                    assert(self@.probes.contains_key(via));
                    let pair = (via, self@.probes[via].handle);
                    assert(probes@.contains(pair));
                    let k = choose|k: int| 0 <= k < probes@.len() && probes@[k] == pair;
                    assert(probes@[k].0 == via);
                }
            }
            assert(vias@.to_set() =~= gone);
        }
        vias
    }

    /// Gives up on all copies that were in flight over channels whose IPC
    /// sender is among those with the given handles.
    ///
    /// Returns whether no probe failed, and the sender if the subsender is then
    /// unreachable.
    pub fn poll_lost(&mut self, lost: &Vec<u64>) -> (polled: (bool, Option<T>))
        ensures
            ({
                let gone = lost_vias(old(self)@, lost@);
                let after = old(self)@.lost_via(gone);
                &&& final(self)@ == after.settled()
                &&& polled.0 == (gone =~= Set::empty())
                &&& polled.1 == after.handed_back()
            }),
    {
        let vias: Vec<u128> = self.vias_among(lost);
        proof {
            if vias@.len() > 0 {
                assert(vias@.to_set().contains(vias@[0]));
            } else {
                assert(vias@.to_set() =~= Set::empty());
            }
        }
        self.poll_with(&vias)
    }
}

/// Two receipts end two transmissions from one source via one subchannel, and
/// leave in flight what was in flight before.
pub proof fn law_two_receipts_end_two_transmissions<T, Probe>(
    state: SubSenderView<T, Probe>,
    from: u128,
    via: u128,
    probe: Probe,
    source: u128,
)
    ensures
        state.sent_via(from, via, probe).sent_via(from, via, probe).arrived(
            from,
            via,
            source,
        ).in_flight == state.in_flight.insert((from, via)),
        state.sent_via(from, via, probe).sent_via(from, via, probe).arrived(
            from,
            via,
            source,
        ).arrived(from, via, source).in_flight == state.in_flight,
{
    let copy = (from, via);
    assert(state.in_flight.insert(copy).insert(copy).remove(copy) =~= state.in_flight.insert(copy));
    assert(state.in_flight.insert(copy).remove(copy) =~= state.in_flight);
}

/// A source that drops its last copy does not disconnect a subsender of which a
/// copy is in flight from any source via any subchannel.
pub proof fn law_copy_in_flight_keeps_subsender_connected<T, Probe>(
    state: SubSenderView<T, Probe>,
    source: u128,
    from: u128,
    via: u128,
)
    requires
        state.in_flight.count((from, via)) > 0,
    ensures
        state.dropped_at(source).settled() == state.dropped_at(source),
        state.dropped_at(source).handed_back() is None,
{
    assert((state.in_flight != Multiset::<(u128, u128)>::empty()));
}

/// Giving up on lost channels ends every copy that was in flight there and no
/// other.
pub proof fn law_lost_channels_end_their_copies<T, Probe>(
    state: SubSenderView<T, Probe>,
    lost: Set<u128>,
    from: u128,
    via: u128,
)
    ensures
        lost.contains(via) ==> state.lost_via(lost).in_flight.count((from, via)) == 0,
        !lost.contains(via) ==> state.lost_via(lost).in_flight.count((from, via))
            == state.in_flight.count((from, via)),
{
}

/// A state machine that is new knows of one copy of the subsender, at the source
/// where it was created, and delivers to the given sender.
pub proof fn law_new_subsender_has_one_copy<T, M, Error, Probe>(
    t: T,
    source: u128,
    machine: SubSenderStateMachine<T, M, Error, Probe>,
)
    requires
        call_ensures(SubSenderStateMachine::<T, M, Error, Probe>::new, (t, source), machine),
    ensures
        machine@.sender == Some(t),
        forall|other: u128| #[trigger] machine@.sources.contains(other) <==> other == source,
        forall|copy: (u128, u128)| #[trigger] machine@.in_flight.count(copy) == 0,
        forall|via: u128| !#[trigger] machine@.probes.contains_key(via),
{
}

/// A message is handed to the sender, as it is, if and only if the subsender is
/// connected.
pub proof fn law_connected_subsender_delivers<T: Sender<M, Error>, M, Error, Probe>(
    machine: &SubSenderStateMachine<T, M, Error, Probe>,
    sender: Option<&T>,
    message: M,
    result: Option<Result<(), Error>>,
    can: bool,
)
    requires
        call_ensures(SubSenderStateMachine::<T, M, Error, Probe>::sender, (machine,), sender),
        call_ensures(
            SubSenderStateMachine::<T, M, Error, Probe>::send,
            (machine, message),
            result,
        ),
        call_ensures(SubSenderStateMachine::<T, M, Error, Probe>::can_count_more, (machine,), can),
    ensures
        sender is Some <==> machine@.sender is Some,
        sender matches Some(t) ==> machine@.sender == Some(*t),
        result is Some <==> machine@.sender is Some,
        result matches Some(sent) ==> call_ensures(T::send, (&machine@.sender->0, message), sent),
        can <==> machine@.in_flight.len() < usize::MAX,
{
}

/// Some source holds a copy of a subsender, or some subchannel carries one.
pub open spec fn in_use<T, Probe>(state: SubSenderView<T, Probe>) -> bool {
    ||| exists|source: u128| #[trigger] state.sources.contains(source)
    ||| exists|copy: (u128, u128)| #[trigger] state.in_flight.count(copy) > 0
}

proof fn lemma_in_use<T, Probe>(state: SubSenderView<T, Probe>)
    ensures
        state.unreachable() == !in_use(state),
{
    if !in_use(state) {
        assert forall|source: u128| !state.sources.contains(source) by {}
        assert(state.sources =~= Set::<u128>::empty());
        assert forall|copy: (u128, u128)| state.in_flight.count(copy) == 0 by {}
        assert(state.in_flight =~= Multiset::<(u128, u128)>::empty());
    }
}

/// The sender is handed back, and the subsender disconnected, if and only if no
/// copy of it is left in use.
pub open spec fn ends_when_unused<T, Probe>(
    was: SubSenderView<T, Probe>,
    now: SubSenderView<T, Probe>,
    handed_back: Option<T>,
) -> bool {
    &&& in_use(now) ==> now.sender == was.sender && handed_back is None
    &&& !in_use(now) ==> now.sender is None && handed_back == was.sender
}

/// A copy that is sent is in flight once more, and the channel that carries it
/// is watched by the probe that came last. Nothing else changes.
pub proof fn law_sent_copy_is_in_flight<T, M, Error, Probe>(
    machine: &mut SubSenderStateMachine<T, M, Error, Probe>,
    from: u128,
    via: u128,
    probe: Probe,
)
    requires
        call_ensures(
            SubSenderStateMachine::<T, M, Error, Probe>::to_be_sent,
            (machine, from, via, probe),
            (),
        ),
    ensures
        ({
            let was = old(machine)@;
            let now = final(machine)@;
            &&& now.sender == was.sender
            &&& now.sources == was.sources
            &&& now.in_flight.count((from, via)) == was.in_flight.count((from, via)) + 1
            &&& forall|copy: (u128, u128)|
                copy != (from, via) ==> #[trigger] now.in_flight.count(copy) == was.in_flight.count(copy)
            &&& now.probes.contains_key(via)
            &&& now.probes[via] == probe
            &&& forall|other: u128|
                #![trigger was.probes.contains_key(other)]
                #![trigger now.probes.contains_key(other)]
                other != via ==> {
                    &&& now.probes.contains_key(other) == was.probes.contains_key(other)
                    &&& was.probes.contains_key(other) ==> now.probes[other] == was.probes[other]
                }
        }),
{
}

/// A copy that has arrived is held where it arrived, and in flight once less. Nothing
/// else changes.
pub proof fn law_received_copy_is_held<T, M, Error, Probe>(
    machine: &mut SubSenderStateMachine<T, M, Error, Probe>,
    from: u128,
    via: u128,
    source: u128,
)
    requires
        call_ensures(
            SubSenderStateMachine::<T, M, Error, Probe>::received,
            (machine, from, via, source),
            (),
        ),
    ensures
        ({
            let was = old(machine)@;
            let now = final(machine)@;
            &&& now.sender == was.sender
            &&& forall|other: u128| #[trigger]
                now.sources.contains(other) <==> was.sources.contains(other) || other == source
            &&& was.in_flight.count((from, via)) > 0 ==> now.in_flight.count((from, via))
                == was.in_flight.count((from, via)) - 1
            &&& was.in_flight.count((from, via)) == 0 ==> now.in_flight.count((from, via)) == 0
            &&& forall|copy: (u128, u128)|
                copy != (from, via) ==> #[trigger] now.in_flight.count(copy) == was.in_flight.count(copy)
            &&& now.probes == was.probes
        }),
{
}

/// A source that drops its last copy holds none any more, and all other copies
/// stay. The subsender is disconnected if that was the last one in use.
pub proof fn law_source_lets_go<T, M, Error, Probe>(
    machine: &mut SubSenderStateMachine<T, M, Error, Probe>,
    source: u128,
    handed_back: Option<T>,
)
    requires
        call_ensures(
            SubSenderStateMachine::<T, M, Error, Probe>::disconnect,
            (machine, source),
            handed_back,
        ),
    ensures
        ({
            let was = old(machine)@;
            let now = final(machine)@;
            &&& forall|other: u128| #[trigger]
                now.sources.contains(other) <==> was.sources.contains(other) && other != source
            &&& now.in_flight == was.in_flight
            &&& now.probes == was.probes
            &&& ends_when_unused(was, now, handed_back)
        }),
{
    lemma_in_use(old(machine)@.dropped_at(source));
    lemma_in_use(old(machine)@.dropped_at(source).settled());
}

/// All copies of a subsender in flight via the given subchannels have been given
/// up, and those subchannels are watched no longer. All other copies stay.
pub open spec fn gives_up_lost<T, Probe>(
    was: SubSenderView<T, Probe>,
    lost: Set<u128>,
    now: SubSenderView<T, Probe>,
) -> bool {
    &&& now.sources == was.sources
    &&& forall|copy: (u128, u128)| #[trigger]
        now.in_flight.count(copy) == if lost.contains(copy.1) {
            0
        } else {
            was.in_flight.count(copy)
        }
    &&& forall|via: u128| #[trigger]
        now.probes.contains_key(via) == (was.probes.contains_key(via) && !(lost.contains(via)
            && exists|from: u128| #[trigger] was.in_flight.count((from, via)) > 0))
    &&& forall|via: u128| #[trigger]
        now.probes.contains_key(via) ==> now.probes[via] == was.probes[via]
}

proof fn lemma_lost<T, Probe>(state: SubSenderView<T, Probe>, lost: Set<u128>)
    ensures
        gives_up_lost(state, lost, state.lost_via(lost).settled()),
        ends_when_unused(
            state,
            state.lost_via(lost).settled(),
            state.lost_via(lost).handed_back(),
        ),
        state.lost_via(lost).unreachable() == !in_use(state.lost_via(lost).settled()),
{
    let after = state.lost_via(lost);
    lemma_in_use(after);
    lemma_in_use(after.settled());
    assert forall|via: u128| #[trigger]
        state.carried_by(via) == (exists|from: u128| #[trigger]
            state.in_flight.count((from, via)) > 0) by {
        if state.carried_by(via) {
            let from = choose|from: u128| #[trigger] state.in_flight.contains((from, via));
            assert(state.in_flight.count((from, via)) > 0);
        }
        if exists|from: u128| #[trigger] state.in_flight.count((from, via)) > 0 {
            let from = choose|from: u128| #[trigger] state.in_flight.count((from, via)) > 0;
            assert(state.in_flight.contains((from, via)));
        }
    }
}

/// Polling gives up the copies whose channels are gone, and no others, and
/// disconnects the subsender if none is left in use. It tells whether no channel
/// was gone.
pub proof fn law_poll_gives_up_lost_copies<T, M, Error, Probe>(
    machine: &mut SubSenderStateMachine<T, M, Error, Probe>,
    lost: &Vec<u128>,
    polled: (bool, Option<T>),
)
    requires
        call_ensures(
            SubSenderStateMachine::<T, M, Error, Probe>::poll_with,
            (machine, lost),
            polled,
        ),
    ensures
        gives_up_lost(old(machine)@, lost@.to_set(), final(machine)@),
        ends_when_unused(old(machine)@, final(machine)@, polled.1),
        polled.0 <==> lost@.len() == 0,
{
    lemma_lost(old(machine)@, lost@.to_set());
}

/// A poll that is told which IPC senders are lost gives up the copies in flight
/// via exactly those subchannels that are watched by one of them.
pub proof fn law_poll_gives_up_what_lost_senders_watch<T, M, Error>(
    machine: &mut SubSenderStateMachine<T, M, Error, Arc<ForwardSender>>,
    lost: &Vec<u64>,
    polled: (bool, Option<T>),
)
    requires
        call_ensures(
            SubSenderStateMachine::<T, M, Error, Arc<ForwardSender>>::poll_lost,
            (machine, lost),
            polled,
        ),
    ensures
        ({
            let gone = Set::new(
                |via: u128|
                    old(machine)@.probes.contains_key(via) && lost@.contains(
                        old(machine)@.probes[via].handle,
                    ),
            );
            &&& gives_up_lost(old(machine)@, gone, final(machine)@)
            &&& polled.0 <==> forall|via: u128| !#[trigger] gone.contains(via)
        }),
        ends_when_unused(old(machine)@, final(machine)@, polled.1),
{
    let gone = lost_vias(old(machine)@, lost@);
    lemma_lost(old(machine)@, gone);
    assert(gone =~= Set::new(
        |via: u128|
            old(machine)@.probes.contains_key(via) && lost@.contains(
                old(machine)@.probes[via].handle,
            ),
    ));
    if forall|via: u128| !#[trigger] gone.contains(via) {
        assert(gone =~= Set::<u128>::empty());
    }
}

/// A poll that runs the probes gives up the copies in flight via exactly those
/// subchannels whose probe failed, and tells whether none did.
pub proof fn law_poll_runs_the_probes<T, M, Error, Probe: Fn() -> bool>(
    machine: &mut SubSenderStateMachine<T, M, Error, Probe>,
    polled: (bool, Option<T>),
)
    requires
        call_ensures(SubSenderStateMachine::<T, M, Error, Probe>::poll, (machine,), polled),
    ensures
        exists|lost: Set<u128>|
            {
                &&& #[trigger] gives_up_lost(old(machine)@, lost, final(machine)@)
                &&& ends_when_unused(old(machine)@, final(machine)@, polled.1)
                &&& polled.0 <==> forall|via: u128| !#[trigger] lost.contains(via)
                &&& forall|via: u128| #[trigger]
                    lost.contains(via) ==> old(machine)@.probes.contains_key(via)
                &&& forall|via: u128|
                    #![trigger old(machine)@.probes[via]]
                    old(machine)@.probes.contains_key(via) ==> call_ensures(
                        old(machine)@.probes[via],
                        (),
                        !lost.contains(via),
                    )
            },
{
    assert forall|lost: Set<u128>| #[trigger] probed(old(machine)@.probes, lost) implies {
        &&& gives_up_lost(old(machine)@, lost, old(machine)@.lost_via(lost).settled())
        &&& ends_when_unused(
            old(machine)@,
            old(machine)@.lost_via(lost).settled(),
            old(machine)@.lost_via(lost).handed_back(),
        )
    } by {
        lemma_lost(old(machine)@, lost);
    }
}

} // verus!
