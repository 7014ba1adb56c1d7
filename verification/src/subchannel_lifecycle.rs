//! Registries of the senders of many subchannels.
//!
//! * A [`Source`] knows the IPC sender of each subchannel at one place.
//! * A [`Target`] keeps track of the senders of each subchannel, at rest and in
//!   flight.

use crate::bags::{
    bag_contents, bag_insert, bag_is_empty, bag_len, bag_new, pair_bag_contents, pair_bag_insert,
    pair_bag_is_empty, pair_bag_len, pair_bag_new, pair_bag_remove,
};
use crate::mux::uuids::{is_random_uuid, new_uuid, Uuid};
use hashbag::HashBag;
use std::collections::HashMap;
use vstd::multiset::Multiset;
use vstd::prelude::*;

verus! {

broadcast use vstd::std_specs::hash::group_hash_axioms;

/// Why a request to a registry fails.
#[derive(Clone, Copy, PartialEq, Eq, Structural, Debug)]
pub enum Error {
    SubChannelAlreadyExists,
    SubChannelNotFound,
}

/// Identifies a [`Source`].
#[derive(Clone, Copy, PartialEq, Eq, Structural, Debug, Hash)]
pub struct SourceId(pub Uuid);

/// Identifies a [`Target`].
#[derive(Clone, Copy, PartialEq, Eq, Structural, Debug, Hash)]
pub struct TargetId(pub Uuid);

/// Identifies an IPC sender.
#[derive(Clone, Copy, PartialEq, Eq, Structural, Debug, Hash)]
pub struct IpcSenderId(pub Uuid);

/// The senders at one place. There is one source for each multiplexing IPC
/// sender.
pub struct Source {
    source_id: SourceId,
    senders: HashMap<u64, IpcSenderId>,
}

/// The mathematical counterpart of [`Source`].
#[verifier::ext_equal]
pub struct SourceView {
    pub source_id: SourceId,
    /// The IPC sender of each subchannel.
    pub senders: Map<u64, IpcSenderId>,
}

impl View for Source {
    type V = SourceView;

    closed spec fn view(&self) -> SourceView {
        SourceView { source_id: self.source_id, senders: self.senders@ }
    }
}

impl Source {
    /// A source without subchannels, with a random id.
    pub fn new() -> (source: Source)
        ensures
            is_random_uuid(source@.source_id.0),
            source@.senders == Map::<u64, IpcSenderId>::empty(),
    {
        Source { source_id: SourceId(new_uuid()), senders: HashMap::new() }
    }

    /// Adds a subchannel with its IPC sender.
    pub fn add_subchannel(&mut self, scid: u64, sender_id: IpcSenderId) -> (added: Result<
        (),
        Error,
    >)
        ensures
            (match added {
                Ok(()) => {
                    &&& !old(self)@.senders.contains_key(scid)
                    &&& final(self)@ == SourceView {
                        senders: old(self)@.senders.insert(scid, sender_id),
                        ..old(self)@
                    }
                },
                Err(e) => {
                    &&& old(self)@.senders.contains_key(scid)
                    &&& e == Error::SubChannelAlreadyExists
                    &&& final(self)@ == old(self)@
                },
            }),
    {
        if self.senders.contains_key(&scid) {
            Err(Error::SubChannelAlreadyExists)
        } else {
            self.senders.insert(scid, sender_id);
            Ok(())
        }
    }

    /// What a target has to be told of a sender that is about to be sent.
    pub fn prepare_to_send(&self, scid: u64) -> (prepared: Result<(SourceId, IpcSenderId), Error>)
        ensures
            prepared == (if self@.senders.contains_key(scid) {
                Ok((self@.source_id, self@.senders[scid]))
            } else {
                Err(Error::SubChannelNotFound)
            }),
    {
        match self.senders.get(&scid) {
            Some(sender_id) => Ok((self.source_id, *sender_id)),
            None => Err(Error::SubChannelNotFound),
        }
    }
}

struct Receiver<Tracker> {
    receiver_id: Uuid,
    sources: HashBag<u128>,
    in_flight: HashBag<(u128, u128)>,
    trackers: HashMap<u128, HashMap<u128, Tracker>>,
}

/// What is known of the senders of one subchannel.
#[verifier::ext_equal]
pub struct ReceiverView<Tracker> {
    pub receiver_id: Uuid,
    /// The sources of the senders at rest.
    pub sources: Multiset<u128>,
    /// The senders in flight, by the source they come from and the IPC sender
    /// they travel by.
    pub in_flight: Multiset<(u128, u128)>,
    /// How to find out whether a sender in flight can still arrive.
    pub trackers: Map<(u128, u128), Tracker>,
}

spec fn by_pair<Tracker>(trackers: Map<u128, HashMap<u128, Tracker>>) -> Map<
    (u128, u128),
    Tracker,
> {
    Map::new(
        |pair: (u128, u128)|
            trackers.contains_key(pair.0) && trackers[pair.0]@.contains_key(pair.1),
        |pair: (u128, u128)| trackers[pair.0]@[pair.1],
    )
}

impl<Tracker> Receiver<Tracker> {
    spec fn state(self) -> ReceiverView<Tracker> {
        ReceiverView {
            receiver_id: self.receiver_id,
            sources: bag_contents(self.sources),
            in_flight: pair_bag_contents(self.in_flight),
            trackers: by_pair(self.trackers@),
        }
    }

    fn track(&mut self, pair: (u128, u128), tracker: Tracker)
        ensures
            final(self).receiver_id == old(self).receiver_id,
            final(self).sources == old(self).sources,
            final(self).in_flight == old(self).in_flight,
            by_pair(final(self).trackers@) == by_pair(old(self).trackers@).insert(pair, tracker),
    {
        let mut inner: HashMap<u128, Tracker> = match self.trackers.remove(&pair.0) {
            Some(inner) => inner,
            None => HashMap::new(),
        };
        inner.insert(pair.1, tracker);
        self.trackers.insert(pair.0, inner);
        assert(by_pair(self.trackers@) =~= by_pair(old(self).trackers@).insert(pair, tracker));
    }

    fn untrack(&mut self, pair: (u128, u128))
        ensures
            final(self).receiver_id == old(self).receiver_id,
            final(self).sources == old(self).sources,
            final(self).in_flight == old(self).in_flight,
            by_pair(final(self).trackers@) == by_pair(old(self).trackers@).remove(pair),
    {
        match self.trackers.remove(&pair.0) {
            Some(inner) => {
                let mut inner = inner;
                inner.remove(&pair.1);
                self.trackers.insert(pair.0, inner);
            },
            None => {},
        }
        assert(by_pair(self.trackers@) =~= by_pair(old(self).trackers@).remove(pair));
    }
}

/// The senders of many subchannels. There is one target for each multiplexing
/// IPC receiver.
///
/// A `Tracker` tells of a sender in flight whether it has arrived or still
/// could.
pub struct Target<Tracker> {
    target_id: TargetId,
    receivers: HashMap<u64, Receiver<Tracker>>,
}

/// The mathematical counterpart of [`Target`].
#[verifier::ext_equal]
pub struct TargetView<Tracker> {
    pub target_id: TargetId,
    pub receivers: Map<u64, ReceiverView<Tracker>>,
}

impl<Tracker> View for Target<Tracker> {
    type V = TargetView<Tracker>;

    closed spec fn view(&self) -> TargetView<Tracker> {
        TargetView {
            target_id: self.target_id,
            receivers: self.receivers@.map_values(|receiver: Receiver<Tracker>| receiver.state()),
        }
    }
}

impl<Tracker> TargetView<Tracker> {
    /// What is known of the senders of one subchannel has changed.
    pub open spec fn with_receiver(self, scid: u64, receiver: ReceiverView<Tracker>) -> Self {
        TargetView { receivers: self.receivers.insert(scid, receiver), ..self }
    }

    /// One more sender of the subchannel, at rest and in flight, can be counted.
    pub open spec fn has_room(self, scid: u64) -> bool {
        self.receivers.contains_key(scid) ==> {
            &&& self.receivers[scid].sources.len() < usize::MAX
            &&& self.receivers[scid].in_flight.len() < usize::MAX
        }
    }
}

impl<Tracker> ReceiverView<Tracker> {
    /// A subchannel of which no sender is known.
    pub open spec fn added(receiver_id: Uuid) -> Self {
        ReceiverView {
            receiver_id,
            sources: Multiset::empty(),
            in_flight: Multiset::empty(),
            trackers: Map::empty(),
        }
    }

    /// A sender has been sent.
    pub open spec fn sent(self, from: SourceId, via: IpcSenderId, tracker: Tracker) -> Self {
        ReceiverView {
            in_flight: self.in_flight.insert((from.0, via.0)),
            trackers: self.trackers.insert((from.0, via.0), tracker),
            ..self
        }
    }

    /// A sender has arrived. It is no longer tracked if no other is in flight
    /// from and via the same places.
    pub open spec fn received(self, from: SourceId, via: IpcSenderId, to: SourceId) -> Self {
        ReceiverView {
            sources: self.sources.insert(to.0),
            in_flight: self.in_flight.remove((from.0, via.0)),
            trackers: if self.in_flight.remove((from.0, via.0)).count((from.0, via.0)) == 0 {
                self.trackers.remove((from.0, via.0))
            } else {
                self.trackers
            },
            ..self
        }
    }

    /// A sender is at rest or in flight.
    pub open spec fn connected(self) -> bool {
        self.in_flight.len() > 0 || self.sources.len() > 0
    }
}

impl<Tracker> Target<Tracker> {
    /// A target without subchannels, with a random id.
    pub fn new() -> (target: Target<Tracker>)
        ensures
            is_random_uuid(target@.target_id.0),
            (target@.receivers == Map::<u64, ReceiverView<Tracker>>::empty()),
    {
        let target = Target { target_id: TargetId(new_uuid()), receivers: HashMap::new() };
        assert(target@.receivers =~= Map::<u64, ReceiverView<Tracker>>::empty());
        target
    }

    /// Adds a subchannel.
    pub fn add_subchannel(&mut self, scid: u64, receiver_id: Uuid) -> (added: Result<(), Error>)
        ensures
            (match added {
                Ok(()) => {
                    &&& !old(self)@.receivers.contains_key(scid)
                    &&& final(self)@ == old(self)@.with_receiver(
                        scid,
                        ReceiverView::added(receiver_id),
                    )
                },
                Err(e) => {
                    &&& old(self)@.receivers.contains_key(scid)
                    &&& e == Error::SubChannelAlreadyExists
                    &&& final(self)@ == old(self)@
                },
            }),
    {
        if self.receivers.contains_key(&scid) {
            Err(Error::SubChannelAlreadyExists)
        } else {
            let receiver: Receiver<Tracker> = Receiver {
                receiver_id,
                sources: bag_new(),
                in_flight: pair_bag_new(),
                trackers: HashMap::new(),
            };
            assert(receiver.state() =~= ReceiverView::added(receiver_id));
            self.receivers.insert(scid, receiver);
            assert(self@ =~= old(self)@.with_receiver(scid, ReceiverView::added(receiver_id)));
            Ok(())
        }
    }

    /// Whether one more sender of the subchannel, at rest and in flight, can be
    /// counted.
    pub fn has_room(&self, scid: u64) -> (room: bool)
        ensures
            room == self@.has_room(scid),
    {
        match self.receivers.get(&scid) {
            Some(receiver) => bag_len(&receiver.sources) < usize::MAX && pair_bag_len(
                &receiver.in_flight,
            ) < usize::MAX,
            None => true,
        }
    }

    /// Records that a sender of a subchannel has been sent.
    pub fn send(&mut self, scid: u64, from: SourceId, via: IpcSenderId, tracker: Tracker) -> (sent:
        Result<(), Error>)
        requires
            old(self)@.has_room(scid),
        ensures
            (match sent {
                Ok(()) => {
                    &&& old(self)@.receivers.contains_key(scid)
                    &&& final(self)@ == old(self)@.with_receiver(
                        scid,
                        old(self)@.receivers[scid].sent(from, via, tracker),
                    )
                },
                Err(e) => {
                    &&& !old(self)@.receivers.contains_key(scid)
                    &&& e == Error::SubChannelNotFound
                    &&& final(self)@ == old(self)@
                },
            }),
    {
        match self.receivers.remove(&scid) {
            Some(receiver) => {
                let mut receiver = receiver;
                let ghost before = receiver.state();
                pair_bag_insert(&mut receiver.in_flight, (from.0, via.0));
                receiver.track((from.0, via.0), tracker);
                assert(receiver.state() =~= before.sent(from, via, tracker));
                self.receivers.insert(scid, receiver);
                assert(self@ =~= old(self)@.with_receiver(scid, before.sent(from, via, tracker)));
                Ok(())
            },
            None => {
                assert(self@ =~= old(self)@);
                Err(Error::SubChannelNotFound)
            },
        }
    }

    /// Whether a sender of a subchannel is at rest or in flight.
    pub fn is_connected(&self, scid: u64) -> (connected: Result<bool, Error>)
        ensures
            connected == (if self@.receivers.contains_key(scid) {
                Ok(self@.receivers[scid].connected())
            } else {
                Err(Error::SubChannelNotFound)
            }),
    {
        match self.receivers.get(&scid) {
            Some(receiver) => Ok(
                !pair_bag_is_empty(&receiver.in_flight) || !bag_is_empty(&receiver.sources),
            ),
            None => Err(Error::SubChannelNotFound),
        }
    }

    /// Records that a sender of a subchannel has arrived.
    pub fn receive(&mut self, scid: u64, from: SourceId, via: IpcSenderId, to: SourceId) -> (received:
        Result<(), Error>)
        requires
            old(self)@.has_room(scid),
        ensures
            (match received {
                Ok(()) => {
                    &&& old(self)@.receivers.contains_key(scid)
                    &&& final(self)@ == old(self)@.with_receiver(
                        scid,
                        old(self)@.receivers[scid].received(from, via, to),
                    )
                },
                Err(e) => {
                    &&& !old(self)@.receivers.contains_key(scid)
                    &&& e == Error::SubChannelNotFound
                    &&& final(self)@ == old(self)@
                },
            }),
    {
        match self.receivers.remove(&scid) {
            Some(receiver) => {
                let mut receiver = receiver;
                let ghost before = receiver.state();
                if pair_bag_remove(&mut receiver.in_flight, (from.0, via.0)) <= 1 {
                    receiver.untrack((from.0, via.0));
                }
                bag_insert(&mut receiver.sources, to.0);
                assert(receiver.state() =~= before.received(from, via, to));
                self.receivers.insert(scid, receiver);
                assert(self@ =~= old(self)@.with_receiver(scid, before.received(from, via, to)));
                Ok(())
            },
            None => {
                assert(self@ =~= old(self)@);
                Err(Error::SubChannelNotFound)
            },
        }
    }
}

/// A subchannel of which a sender has been sent is connected, before the sender
/// arrives and after. The sender is tracked until it and all others from and via
/// the same places have arrived.
pub proof fn law_sent_sender_keeps_subchannel_connected<Tracker>(
    receiver: ReceiverView<Tracker>,
    from: SourceId,
    via: IpcSenderId,
    tracker: Tracker,
    to: SourceId,
)
    ensures
        receiver.sent(from, via, tracker).connected(),
        receiver.sent(from, via, tracker).received(from, via, to).connected(),
        receiver.sent(from, via, tracker).received(from, via, to).in_flight == receiver.in_flight,
        receiver.sent(from, via, tracker).received(from, via, to).sources
            == receiver.sources.insert(to.0),
        receiver.sent(from, via, tracker).received(from, via, to).trackers.contains_key(
            (from.0, via.0),
        ) == (receiver.in_flight.count((from.0, via.0)) > 0),
{
    let copy = (from.0, via.0);
    assert(receiver.in_flight.insert(copy).remove(copy) =~= receiver.in_flight);
    assert(receiver.in_flight.insert(copy).len() == receiver.in_flight.len() + 1);
    assert(receiver.sources.insert(to.0).len() == receiver.sources.len() + 1);
}

/// A source that is new has no subchannels. A subchannel is added to a source if
/// and only if it is not there yet, and no other one changes. A sender that is
/// about to be sent is told of with the source and its own IPC sender, if the
/// source has the subchannel.
pub proof fn law_source_knows_its_senders(
    created: Source,
    source: &mut Source,
    scid: u64,
    sender_id: IpcSenderId,
    added: Result<(), Error>,
    asked: &Source,
    prepared: Result<(SourceId, IpcSenderId), Error>,
    other: u64,
)
    requires
        call_ensures(Source::new, (), created),
        call_ensures(Source::add_subchannel, (source, scid, sender_id), added),
        call_ensures(Source::prepare_to_send, (asked, scid), prepared),
    ensures
        !created@.senders.contains_key(other),
        added is Ok <==> !old(source)@.senders.contains_key(scid),
        added matches Err(e) ==> e == Error::SubChannelAlreadyExists,
        final(source)@.source_id == old(source)@.source_id,
        final(source)@.senders.contains_key(scid),
        final(source)@.senders[scid] == (if added is Ok {
            sender_id
        } else {
            old(source)@.senders[scid]
        }),
        other != scid ==> {
            &&& final(source)@.senders.contains_key(other) == old(source)@.senders.contains_key(
                other,
            )
            &&& old(source)@.senders.contains_key(other) ==> final(source)@.senders[other]
                == old(source)@.senders[other]
        },
        prepared is Ok <==> asked@.senders.contains_key(scid),
        prepared matches Ok((from, via)) ==> from == asked@.source_id && via
            == asked@.senders[scid],
        prepared matches Err(e) ==> e == Error::SubChannelNotFound,
{
}

/// Nothing is known differently of any subchannel but the given one.
pub open spec fn others_stay<Tracker>(
    before: TargetView<Tracker>,
    scid: u64,
    after: TargetView<Tracker>,
) -> bool {
    &&& after.target_id == before.target_id
    &&& forall|other: u64|
        #![trigger before.receivers.contains_key(other)]
        #![trigger after.receivers.contains_key(other)]
        other != scid ==> {
            &&& after.receivers.contains_key(other) == before.receivers.contains_key(other)
            &&& before.receivers.contains_key(other) ==> after.receivers[other]
                == before.receivers[other]
        }
}

/// A target that is new has no subchannels. A subchannel is added to a target if
/// and only if it is not there yet. It has no senders at first, and is not
/// connected.
pub proof fn law_added_subchannel_has_no_senders<Tracker>(
    created: Target<Tracker>,
    target: &mut Target<Tracker>,
    scid: u64,
    receiver_id: Uuid,
    added: Result<(), Error>,
    other: u64,
)
    requires
        call_ensures(Target::<Tracker>::new, (), created),
        call_ensures(Target::<Tracker>::add_subchannel, (target, scid, receiver_id), added),
    ensures
        !created@.receivers.contains_key(other),
        added is Ok <==> !old(target)@.receivers.contains_key(scid),
        added matches Err(e) ==> e == Error::SubChannelAlreadyExists && final(target)@ == old(
            target,
        )@,
        others_stay(old(target)@, scid, final(target)@),
        final(target)@.receivers.contains_key(scid),
        added is Ok ==> {
            let receiver = final(target)@.receivers[scid];
            &&& receiver.receiver_id == receiver_id
            &&& forall|source: u128| #[trigger] receiver.sources.count(source) == 0
            &&& forall|copy: (u128, u128)| #[trigger] receiver.in_flight.count(copy) == 0
            &&& forall|copy: (u128, u128)| !#[trigger] receiver.trackers.contains_key(copy)
        },
{
}

/// A sender that has been sent is in flight once more, from where and via what it
/// was sent, and is tracked by the tracker that came last. Nothing else changes.
/// It cannot be sent for a subchannel that is not there.
pub proof fn law_sent_sender_is_in_flight<Tracker>(
    target: &mut Target<Tracker>,
    scid: u64,
    from: SourceId,
    via: IpcSenderId,
    tracker: Tracker,
    sent: Result<(), Error>,
)
    requires
        call_ensures(Target::<Tracker>::send, (target, scid, from, via, tracker), sent),
    ensures
        sent is Ok <==> old(target)@.receivers.contains_key(scid),
        sent matches Err(e) ==> e == Error::SubChannelNotFound && final(target)@ == old(target)@,
        others_stay(old(target)@, scid, final(target)@),
        sent is Ok ==> {
            let was = old(target)@.receivers[scid];
            let now = final(target)@.receivers[scid];
            let own = (from.0, via.0);
            &&& final(target)@.receivers.contains_key(scid)
            &&& now.receiver_id == was.receiver_id
            &&& now.sources == was.sources
            &&& now.in_flight.count(own) == was.in_flight.count(own) + 1
            &&& forall|copy: (u128, u128)|
                copy != own ==> #[trigger] now.in_flight.count(copy) == was.in_flight.count(copy)
            &&& now.trackers.contains_key(own)
            &&& now.trackers[own] == tracker
            &&& forall|copy: (u128, u128)|
                #![trigger was.trackers.contains_key(copy)]
                #![trigger now.trackers.contains_key(copy)]
                copy != own ==> {
                    &&& now.trackers.contains_key(copy) == was.trackers.contains_key(copy)
                    &&& was.trackers.contains_key(copy) ==> now.trackers[copy]
                        == was.trackers[copy]
                }
        },
{
}

/// A sender that has arrived is at rest once more where it arrived, and in flight
/// once less. It is tracked no longer if it was the last one in flight from and
/// via the same places. Nothing else changes.
pub proof fn law_received_sender_is_at_rest<Tracker>(
    target: &mut Target<Tracker>,
    scid: u64,
    from: SourceId,
    via: IpcSenderId,
    to: SourceId,
    received: Result<(), Error>,
)
    requires
        call_ensures(Target::<Tracker>::receive, (target, scid, from, via, to), received),
    ensures
        received is Ok <==> old(target)@.receivers.contains_key(scid),
        received matches Err(e) ==> e == Error::SubChannelNotFound && final(target)@ == old(
            target,
        )@,
        others_stay(old(target)@, scid, final(target)@),
        received is Ok ==> {
            let was = old(target)@.receivers[scid];
            let now = final(target)@.receivers[scid];
            let own = (from.0, via.0);
            &&& final(target)@.receivers.contains_key(scid)
            &&& now.receiver_id == was.receiver_id
            &&& now.sources.count(to.0) == was.sources.count(to.0) + 1
            &&& forall|source: u128|
                source != to.0 ==> #[trigger] now.sources.count(source) == was.sources.count(
                    source,
                )
            &&& was.in_flight.count(own) > 0 ==> now.in_flight.count(own) == was.in_flight.count(
                own,
            ) - 1
            &&& was.in_flight.count(own) == 0 ==> now.in_flight.count(own) == 0
            &&& forall|copy: (u128, u128)|
                copy != own ==> #[trigger] now.in_flight.count(copy) == was.in_flight.count(copy)
            &&& now.trackers.contains_key(own) == (was.trackers.contains_key(own)
                && now.in_flight.count(own) > 0)
            &&& forall|copy: (u128, u128)|
                copy != own ==> #[trigger] now.trackers.contains_key(copy)
                    == was.trackers.contains_key(copy)
            &&& forall|copy: (u128, u128)| #[trigger]
                now.trackers.contains_key(copy) ==> now.trackers[copy] == was.trackers[copy]
        },
{
}

/// A subchannel is connected if and only if a sender of it is at rest somewhere
/// or in flight. It can be asked only of one that is there.
pub proof fn law_subchannel_is_connected_by_its_senders<Tracker>(
    target: &Target<Tracker>,
    scid: u64,
    connected: Result<bool, Error>,
    room: bool,
)
    requires
        call_ensures(Target::<Tracker>::is_connected, (target, scid), connected),
        call_ensures(Target::<Tracker>::has_room, (target, scid), room),
    ensures
        connected is Ok <==> target@.receivers.contains_key(scid),
        connected matches Err(e) ==> e == Error::SubChannelNotFound,
        connected matches Ok(is) ==> {
            let receiver = target@.receivers[scid];
            is == ((exists|source: u128| #[trigger] receiver.sources.count(source) > 0) || exists|
                copy: (u128, u128),
            | #[trigger] receiver.in_flight.count(copy) > 0)
        },
        room <==> (target@.receivers.contains_key(scid) ==> target@.receivers[scid].sources.len()
            < usize::MAX && target@.receivers[scid].in_flight.len() < usize::MAX),
{
    if target@.receivers.contains_key(scid) {
        let receiver = target@.receivers[scid];
        if receiver.sources.len() > 0 {
            let source = receiver.sources.choose();
            assert(receiver.sources.count(source) > 0);
        }
        if receiver.in_flight.len() > 0 {
            let copy = receiver.in_flight.choose();
            assert(receiver.in_flight.count(copy) > 0);
        }
        if exists|source: u128| #[trigger] receiver.sources.count(source) > 0 {
            let source = choose|source: u128| #[trigger] receiver.sources.count(source) > 0;
            assert(receiver.sources.len() > 0) by {
                if receiver.sources.len() == 0 {
                    assert(receiver.sources =~= Multiset::<u128>::empty());
                }
            }
        }
        if exists|copy: (u128, u128)| #[trigger] receiver.in_flight.count(copy) > 0 {
            let copy = choose|copy: (u128, u128)| #[trigger] receiver.in_flight.count(copy) > 0;
            assert(receiver.in_flight.len() > 0) by {
                if receiver.in_flight.len() == 0 {
                    assert(receiver.in_flight =~= Multiset::<(u128, u128)>::empty());
                }
            }
        }
    }
}

} // verus!
