//! Identification of IPC senders.
//!
//! Sending an IPC sender over an IPC channel consumes scarce operating system
//! resources, so the same sender is not sent twice over one channel. The first
//! time, a [`Source`] sends the sender along with a UUID that identifies it;
//! later it sends just the UUID. A [`Target`] stores each sender that it
//! receives under its UUID and looks it up when it receives just the UUID.

use crate::mux::uuids::Uuid;
use std::collections::HashMap;
use std::sync::{Arc, Weak};
use vstd::prelude::*;
use weak_table::PtrWeakHashSet;

verus! {

broadcast use vstd::std_specs::hash::group_hash_axioms;

/// The sending end of an IPC channel, as a handle that the program around the
/// library has given it.
#[derive(Debug)]
pub struct ForwardSender {
    pub handle: u64,
}

/// `weak_table::PtrWeakHashSet` of IPC senders: senders held by weak pointers
/// and compared by pointer.
#[verifier::external_body]
pub struct SentSenders {
    senders: PtrWeakHashSet<Weak<ForwardSender>>,
}

/// The name of what has been put in a set: the handles of the senders, dropped
/// or not.
pub uninterp spec fn sent_handles(sent: SentSenders) -> Set<u64>;

/// `PtrWeakHashSet::new`: a set in which nothing has been put.
#[verifier::external_body]
fn sent_none() -> (sent: SentSenders)
    ensures
        sent_handles(sent) == Set::<u64>::empty(),
{
    SentSenders { senders: PtrWeakHashSet::new() }
}

/// `PtrWeakHashSet::insert`: puts the sender in the set and returns whether it
/// was there, which it can only be if it had been put there before. Whether two
/// senders are one is decided by their addresses, of which nothing is said.
#[verifier::external_body]
fn sent_insert(sent: &mut SentSenders, sender: Arc<ForwardSender>) -> (already_sent: bool)
    ensures
        sent_handles(*final(sent)) == sent_handles(*old(sent)).insert(sender.handle),
        already_sent ==> sent_handles(*old(sent)).contains(sender.handle),
{
    sent.senders.insert(sender)
}

/// Where IPC senders are transmitted from. It tracks the senders that it has
/// sent without keeping them from being dropped.
pub struct Source {
    senders: SentSenders,
}

impl View for Source {
    type V = Set<u64>;

    /// The handles of the senders sent so far.
    closed spec fn view(&self) -> Set<u64> {
        sent_handles(self.senders)
    }
}

impl Source {
    /// A source that has sent nothing.
    pub fn new() -> (source: Source)
        ensures
            source@ == Set::<u64>::empty(),
    {
        Source { senders: sent_none() }
    }

    /// Records that the given sender is sent and returns whether it has already
    /// been sent by this source.
    pub fn insert(&mut self, sender: Arc<ForwardSender>) -> (already_sent: bool)
        ensures
            final(self)@ == old(self)@.insert(sender.handle),
            already_sent ==> old(self)@.contains(sender.handle),
    {
        sent_insert(&mut self.senders, sender)
    }
}

/// Where IPC senders from a [`Source`] are received. The association of a UUID
/// with a sender keeps the sender from being dropped.
pub struct Target<T> {
    senders: HashMap<Uuid, T>,
}

impl<T> View for Target<T> {
    type V = Map<Uuid, T>;

    closed spec fn view(&self) -> Map<Uuid, T> {
        self.senders@
    }
}

/// The associations of a target after one more has been received. The first
/// sender associated with a UUID stays.
pub open spec fn associated<T>(senders: Map<Uuid, T>, id: Uuid, sender: T) -> Map<Uuid, T> {
    if senders.contains_key(id) {
        senders
    } else {
        senders.insert(id, sender)
    }
}

impl<T: Clone> Target<T> {
    /// A target that has received nothing.
    pub fn new() -> (target: Target<T>)
        ensures
            target@ == Map::<u128, T>::empty(),
    {
        Target { senders: HashMap::new() }
    }

    /// Associates the given UUID with the given sender, unless it is already
    /// associated with one.
    pub fn add(&mut self, id: Uuid, sender: &T)
        ensures
            old(self)@.contains_key(id) ==> final(self)@ == old(self)@,
            !old(self)@.contains_key(id) ==> exists|copy: T|
                #[trigger] cloned(*sender, copy) && final(self)@ == old(self)@.insert(id, copy),
    {
        if !self.senders.contains_key(&id) {
            let copy = sender.clone();
            assert(cloned(*sender, copy));
            self.senders.insert(id, copy);
        }
    }

    /// The sender associated with the given UUID, if there is one.
    pub fn look_up(&self, id: Uuid) -> (sender: Option<T>)
        ensures
            (match sender {
                Some(copy) => self@.contains_key(id) && cloned(self@[id], copy),
                None => !self@.contains_key(id),
            }),
    {
        match self.senders.get(&id) {
            Some(sender) => Some(sender.clone()),
            None => None,
        }
    }
}

/// What a target looks up under a UUID is the first sender that it has
/// received with that UUID, however many it receives later.
pub proof fn law_first_association_stays<T>(
    senders: Map<Uuid, T>,
    id: Uuid,
    first: T,
    other: Uuid,
    later: T,
)
    requires
        !senders.contains_key(id),
    ensures
        ({
            let after = associated(associated(senders, id, first), other, later);
            after.contains_key(id) && after[id] == first
        }),
{
}

} // verus!
