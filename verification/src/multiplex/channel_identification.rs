//! Identification of endpoints, which are IPC senders.
//!
//! As in [`crate::mux::sender_id`], a [`Source`] sends an endpoint along with a
//! UUID the first time and just the UUID later, and a [`Target`] looks up the
//! endpoint by the UUID. Here neither keeps an endpoint from being dropped.

pub use crate::mux::sender_id::Source;
use crate::mux::sender_id::ForwardSender;
use crate::mux::uuids::Uuid;
use std::sync::{Arc, Weak};
use vstd::prelude::*;
use weak_table::WeakValueHashMap;

verus! {

/// `weak_table::WeakValueHashMap` of endpoints: from UUIDs to endpoints held by
/// weak pointers.
#[verifier::external_body]
pub struct EndPoints {
    end_points: WeakValueHashMap<Uuid, Weak<ForwardSender>>,
}

/// The name of what has been put in the map: the handle of the last endpoint
/// for each UUID, dropped or not.
pub uninterp spec fn end_points(points: EndPoints) -> Map<Uuid, u64>;

/// `WeakValueHashMap::new`: a map in which nothing has been put.
#[verifier::external_body]
fn no_end_points() -> (points: EndPoints)
    ensures
        (end_points(points) == Map::<Uuid, u64>::empty()),
{
    EndPoints { end_points: WeakValueHashMap::new() }
}

/// `WeakValueHashMap::contains_key`: whether an endpoint that was put in for the
/// UUID is still held by somebody. Whether it is is not said.
#[verifier::external_body]
fn has_end_point(points: &EndPoints, id: Uuid) -> (found: bool)
    ensures
        found ==> end_points(*points).contains_key(id),
{
    points.end_points.contains_key(&id)
}

/// `WeakValueHashMap::get`: the endpoint that was last put in for a UUID, unless
/// all its holders have let go of it. Whether they have is not said.
#[verifier::external_body]
fn get_end_point(points: &EndPoints, id: Uuid) -> (found: Option<Arc<ForwardSender>>)
    ensures
        found is Some ==> end_points(*points).contains_pair(id, found->0.handle),
{
    points.end_points.get(&id)
}

/// `WeakValueHashMap::insert`: puts an endpoint in for a UUID, in place of any
/// earlier one.
#[verifier::external_body]
fn insert_end_point(points: &mut EndPoints, id: Uuid, end_point: Arc<ForwardSender>)
    ensures
        end_points(*final(points)) == end_points(*old(points)).insert(id, end_point.handle),
{
    points.end_points.insert(id, end_point);
}

/// Where endpoints from a [`Source`] are received. If an endpoint is dropped,
/// its association with a UUID is gone.
pub struct Target {
    end_points: EndPoints,
}

impl View for Target {
    type V = Map<Uuid, u64>;

    /// The handle of the endpoint that was last associated with each UUID.
    closed spec fn view(&self) -> Map<Uuid, u64> {
        end_points(self.end_points)
    }
}

/// An endpoint has been received with a UUID. Another one that is associated
/// with the UUID and has not been dropped stays.
pub open spec fn associates(
    before: Map<Uuid, u64>,
    id: Uuid,
    handle: u64,
    after: Map<Uuid, u64>,
) -> bool {
    ||| after == before.insert(id, handle)
    ||| before.contains_key(id) && after == before
}

impl Target {
    /// A target that has received nothing.
    pub fn new() -> (target: Target)
        ensures
            (target@ == Map::<Uuid, u64>::empty()),
    {
        Target { end_points: no_end_points() }
    }

    /// Associates the given UUID with the given endpoint, unless one that is
    /// associated with it was found.
    pub fn add_given(&mut self, found: bool, id: Uuid, end_point: &Arc<ForwardSender>)
        ensures
            found ==> final(self)@ == old(self)@,
            !found ==> final(self)@ == old(self)@.insert(id, end_point.handle),
    {
        if !found {
            insert_end_point(&mut self.end_points, id, Arc::clone(end_point));
        }
    }

    /// Associates the given UUID with the given endpoint, unless it is already
    /// associated with one.
    pub fn add(&mut self, id: Uuid, end_point: &Arc<ForwardSender>)
        ensures
            associates(old(self)@, id, end_point.handle, final(self)@),
    {
        let found: bool = has_end_point(&self.end_points, id);
        self.add_given(found, id, end_point);
    }

    /// The endpoint associated with the given UUID, if there is one.
    pub fn look_up(&self, id: Uuid) -> (end_point: Option<Arc<ForwardSender>>)
        ensures
            end_point is Some ==> self@.contains_pair(id, end_point->0.handle),
    {
        get_end_point(&self.end_points, id)
    }
}

/// A UUID that was never received with an endpoint is associated with none, and
/// one that was received with one endpoint is associated with no other.
pub proof fn law_association_is_with_what_was_received(
    before: Map<Uuid, u64>,
    id: Uuid,
    handle: u64,
    after: Map<Uuid, u64>,
    other: Uuid,
)
    requires
        associates(before, id, handle, after),
    ensures
        after.contains_key(id),
        !before.contains_key(id) ==> after[id] == handle,
        other != id ==> after.contains_key(other) == before.contains_key(other),
        other != id && before.contains_key(other) ==> after[other] == before[other],
{
}

} // verus!
