use ipc_channel_mux::multiplex::channel_identification::{Source, Target};
use ipc_channel_mux::mux::protocol::SubChannelId;
use ipc_channel_mux::mux::sender_id::ForwardSender;
use std::sync::Arc;

fn end_point(handle: u64) -> Arc<ForwardSender> {
    Arc::new(ForwardSender { handle })
}

fn same(found: &Option<Arc<ForwardSender>>, end_point: &Arc<ForwardSender>) -> bool {
    match found {
        Some(found) => Arc::ptr_eq(found, end_point),
        None => false,
    }
}

fn source() {
    let mut map = Source::new();
    let a = end_point(1);
    assert!(!map.insert(Arc::clone(&a)));

    let b = end_point(2);
    assert!(!map.insert(Arc::clone(&b)));

    assert!(map.insert(Arc::clone(&a)));

    assert!(map.insert(Arc::clone(&b)));

    drop(a);

    assert!(map.insert(Arc::clone(&b)));

    let c = end_point(3);
    assert!(!map.insert(c));
}

fn target() {
    let mut map = Target::new();

    let u = SubChannelId::new().0;

    // An unassociated UUID should return None from look_up.
    assert!(map.look_up(u).is_none());

    // Associating an unassociated UUID with an endpoint should succeed.
    let a = end_point(1);
    map.add(u, &a);

    // Associating an associated UUID with the same endpoint should succeed.
    map.add(u, &a);

    // look_up should find the endpoint associated with a UUID.
    let val = map.look_up(u);
    assert!(same(&val, &a));

    // Associating an associated UUID with a distinct endpoint does not fail.
    let b = end_point(2);
    map.add(u, &b);

    // Associating an unassociated UUID with an unassociated endpoint should succeed.
    let u2 = SubChannelId::new().0;
    map.add(u2, &b);

    // Associating another UUID with an endpoint already associated with a
    // distinct UUID should succeed.
    let u3 = SubChannelId::new().0;
    map.add(u3, &a);

    // Looking up a UUID associated with a dropped endpoint should fail.
    drop(a);
    drop(val); // another strong pointer to the endpoint
    assert!(map.look_up(u).is_none());

    // The other endpoint is still there.
    assert!(same(&map.look_up(u2), &b));
    assert!(map.look_up(u3).is_none());
}

fn source_with_target() {
    let mut source_map = Source::new();

    // The first time, the endpoint is sent along with a UUID.
    let a = end_point(1);
    let id = SubChannelId::new().0;
    assert!(!source_map.insert(Arc::clone(&a)));

    let mut target_map = Target::new();
    target_map.add(id, &a);

    // Later, just the UUID is sent.
    assert!(source_map.insert(Arc::clone(&a)));

    assert!(same(&target_map.look_up(id), &a));
}

#[test]
fn endpoint_that_was_found_stays() {
    let mut target = Target::new();
    let first = Arc::new(ForwardSender { handle: 1 });
    let other = Arc::new(ForwardSender { handle: 2 });
    target.add_given(false, 5, &first);
    target.add_given(true, 5, &other);
    assert_eq!(target.look_up(5).unwrap().handle, 1);
    target.add_given(false, 5, &other);
    assert_eq!(target.look_up(5).unwrap().handle, 2);
}

#[test]
fn multiplex_test_source() {
    source();
}

#[test]
fn multiplex_test_target() {
    target();
}

#[test]
fn multiplex_test_source_with_target() {
    source_with_target();
}

#[test]
fn channel_identification_test_source() {
    source();
}

#[test]
fn channel_identification_test_target() {
    target();
}

#[test]
fn channel_identification_test_source_with_target() {
    source_with_target();
}
