use ipc_channel_mux::mux::protocol::SubChannelId;
use ipc_channel_mux::mux::sender_id::{ForwardSender, Source, Target};
use std::rc::Rc;
use std::sync::Arc;

fn sender(handle: u64) -> Arc<ForwardSender> {
    Arc::new(ForwardSender { handle })
}

#[test]
fn sender_id_test_source() {
    let mut map = Source::new();
    let a = sender(1);
    assert!(!map.insert(Arc::clone(&a)));

    let b = sender(2);
    assert!(!map.insert(Arc::clone(&b)));

    assert!(map.insert(Arc::clone(&a)));

    assert!(map.insert(Arc::clone(&b)));

    drop(a);

    assert!(map.insert(Arc::clone(&b)));

    let c = sender(3);
    assert!(!map.insert(c));
}

#[test]
fn sender_id_test_target() {
    let mut map: Target<u32> = Target::new();

    let u = SubChannelId::new().0;

    // An unassociated UUID should return None from look_up.
    assert_eq!(map.look_up(u), None);

    // Associating an unassociated UUID with an sender should succeed.
    map.add(u, &1);

    // Associating an associated UUID with the same sender should succeed.
    map.add(u, &1);

    // look_up should find the sender associated with a UUID.
    let val = map.look_up(u);
    assert_eq!(val, Some(1));

    // Associating an associated UUID with a distinct sender does not fail.
    map.add(u, &2);
    assert_eq!(map.look_up(u), Some(1));

    // Associating an unassociated UUID with an unassociated sender should succeed.
    let u2 = SubChannelId::new().0;
    map.add(u2, &3);

    // Associating another UUID with an sender already associated with a
    // distinct UUID should succeed.
    let u3 = SubChannelId::new().0;
    map.add(u3, &1);
    assert_eq!(map.look_up(u2), Some(3));
    assert_eq!(map.look_up(u3), Some(1));
}

// How a source and a target are used together.
#[test]
fn sender_id_test_source_with_target() {
    let mut source_map = Source::new();

    // The first time, the sender is sent along with a UUID.
    let a = sender(1);
    let id = SubChannelId::new().0;
    assert!(!source_map.insert(Arc::clone(&a)));

    let mut target_map: Target<Rc<u64>> = Target::new();
    let received = Rc::new(a.handle);
    target_map.add(id, &received);

    // Later, just the UUID is sent.
    assert!(source_map.insert(Arc::clone(&a)));

    assert_eq!(target_map.look_up(id), Some(Rc::clone(&received)));
}
