use ipc_channel_mux::mux::subchannel_lifecycle::{
    Sender, SubReceiverProxy, SubSenderStateMachine, SubSenderTracker,
};
use std::sync::{Arc, Mutex};

const X: u128 = 1;
const Y: u128 = 2;
const SCID: u128 = 3;

type Machine = SubSenderStateMachine<TestSender, char, TestError, Box<dyn Fn() -> bool>>;

#[test]
fn subchannel_lifecycle_sub_sender_tracker_basics() {
    let dropped = Mutex::new(false);
    let t = SubSenderTracker::new(Box::new(|| *dropped.lock().unwrap() = true));
    drop(t);
    assert!(*dropped.lock().unwrap());
}

#[test]
fn sub_receiver_proxy_basics() {
    let mut p = SubReceiverProxy::new();
    assert!(!p.disconnected());
    p.disconnect();
    assert!(p.disconnected());
    p.disconnect();
    assert!(p.disconnected());
}

#[derive(Debug)]
struct TestSender {
    sent: Arc<Mutex<Vec<char>>>,
    err: Option<TestError>,
}

impl TestSender {
    fn new(sent: &Arc<Mutex<Vec<char>>>) -> Self {
        Self {
            sent: Arc::clone(sent),
            err: None,
        }
    }

    fn set_error(&mut self, err: TestError) {
        self.err = Some(err);
    }
}

#[derive(Clone, Debug, PartialEq)]
enum TestError {
    AnError,
}

impl Sender<char, TestError> for TestSender {
    fn send(&self, msg: char) -> Result<(), TestError> {
        if let Some(err) = self.err.clone() {
            return Err(err);
        }
        self.sent.lock().unwrap().push(msg);
        Ok(())
    }
}

#[test]
fn subchannel_lifecycle_sub_sender_state_machine_send_ok() {
    let sent = Arc::new(Mutex::new(vec![]));
    let ssm: Machine = SubSenderStateMachine::new(TestSender::new(&sent), X);
    assert_eq!(ssm.send('a'), Some(Ok(())));
    assert_eq!(sent.lock().unwrap().clone(), vec!['a']);
}

#[test]
fn subchannel_lifecycle_sub_sender_state_machine_send_error() {
    let sent = Arc::new(Mutex::new(vec![]));
    let mut test_sender = TestSender::new(&sent);
    test_sender.set_error(TestError::AnError);
    let ssm: Machine = SubSenderStateMachine::new(test_sender, X);
    assert_eq!(ssm.send('a'), Some(Err(TestError::AnError)));
}

#[test]
fn subchannel_lifecycle_sub_sender_state_machine_disconnect() {
    let sent = Arc::new(Mutex::new(vec![]));
    let mut ssm: Machine = SubSenderStateMachine::new(TestSender::new(&sent), X);

    // Disconnecting an unknown source should have no effect.
    let disc = ssm.disconnect(Y);
    assert!(disc.is_none());
    assert_eq!(ssm.send('a'), Some(Ok(())));

    let disc = ssm.disconnect(X);
    assert!(disc.is_some());
    assert_eq!(ssm.send('a'), None);
}

#[test]
fn remaining_copy_is_still_probed() {
    let sent = Arc::new(Mutex::new(vec![]));
    let mut ssm: Machine = SubSenderStateMachine::new(TestSender::new(&sent), X);
    ssm.to_be_sent(SCID, Box::new(|| false));
    ssm.to_be_sent(SCID, Box::new(|| false));
    assert!(ssm.disconnect(X).is_none());
    ssm.received(&SCID, Y);
    assert!(ssm.disconnect(Y).is_none());

    // The copy that is left goes over a channel that is gone.
    let (connected, handed_back) = ssm.poll();
    assert!(!connected);
    assert!(handed_back.is_some());
    assert_eq!(ssm.send('a'), None);
}

#[test]
fn subchannel_lifecycle_sub_sender_state_machine_disconnect_received_first() {
    let sent = Arc::new(Mutex::new(vec![]));
    let mut ssm: Machine = SubSenderStateMachine::new(TestSender::new(&sent), X);

    ssm.to_be_sent(SCID, Box::new(|| true));
    ssm.received(&SCID, Y);
    let disc = ssm.disconnect(Y);
    assert!(disc.is_none());
    assert_eq!(ssm.send('a'), Some(Ok(())));

    let disc = ssm.disconnect(X);
    assert!(disc.is_some());
    assert_eq!(ssm.send('a'), None);
}

#[test]
fn subchannel_lifecycle_sub_sender_state_machine_disconnect_original_first() {
    let sent = Arc::new(Mutex::new(vec![]));
    let mut ssm: Machine = SubSenderStateMachine::new(TestSender::new(&sent), X);

    ssm.to_be_sent(SCID, Box::new(|| true));
    ssm.received(&SCID, Y);

    // Disconnecting the original source should have no effect.
    let disc = ssm.disconnect(X);
    assert!(disc.is_none());
    assert_eq!(ssm.send('a'), Some(Ok(())));

    let disc = ssm.disconnect(Y);
    assert!(disc.is_some());
    assert_eq!(ssm.send('a'), None);
}

#[test]
fn subchannel_lifecycle_sub_sender_state_machine_in_flight() {
    let sent = Arc::new(Mutex::new(vec![]));
    let mut ssm: Machine = SubSenderStateMachine::new(TestSender::new(&sent), X);
    ssm.to_be_sent(SCID, Box::new(|| true));
    let disc = ssm.disconnect(X);
    assert!(disc.is_none());
    assert_eq!(ssm.send('a'), Some(Ok(())));
    assert_eq!(sent.lock().unwrap().clone(), vec!['a']);
}

#[test]
fn subchannel_lifecycle_sub_sender_state_machine_multiple_transmission() {
    let sent = Arc::new(Mutex::new(vec![]));
    let mut ssm: Machine = SubSenderStateMachine::new(TestSender::new(&sent), X);

    ssm.to_be_sent(SCID, Box::new(|| true));
    ssm.to_be_sent(SCID, Box::new(|| true));
    let disc = ssm.disconnect(X);
    assert!(disc.is_none());

    ssm.received(&SCID, Y);
    let disc = ssm.disconnect(Y);
    assert!(disc.is_none());

    ssm.received(&SCID, Y);
    assert_eq!(ssm.send('a'), Some(Ok(())));
    assert_eq!(sent.lock().unwrap().clone(), vec!['a']);
}

#[test]
fn subchannel_lifecycle_sub_sender_state_machine_in_flight_crash() {
    let sent = Arc::new(Mutex::new(vec![]));
    let mut ssm: Machine = SubSenderStateMachine::new(TestSender::new(&sent), X);

    ssm.to_be_sent(SCID, Box::new(|| false));
    ssm.disconnect(X);

    assert_eq!(ssm.send('a'), Some(Ok(())));
    assert_eq!(sent.lock().unwrap().clone(), vec!['a']);

    ssm.poll();
    assert_eq!(ssm.send('a'), None);
}

#[test]
fn subchannel_lifecycle_sub_sender_state_machine_two_in_flight_crash() {
    let sent = Arc::new(Mutex::new(vec![]));
    let mut ssm: Machine = SubSenderStateMachine::new(TestSender::new(&sent), X);

    ssm.to_be_sent(SCID, Box::new(|| false));
    ssm.to_be_sent(SCID, Box::new(|| false));
    let disc = ssm.disconnect(X);
    assert!(disc.is_none());

    assert_eq!(ssm.send('a'), Some(Ok(())));
    assert_eq!(sent.lock().unwrap().clone(), vec!['a']);

    ssm.poll();
    assert_eq!(ssm.send('a'), None);
}

#[test]
fn subchannel_lifecycle_sub_sender_state_machine_in_flight_crash_eventually() {
    let sent = Arc::new(Mutex::new(vec![]));
    let mut ssm: Machine = SubSenderStateMachine::new(TestSender::new(&sent), X);

    let count: Arc<Mutex<u8>> = Arc::new(Mutex::new(0));
    let count_clone = Arc::clone(&count);
    ssm.to_be_sent(
        SCID,
        Box::new(move || {
            let mut c = *count_clone.lock().unwrap();
            c += 1;
            *count_clone.lock().unwrap() = c;
            c < 2
        }),
    );
    let disc = ssm.disconnect(X);
    assert!(disc.is_none());

    assert_eq!(ssm.send('a'), Some(Ok(())));
    assert_eq!(sent.lock().unwrap().clone(), vec!['a']);

    ssm.poll();
    assert_eq!(ssm.send('b'), Some(Ok(())));
    assert_eq!(sent.lock().unwrap().clone(), vec!['a', 'b']);

    ssm.poll();
    assert_eq!(ssm.send('c'), None);
}

#[test]
fn sub_sender_state_machine_receive_failed() {
    let sent = Arc::new(Mutex::new(vec![]));
    let mut ssm: Machine = SubSenderStateMachine::new(TestSender::new(&sent), X);

    ssm.to_be_sent(SCID, Box::new(|| true));

    // Disconnecting the original source should have no effect.
    let disc = ssm.disconnect(X);
    assert!(disc.is_none());
    assert_eq!(ssm.send('a'), Some(Ok(())));

    ssm.receive_failed(&SCID);
    assert_eq!(ssm.send('a'), None);
}

#[test]
fn sub_sender_state_machine_remove_probe_on_disconnect() {
    let sent = Arc::new(Mutex::new(vec![]));
    let mut ssm: Machine = SubSenderStateMachine::new(TestSender::new(&sent), X);

    ssm.to_be_sent(SCID, Box::new(|| panic!("probe should not be run")));
    ssm.received(&SCID, Y);
    ssm.poll();
}
