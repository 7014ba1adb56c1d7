use ipc_channel_mux::multiplex::subchannel_lifecycle::{
    Sender, SubSenderStateMachine, SubSenderTracker,
};
use std::cell::RefCell;
use std::rc::Rc;

const X: u128 = 1;
const Y: u128 = 2;
const SCID: u128 = 3;
const NONE: u128 = 4;

type Machine = SubSenderStateMachine<TestSender, char, TestError, Box<dyn Fn() -> bool>>;

#[test]
fn sub_sender_tracker_basics() {
    let dropped = RefCell::new(false);
    let t = SubSenderTracker::new(Box::new(|| *dropped.borrow_mut() = true));
    drop(t);
    assert!(dropped.take());
}

struct TestSender {
    sent: Rc<RefCell<Vec<char>>>,
    err: Option<TestError>,
}

impl TestSender {
    fn new(sent: &Rc<RefCell<Vec<char>>>) -> Self {
        Self { sent: Rc::clone(sent), err: None }
    }

    fn set_error(&mut self, err: TestError) {
        self.err = Some(err);
    }
}

#[derive(Clone, Debug, PartialEq)]
enum TestError {
    AnError,
}

impl Sender<char, TestError> for TestSender {
    fn send(&self, msg: char) -> Result<(), TestError> {
        if let Some(err) = &self.err {
            Err(err.clone())
        } else {
            self.sent.borrow_mut().push(msg);
            Ok(())
        }
    }
}

#[test]
fn sub_sender_state_machine_send_ok() {
    let sent = Rc::new(RefCell::new(vec![]));
    let ssm: Machine = SubSenderStateMachine::new(TestSender::new(&sent), NONE);
    assert_eq!(ssm.send('a'), Some(Ok(())));
    assert_eq!(sent.borrow().clone(), vec!['a']);
}

#[test]
fn sub_sender_state_machine_send_error() {
    let sent = Rc::new(RefCell::new(vec![]));
    let mut test_sender = TestSender::new(&sent);
    test_sender.set_error(TestError::AnError);
    let ssm: Machine = SubSenderStateMachine::new(test_sender, NONE);
    assert_eq!(ssm.send('a'), Some(Err(TestError::AnError)));
}

#[test]
fn sub_sender_state_machine_disconnect() {
    let sent = Rc::new(RefCell::new(vec![]));
    let mut ssm: Machine = SubSenderStateMachine::new(TestSender::new(&sent), X);

    // Disconnecting an unknown source should have no effect.
    ssm.disconnect(Y);
    assert_eq!(ssm.send('a'), Some(Ok(())));

    ssm.disconnect(X);
    assert_eq!(ssm.send('a'), None);
}

#[test]
fn sub_sender_state_machine_disconnect_received_first() {
    let sent = Rc::new(RefCell::new(vec![]));
    let mut ssm: Machine = SubSenderStateMachine::new(TestSender::new(&sent), X);

    ssm.to_be_sent(X, SCID, Box::new(|| true));
    ssm.received(X, SCID, Y);
    ssm.disconnect(Y);
    assert_eq!(ssm.send('a'), Some(Ok(())));

    ssm.disconnect(X);
    assert_eq!(ssm.send('a'), None);
}

#[test]
fn sub_sender_state_machine_disconnect_original_first() {
    let sent = Rc::new(RefCell::new(vec![]));
    let mut ssm: Machine = SubSenderStateMachine::new(TestSender::new(&sent), X);

    ssm.to_be_sent(X, SCID, Box::new(|| true));
    ssm.received(X, SCID, Y);

    // Disconnecting the original source should have no effect.
    ssm.disconnect(X);
    assert_eq!(ssm.send('a'), Some(Ok(())));

    ssm.disconnect(Y);
    assert_eq!(ssm.send('a'), None);
}

#[test]
fn sub_sender_state_machine_in_flight() {
    let sent = Rc::new(RefCell::new(vec![]));
    let mut ssm: Machine = SubSenderStateMachine::new(TestSender::new(&sent), X);
    ssm.to_be_sent(X, SCID, Box::new(|| true));
    ssm.disconnect(X);
    assert_eq!(ssm.send('a'), Some(Ok(())));
    assert_eq!(sent.borrow().clone(), vec!['a']);
}

#[test]
fn sub_sender_state_machine_multiple_transmission() {
    let sent = Rc::new(RefCell::new(vec![]));
    let mut ssm: Machine = SubSenderStateMachine::new(TestSender::new(&sent), X);

    ssm.to_be_sent(X, SCID, Box::new(|| true));
    ssm.to_be_sent(X, SCID, Box::new(|| true));
    ssm.disconnect(X);

    ssm.received(X, SCID, Y);
    ssm.disconnect(Y);

    ssm.received(X, SCID, Y);
    assert_eq!(ssm.send('a'), Some(Ok(())));
    assert_eq!(sent.borrow().clone(), vec!['a']);
}

#[test]
fn sub_sender_state_machine_in_flight_crash() {
    let sent = Rc::new(RefCell::new(vec![]));
    let mut ssm: Machine = SubSenderStateMachine::new(TestSender::new(&sent), X);

    ssm.to_be_sent(X, SCID, Box::new(|| false));
    ssm.disconnect(X);

    assert_eq!(ssm.send('a'), Some(Ok(())));
    assert_eq!(sent.borrow().clone(), vec!['a']);

    ssm.poll();
    assert_eq!(ssm.send('a'), None);
}

#[test]
fn sub_sender_state_machine_two_in_flight_crash() {
    let sent = Rc::new(RefCell::new(vec![]));
    let mut ssm: Machine = SubSenderStateMachine::new(TestSender::new(&sent), X);

    ssm.to_be_sent(X, SCID, Box::new(|| false));
    ssm.to_be_sent(X, SCID, Box::new(|| false));
    ssm.disconnect(X);

    assert_eq!(ssm.send('a'), Some(Ok(())));
    assert_eq!(sent.borrow().clone(), vec!['a']);

    ssm.poll();
    assert_eq!(ssm.send('a'), None);
}

#[test]
fn sub_sender_state_machine_in_flight_crash_eventually() {
    let sent = Rc::new(RefCell::new(vec![]));
    let mut ssm: Machine = SubSenderStateMachine::new(TestSender::new(&sent), X);

    let count: Rc<RefCell<u8>> = Rc::new(RefCell::new(0));
    let count_clone = Rc::clone(&count);
    ssm.to_be_sent(
        X,
        SCID,
        Box::new(move || {
            let mut c = count_clone.borrow().clone();
            c += 1;
            count_clone.replace(c);
            c < 2
        }),
    );
    ssm.disconnect(X);

    assert_eq!(ssm.send('a'), Some(Ok(())));
    assert_eq!(sent.borrow().clone(), vec!['a']);
    
    ssm.poll();
    assert_eq!(ssm.send('b'), Some(Ok(())));
    assert_eq!(sent.borrow().clone(), vec!['a', 'b']);
    
    ssm.poll();
    assert_eq!(ssm.send('c'), None);
}

#[test]
fn receipts_are_counted_by_source() {
    let sent = Rc::new(RefCell::new(vec![]));
    let mut ssm: Machine = SubSenderStateMachine::new(TestSender::new(&sent), X);

    // A copy is in flight from one source; a receipt of a copy from another
    // does not end the transmission.
    ssm.to_be_sent(X, SCID, Box::new(|| false));
    ssm.received(Y, SCID, Y);
    ssm.disconnect(X);
    assert!(ssm.disconnect(Y).is_none());
    assert_eq!(ssm.send('a'), Some(Ok(())));

    // The loss of the channel does, and hands the sender back.
    let (alive, handed_back) = ssm.poll();
    assert!(!alive);
    assert!(handed_back.is_some());
    assert_eq!(ssm.send('b'), None);
}

#[test]
fn only_lost_subchannels_are_given_up() {
    let sent = Rc::new(RefCell::new(vec![]));
    let mut ssm: Machine = SubSenderStateMachine::new(TestSender::new(&sent), X);
    ssm.to_be_sent(X, SCID, Box::new(|| true));
    ssm.to_be_sent(X, NONE, Box::new(|| true));
    ssm.disconnect(X);

    let (alive, handed_back) = ssm.poll_with(&vec![SCID]);
    assert!(!alive);
    assert!(handed_back.is_none());
    let (alive, handed_back) = ssm.poll();
    assert!(alive);
    assert!(handed_back.is_none());
    let (alive, handed_back) = ssm.poll_with(&vec![NONE]);
    assert!(!alive);
    assert!(handed_back.is_some());
}
