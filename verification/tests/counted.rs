//! Channels whose senders are counted, in memory instead of in the operating
//! system.

use ipc_channel_mux::multiplex::counted::channel::{
    Channel, OneShotMultiServer, Origin, SubOneShotServer, SubReceiver, SubSender,
};
use ipc_channel_mux::multiplex::counted::error::MultiplexError;
use ipc_channel_mux::multiplex::counted::protocol::MultiMessage;
use ipc_channel_mux::multiplex::counted::receiver::{
    ConnectOutcome, MultiReceiver, ReceptionContext, RecvOutcome, RecvStep, SubChannelReceiver,
};
use ipc_channel_mux::multiplex::counted::sender::{
    dropped, MultiSender, Outgoing, SubChannelSender, TransmissionContext,
};
use ipc_channel_mux::multiplex::receiver::PayloadMailboxes;
use ipc_channel_mux::mux::error::IpcError;
use ipc_channel_mux::mux::mailbox::Mailboxes;
use ipc_channel_mux::mux::protocol::{
    ClientId, IpcSenderAndOrId, MultiResponse, ResponseReceiver, ResponseSender, SubChannelId,
    SubChannelSenderIds,
};
use ipc_channel_mux::mux::sender::{ResponseEvent, SourceTable, SubChannelDisconnector};
use ipc_channel_mux::mux::sender_id::ForwardSender;
use std::cell::RefCell;
use std::collections::{HashMap, VecDeque};
use std::marker::PhantomData;
use std::rc::Rc;
use std::sync::Arc;

struct State {
    next: u64,
    forwards: HashMap<u64, VecDeque<MultiMessage>>,
    /// The channels whose receiving ends are gone.
    closed: Vec<u64>,
    responses: HashMap<u64, VecDeque<MultiResponse>>,
    channels: HashMap<u64, Channel>,
    connected: HashMap<u64, MultiSender>,
    origin: Origin,
    sources: SourceTable,
    mailboxes: PayloadMailboxes,
    sending: TransmissionContext,
    receiving: ReceptionContext,
}

impl State {
    fn new_forward(&mut self) -> Arc<ForwardSender> {
        self.next += 1;
        self.forwards.insert(self.next, VecDeque::new());
        Arc::new(ForwardSender { handle: self.next })
    }

    fn new_response(&mut self) -> (ResponseSender, ResponseReceiver) {
        self.next += 1;
        self.responses.insert(self.next, VecDeque::new());
        (ResponseSender { handle: self.next }, ResponseReceiver { handle: self.next })
    }

    fn deliver(&mut self, outgoing: Outgoing) -> Result<(), IpcError> {
        if self.closed.contains(&outgoing.to.handle) {
            return Err(IpcError::Io("closed".to_string()));
        }
        self.forwards.get_mut(&outgoing.to.handle).unwrap().push_back(outgoing.message);
        Ok(())
    }

    fn multi_sender(&mut self, id: u64) -> &mut MultiSender {
        match self.connected.get_mut(&id) {
            Some(sender) => sender,
            None => &mut self.channels.get_mut(&id).unwrap().multi_sender,
        }
    }

    fn events(&mut self, id: u64) -> Vec<ResponseEvent> {
        let receiver = self.multi_sender(id).responses();
        let queue = self.responses.get_mut(&receiver.handle).unwrap();
        let mut events: Vec<ResponseEvent> =
            queue.drain(..).map(ResponseEvent::Response).collect();
        events.push(ResponseEvent::Empty);
        events
    }

    fn connect(&mut self, sender: Arc<ForwardSender>, uuid: u128) -> ConnectOutcome {
        let (response_sender, response_receiver) = self.new_response();
        let client_id = ClientId::new();
        let ask = MultiSender::connect_message(&sender, response_sender, client_id);
        let registered = self.deliver(ask);
        let connected = MultiSender::connect_sender(
            sender,
            uuid,
            client_id,
            Ok(response_receiver),
            registered,
            &mut self.sources,
        )?;
        let ipc_sender = connected.clone_ipc_sender();
        self.connected.insert(ipc_sender.handle, connected);
        Ok(ipc_sender)
    }

    fn handle(&mut self, channel: u64, message: MultiMessage) -> Result<(), MultiplexError> {
        assert!(self.channels[&channel].multi_receiver.can_take(&message));
        let mut outcomes = VecDeque::new();
        for (sender, uuid) in MultiReceiver::senders_to_connect(&message) {
            let outcome = self.connect(sender, uuid);
            let failed = outcome.is_err();
            outcomes.push_back(outcome);
            if failed {
                break;
            }
        }
        self.channels
            .get_mut(&channel)
            .unwrap()
            .multi_receiver
            .try_handle(message, outcomes, &mut self.receiving, &mut self.mailboxes)
            .unwrap()
    }

    fn poll(&mut self, channel: u64) -> bool {
        let mut lost = vec![];
        for handle in self.channels[&channel].multi_receiver.probes() {
            if self.closed.contains(&handle) {
                lost.push(handle);
            }
        }
        self.channels.get_mut(&channel).unwrap().multi_receiver.poll(&lost, &mut self.mailboxes)
    }

    fn release(&mut self, disconnector: Arc<SubChannelDisconnector>) {
        if let Some(last) = SubChannelDisconnector::release(disconnector) {
            let _ = self.deliver(dropped(&last));
        }
    }
}

#[derive(Clone)]
struct World(Rc<RefCell<State>>);

impl World {
    fn new() -> World {
        let origin = Origin::new();
        World(Rc::new(RefCell::new(State {
            next: 0,
            forwards: HashMap::new(),
            closed: vec![],
            responses: HashMap::new(),
            channels: HashMap::new(),
            connected: HashMap::new(),
            receiving: ReceptionContext::new(origin.source, origin.empty),
            origin,
            sources: SourceTable::new(),
            mailboxes: Mailboxes::new(),
            sending: TransmissionContext::new(),
        })))
    }

    fn channel(&self) -> TestChannel {
        let mut state = self.0.borrow_mut();
        let state = &mut *state;
        let forward = state.new_forward();
        let response = state.new_response();
        let id = forward.handle;
        let channel = Channel::new(Ok(forward), Ok(response), &mut state.sources).unwrap();
        state.channels.insert(id, channel);
        TestChannel { world: self.clone(), id }
    }
}

struct TestChannel {
    world: World,
    id: u64,
}

impl TestChannel {
    fn sub_channel<T: Wire>(&self) -> (Tx<T>, Rx<T>) {
        let mut state = self.world.0.borrow_mut();
        let state = &mut *state;
        let channel = state.channels.get_mut(&self.id).unwrap();
        let (tx, rx) = channel.sub_channel(state.origin.source, &mut state.mailboxes);
        (
            Tx { world: self.world.clone(), sender: Some(tx) },
            Rx { world: self.world.clone(), channel: self.id, receiver: Some(rx) },
        )
    }
}

struct Tx<T> {
    world: World,
    sender: Option<SubSender<T>>,
}

impl<T> Clone for Tx<T> {
    fn clone(&self) -> Tx<T> {
        Tx { world: self.world.clone(), sender: self.sender.clone() }
    }
}

impl<T> Drop for Tx<T> {
    fn drop(&mut self) {
        if let Some(sender) = self.sender.take() {
            self.world.0.borrow_mut().release(sender.sub_channel_sender.disconnector);
        }
    }
}

impl<T: Wire> Tx<T> {
    fn send(&self, message: T) -> Result<(), MultiplexError> {
        let sender = &self.sender.as_ref().unwrap().sub_channel_sender;
        {
            let mut state = self.world.0.borrow_mut();
            let state = &mut *state;
            let events = state.events(sender.multi_sender);
            let mut sending = TransmissionContext::new();
            let ready =
                sender.prepare(state.multi_sender(sender.multi_sender), &events, &mut sending);
            state.sending = sending;
            ready?;
        }
        // A message is encoded once to find its size and once more to send it.
        message.put(&mut vec![], &self.world);
        let mut data = vec![];
        message.put(&mut data, &self.world);
        let mut state = self.world.0.borrow_mut();
        let state = &mut *state;
        let origin = state.origin.source;
        let plan = sender.send(data, origin, &mut state.sending, &mut state.sources);
        for notification in plan.notifications {
            let _ = state.deliver(notification);
        }
        Ok(state.deliver(plan.data)?)
    }
}

struct Rx<T: Wire> {
    world: World,
    channel: u64,
    receiver: Option<SubReceiver<T>>,
}

impl<T: Wire> Drop for Rx<T> {
    fn drop(&mut self) {
        let receiver = self.receiver.take().unwrap().sub_channel_receiver;
        let unreceived = {
            let mut state = self.world.0.borrow_mut();
            let state = &mut *state;
            let responses = state.channels[&self.channel]
                .multi_receiver
                .disconnection_responses(receiver.sub_channel_id);
            for (sender, response) in responses {
                state.responses.get_mut(&sender.handle).unwrap().push_back(response);
            }
            while let Some(message) =
                state.forwards.get_mut(&self.channel).unwrap().pop_front()
            {
                let _ = state.handle(self.channel, message);
            }
            receiver.close(&mut state.mailboxes)
        };
        for payload in unreceived {
            let _ = T::get(&mut VecDeque::from(payload), &self.world, self.channel);
            SubChannelReceiver::decoded(&mut self.world.0.borrow_mut().receiving);
        }
    }
}

impl<T: Wire> Rx<T> {
    fn recv(&self) -> Result<T, MultiplexError> {
        let receiver = &self.receiver.as_ref().unwrap().sub_channel_receiver;
        let mut step = RecvStep::TryLocal;
        let mut idle = 0;
        loop {
            let outcome = match step {
                RecvStep::TryLocal => {
                    let mut state = self.world.0.borrow_mut();
                    RecvOutcome::Local(receiver.local(&mut state.mailboxes))
                }
                RecvStep::Receive(interval) => {
                    assert_eq!(interval, 1_000_000);
                    idle += 1;
                    assert!(idle < 100, "nothing to receive");
                    let mut state = self.world.0.borrow_mut();
                    match state.forwards.get_mut(&self.channel).unwrap().pop_front() {
                        Some(message) => {
                            let about = message.about();
                            RecvOutcome::Handled(about, state.handle(self.channel, message))
                        }
                        None => RecvOutcome::Empty,
                    }
                }
                RecvStep::Poll => {
                    RecvOutcome::Polled(self.world.0.borrow_mut().poll(self.channel))
                }
                RecvStep::Return(Ok(payload)) => {
                    let message = T::get(&mut VecDeque::from(payload), &self.world, self.channel);
                    SubChannelReceiver::decoded(&mut self.world.0.borrow_mut().receiving);
                    return message;
                }
                RecvStep::Return(Err(e)) => return Err(e),
            };
            step = receiver.recv(outcome);
        }
    }
}

/// A value that can be sent.
trait Wire: Sized {
    fn put(&self, out: &mut Vec<u8>, world: &World);
    fn get(input: &mut VecDeque<u8>, world: &World, channel: u64) -> Result<Self, MultiplexError>;
}

impl Wire for u8 {
    fn put(&self, out: &mut Vec<u8>, _world: &World) {
        out.push(*self);
    }

    fn get(input: &mut VecDeque<u8>, _world: &World, _channel: u64) -> Result<u8, MultiplexError> {
        Ok(input.pop_front().unwrap())
    }
}

impl Wire for String {
    fn put(&self, out: &mut Vec<u8>, _world: &World) {
        out.push(self.len() as u8);
        out.extend_from_slice(self.as_bytes());
    }

    fn get(
        input: &mut VecDeque<u8>,
        _world: &World,
        _channel: u64,
    ) -> Result<String, MultiplexError> {
        let len = input.pop_front().unwrap() as usize;
        Ok(String::from_utf8(input.drain(..len).collect()).unwrap())
    }
}

impl<A: Wire, B: Wire> Wire for (A, B) {
    fn put(&self, out: &mut Vec<u8>, world: &World) {
        self.0.put(out, world);
        self.1.put(out, world);
    }

    fn get(
        input: &mut VecDeque<u8>,
        world: &World,
        channel: u64,
    ) -> Result<(A, B), MultiplexError> {
        Ok((A::get(input, world, channel)?, B::get(input, world, channel)?))
    }
}

impl<T> Wire for Tx<T> {
    fn put(&self, out: &mut Vec<u8>, world: &World) {
        let sender = &self.sender.as_ref().unwrap().sub_channel_sender;
        let ids = sender.serialize(&mut world.0.borrow_mut().sending);
        ids.sub_channel_id().serialize().put(out, world);
        ids.ipc_sender_uuid.put(out, world);
    }

    fn get(
        input: &mut VecDeque<u8>,
        world: &World,
        channel: u64,
    ) -> Result<Tx<T>, MultiplexError> {
        let id = SubChannelId::deserialize(&String::get(input, world, channel)?).unwrap();
        let ids = SubChannelSenderIds::new(id, String::get(input, world, channel)?);
        let mut state = world.0.borrow_mut();
        let state = &mut *state;
        let (notification, sub_channel_sender) = SubChannelSender::deserialize(
            &ids,
            &mut state.channels.get_mut(&channel).unwrap().multi_receiver,
            &mut state.receiving,
            &mut state.sources,
        )?;
        let _ = state.deliver(notification);
        Ok(Tx {
            world: world.clone(),
            sender: Some(SubSender { sub_channel_sender, phantom: PhantomData }),
        })
    }
}

#[test]
fn messages_of_counted_subchannels() {
    let world = World::new();
    let channel = world.channel();
    let (tx1, rx1) = channel.sub_channel();
    let (tx2, rx2) = channel.sub_channel();
    tx1.send("one".to_string()).unwrap();
    tx2.send(2u8).unwrap();
    tx1.send("three".to_string()).unwrap();
    assert_eq!(rx2.recv().unwrap(), 2);
    assert_eq!(rx1.recv().unwrap(), "one");
    assert_eq!(rx1.recv().unwrap(), "three");
}

#[test]
fn last_counted_sender_disconnects() {
    let world = World::new();
    let channel = world.channel();
    let (tx, rx) = channel.sub_channel::<u8>();
    let copy = tx.clone();
    drop(tx);
    copy.send(5).unwrap();
    assert_eq!(rx.recv().unwrap(), 5);
    copy.send(6).unwrap();
    drop(copy);
    assert_eq!(rx.recv().unwrap(), 6);
    assert!(matches!(rx.recv(), Err(MultiplexError::Disconnected)));
    assert!(matches!(rx.recv(), Err(MultiplexError::Disconnected)));
}

#[test]
fn dropped_counted_receiver_disconnects() {
    let world = World::new();
    let channel = world.channel();
    let (tx, rx) = channel.sub_channel::<u8>();
    let (other_tx, other_rx) = channel.sub_channel::<u8>();
    tx.send(1).unwrap();
    drop(rx);
    assert!(matches!(tx.send(2), Err(MultiplexError::Disconnected)));
    assert!(matches!(tx.send(3), Err(MultiplexError::Disconnected)));
    other_tx.send(4).unwrap();
    assert_eq!(other_rx.recv().unwrap(), 4);
}

#[test]
fn counted_message_needs_the_outcomes_of_its_senders() {
    let mut mailboxes: PayloadMailboxes = Mailboxes::new();
    let mut context = ReceptionContext::new(6, SubChannelId(0));
    let mut receiver = MultiReceiver::new(1);
    let sender = Arc::new(ForwardSender { handle: 7 });
    let message = || MultiMessage::Sending {
        scid: SubChannelId(2),
        from: 3,
        via: SubChannelId(4),
        via_chan: IpcSenderAndOrId::IpcSender(Arc::clone(&sender), SubChannelId(5).to_string()),
    };
    assert!(receiver
        .try_handle(message(), VecDeque::new(), &mut context, &mut mailboxes)
        .is_none());
    assert!(!receiver
        .can_handle(&message(), &VecDeque::from([Ok(Arc::new(ForwardSender { handle: 8 }))])));
    assert!(receiver
        .try_handle(message(), VecDeque::from([Ok(Arc::clone(&sender))]), &mut context, &mut mailboxes)
        .unwrap()
        .is_ok());
}

#[test]
fn counted_copies_share_a_disconnector() {
    let mut receiver = MultiReceiver::new(9);
    let ipc_sender = Arc::new(ForwardSender { handle: 7 });
    let scid = SubChannelId(1);
    let first = receiver.disconnector_given(None, scid, &ipc_sender);
    assert_eq!((first.sub_channel_id, first.source, first.multi_sender), (scid, 9, 7));
    let again = receiver.disconnector_given(Some(Arc::clone(&first)), scid, &ipc_sender);
    assert!(Arc::ptr_eq(&first, &again));
}

#[test]
fn counted_failure_for_a_sibling_is_no_reason_to_stop() {
    let receiver = SubChannelReceiver { sub_channel_id: SubChannelId(1), mailbox: 1 };
    let failed = || Err(MultiplexError::Disconnected);
    let late = MultiMessage::Data(SubChannelId(2), vec![], vec![], 0);
    assert_eq!(late.about(), Some(SubChannelId(2)));
    assert!(matches!(
        receiver.recv(RecvOutcome::Handled(late.about(), failed())),
        RecvStep::TryLocal
    ));
    assert!(matches!(
        receiver.recv(RecvOutcome::Handled(Some(SubChannelId(1)), failed())),
        RecvStep::Return(Err(MultiplexError::Disconnected))
    ));
    assert_eq!(MultiMessage::Probe.about(), None);
    assert!(matches!(
        receiver.recv(RecvOutcome::Handled(None, failed())),
        RecvStep::Return(Err(MultiplexError::Disconnected))
    ));
}

#[test]
fn counted_senders_can_be_sent() {
    let world = World::new();
    let channel = world.channel();
    let (sub_tx, sub_rx) = channel.sub_channel::<u8>();
    let other = world.channel();
    let (super_tx, super_rx) = other.sub_channel::<(u8, Tx<u8>)>();

    super_tx.send((9, sub_tx)).unwrap();
    let (number, received) = super_rx.recv().unwrap();
    assert_eq!(number, 9);
    received.send(10).unwrap();
    assert_eq!(sub_rx.recv().unwrap(), 10);
    drop(received);
    assert!(matches!(sub_rx.recv(), Err(MultiplexError::Disconnected)));
}

#[test]
fn counted_sender_sent_twice() {
    let world = World::new();
    let channel = world.channel();
    let (sub_tx, sub_rx) = channel.sub_channel::<u8>();
    let other = world.channel();
    let (super_tx, super_rx) = other.sub_channel::<Tx<u8>>();

    super_tx.send(sub_tx.clone()).unwrap();
    super_tx.send(sub_tx).unwrap();
    let first = super_rx.recv().unwrap();
    drop(first);
    let second = super_rx.recv().unwrap();
    second.send(1).unwrap();
    assert_eq!(sub_rx.recv().unwrap(), 1);
    drop(second);
    assert!(matches!(sub_rx.recv(), Err(MultiplexError::Disconnected)));
}

#[test]
fn counted_sender_dropped_with_its_message() {
    let world = World::new();
    let channel = world.channel();
    let (sub_tx, sub_rx) = channel.sub_channel::<u8>();
    let other = world.channel();
    let (super_tx, super_rx) = other.sub_channel::<Tx<u8>>();

    super_tx.send(sub_tx).unwrap();
    drop(super_rx);
    assert!(matches!(sub_rx.recv(), Err(MultiplexError::Disconnected)));
}

#[test]
fn counted_sender_lost_with_its_channel() {
    let world = World::new();
    let channel = world.channel();
    let (sub_tx, sub_rx) = channel.sub_channel::<u8>();
    let other = world.channel();
    let (super_tx, super_rx) = other.sub_channel::<Tx<u8>>();

    sub_tx.send(1).unwrap();
    super_tx.send(sub_tx.clone()).unwrap();
    sub_tx.send(2).unwrap();
    drop(sub_tx);
    assert_eq!(sub_rx.recv().unwrap(), 1);
    assert_eq!(sub_rx.recv().unwrap(), 2);
    world.0.borrow_mut().closed.push(other.id);
    assert!(matches!(sub_rx.recv(), Err(MultiplexError::Disconnected)));
    drop(super_rx);
}

#[test]
fn counted_sender_sent_over_a_lost_channel() {
    let world = World::new();
    let channel = world.channel();
    let (sub_tx, sub_rx) = channel.sub_channel::<u8>();
    let other = world.channel();
    let (super_tx, super_rx) = other.sub_channel::<Tx<u8>>();

    // The channel is gone before its sender can be connected.
    super_tx.send(sub_tx).unwrap();
    world.0.borrow_mut().closed.push(other.id);
    match sub_rx.recv() {
        Err(MultiplexError::IpcError(IpcError::Io(reason))) => assert_eq!(reason, "closed"),
        _ => panic!("expected an IPC error"),
    }
    drop(super_rx);
}

#[test]
fn one_shot_server_of_counted_channels() {
    let world = World::new();
    let (server, name) = SubOneShotServer::new("server".to_string());
    let mut state = world.0.borrow_mut();
    let state = &mut *state;

    let forward = state.new_forward();
    let handle = forward.handle;
    state.connect(forward, 17).unwrap();
    let (tx, announcement) = {
        let origin = state.origin.source;
        SubSender::<u8>::connect(state.multi_sender(handle), handle, origin, name)
    };
    state.deliver(announcement).unwrap();

    let first = state.forwards.get_mut(&handle).unwrap().pop_front().unwrap();
    assert!(matches!(first, MultiMessage::Connect(..)));
    let mut receiver = OneShotMultiServer::checked_accept(
        first,
        VecDeque::new(),
        &mut state.receiving,
        &mut state.mailboxes,
    )
    .unwrap()
    .unwrap();
    let announced = state.forwards.get_mut(&handle).unwrap().pop_front().unwrap();
    let described = format!("{:?}", announced);
    let (scid, given) = MultiReceiver::receive_sub_channel(Ok(announced), described).unwrap();
    assert_eq!(scid, tx.sub_channel_sender.sub_channel_id());
    assert_eq!(server.accept(scid, given).unwrap(), scid);
    let rx = receiver.attach(scid, state.origin.source, &mut state.mailboxes);
    assert_eq!(rx.sub_channel_id, scid);
    assert_eq!(receiver.disconnection_responses(scid).len(), 1);

    // Other announcements are refused.
    assert!(matches!(
        server.accept(scid, "other".to_string()),
        Err(MultiplexError::InternalError(_))
    ));
    match MultiReceiver::receive_sub_channel(Ok(MultiMessage::Probe), "Probe".to_string()) {
        Err(MultiplexError::InternalError(text)) => {
            assert_eq!(text, "unexpected multi message Probe")
        }
        _ => panic!("expected an internal error"),
    }
    assert!(matches!(
        MultiReceiver::receive_sub_channel(Err(IpcError::Disconnected), String::new()),
        Err(MultiplexError::Disconnected)
    ));

    // A subchannel that is announced late is not expected.
    let late = MultiMessage::SubChannelId(SubChannelId(0), "a \"b\"".to_string());
    match receiver.handle(late, VecDeque::new(), &mut state.receiving, &mut state.mailboxes) {
        Err(MultiplexError::InternalError(text)) => assert_eq!(
            text,
            "unexpected multi message SubChannelId(SubChannelId(\
             00000000-0000-0000-0000-000000000000), \"a \\\"b\\\"\")"
        ),
        _ => panic!("expected an internal error"),
    }
}
