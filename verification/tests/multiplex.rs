//! Channels whose receivers can be sent, in memory instead of in the operating
//! system.

use ipc_channel_mux::multiplex::channel::{
    Channel, OneShotMultiServer, SubOneShotServer, SubReceiver, SubSender,
};
use ipc_channel_mux::multiplex::error::MultiplexError;
use ipc_channel_mux::multiplex::protocol::{
    ForwardReceiver, MultiMessage, MultiResponse, SubChannelReceiverIds,
};
use ipc_channel_mux::multiplex::receiver::{
    Grid, PayloadMailboxes, ReceptionContext, RecvOutcome, RecvStep, SubChannelReceiver,
};
use ipc_channel_mux::multiplex::sender::{
    MultiSender, Outgoing, SubChannelSender, TransmissionContext,
};
use ipc_channel_mux::mux::error::IpcError;
use ipc_channel_mux::mux::mailbox::Mailboxes;
use ipc_channel_mux::mux::protocol::{ResponseSender, SubChannelId, SubChannelSenderIds};
use ipc_channel_mux::mux::sender::SourceTable;
use ipc_channel_mux::mux::sender_id::ForwardSender;
use std::cell::RefCell;
use std::collections::{HashMap, VecDeque};
use std::marker::PhantomData;
use std::rc::Rc;
use std::sync::Arc;

struct State {
    next: u64,
    /// What has been sent over each IPC channel. Both ends of a channel have
    /// its number as handle.
    forwards: HashMap<u64, VecDeque<MultiMessage>>,
    responses: HashMap<u64, VecDeque<MultiResponse>>,
    grids: HashMap<u64, Grid>,
    sources: SourceTable,
    mailboxes: PayloadMailboxes,
    sending: TransmissionContext,
    receiving: ReceptionContext,
}

impl State {
    fn new_forward(&mut self) -> (Arc<ForwardSender>, ForwardReceiver) {
        self.next += 1;
        let handle = self.next;
        self.forwards.insert(handle, VecDeque::new());
        (Arc::new(ForwardSender { handle }), ForwardReceiver { handle })
    }

    fn new_response(&mut self) -> ResponseSender {
        self.next += 1;
        let handle = self.next;
        self.responses.insert(handle, VecDeque::new());
        ResponseSender { handle }
    }

    fn deliver(&mut self, outgoing: Outgoing) {
        self.forwards.get_mut(&outgoing.to.handle).unwrap().push_back(outgoing.message);
    }

    /// Sends the answer to a message, if it has one.
    fn answer(&mut self, grid: u64, receiver: u128, message: &MultiMessage) {
        if let Some((sender, response)) = self.grids[&grid].answer(receiver, message) {
            self.responses.get_mut(&sender.handle).unwrap().push_back(response);
        }
    }

    /// Receives a message for a receiving end.
    fn receive(&mut self, grid: u64, receiver: u128) -> Result<(), MultiplexError> {
        let handle = self.grids[&grid].ipc_receiver(receiver).expect("the receiver was sent");
        let message = self
            .forwards
            .get_mut(&handle)
            .unwrap()
            .pop_front()
            .expect("nothing to receive");
        assert!(self.grids[&grid].can_take(receiver, &message));
        self.answer(grid, receiver, &message);
        self.grids.get_mut(&grid).unwrap().receive(
            receiver,
            Ok(message),
            Ok(()),
            &mut self.receiving,
            &mut self.mailboxes,
        )
    }
}

#[derive(Clone)]
struct World(Rc<RefCell<State>>);

impl World {
    fn new() -> World {
        World(Rc::new(RefCell::new(State {
            next: 0,
            forwards: HashMap::new(),
            responses: HashMap::new(),
            grids: HashMap::new(),
            sources: SourceTable::new(),
            mailboxes: Mailboxes::new(),
            sending: TransmissionContext::new(),
            receiving: ReceptionContext::new(),
        })))
    }

    fn channel(&self) -> TestChannel {
        let mut state = self.0.borrow_mut();
        let state = &mut *state;
        let forward = state.new_forward();
        let response = state.new_response();
        let channel = Channel::new(Ok(forward), Ok(response), &mut state.sources).unwrap();
        state.next += 1;
        TestChannel { world: self.clone(), grid: state.next, channel: RefCell::new(Some(channel)) }
    }
}

/// A channel, whose receiving ends are kept apart for its receivers.
struct TestChannel {
    world: World,
    grid: u64,
    channel: RefCell<Option<Channel>>,
}

impl TestChannel {
    fn sub_channel<T: Wire>(&self) -> (Tx<T>, Rx<T>) {
        let mut state = self.world.0.borrow_mut();
        let state = &mut *state;
        let mut channel = self.channel.borrow_mut().take().unwrap();
        if let Some(grid) = state.grids.remove(&self.grid) {
            channel.grid = grid;
        }
        let (tx, rx) = channel.sub_channel(&mut state.mailboxes);
        let Channel { multi_sender, multi_receiver, grid } = channel;
        state.grids.insert(self.grid, grid);
        let (_, unused) = state.new_forward();
        let (_, empty) = OneShotMultiServer::begin_accept(unused);
        *self.channel.borrow_mut() = Some(Channel { multi_sender, multi_receiver, grid: empty });
        (
            Tx { world: self.world.clone(), sender: tx },
            Rx { world: self.world.clone(), grid: self.grid, receiver: Some(rx) },
        )
    }
}

struct Tx<T> {
    world: World,
    sender: SubSender<T>,
}

impl<T> Clone for Tx<T> {
    fn clone(&self) -> Tx<T> {
        Tx { world: self.world.clone(), sender: self.sender.clone() }
    }
}

impl<T: Wire> Tx<T> {
    fn send(&self, message: T) -> Result<(), MultiplexError> {
        SubChannelSender::prepare(&mut self.world.0.borrow_mut().sending);
        // A message is encoded once to find its size and once more to send it.
        message.put(&mut vec![], &self.world);
        let mut data = vec![];
        message.put(&mut data, &self.world);
        let mut state = self.world.0.borrow_mut();
        let state = &mut *state;
        let outgoing = self.sender.sub_channel_sender.send(
            data,
            &mut state.sending,
            &mut state.sources,
        );
        state.deliver(outgoing);
        Ok(())
    }
}

struct Rx<T> {
    world: World,
    grid: u64,
    receiver: Option<SubReceiver<T>>,
}

impl<T> Drop for Rx<T> {
    fn drop(&mut self) {
        if let Some(receiver) = self.receiver.take() {
            receiver.sub_channel_receiver.close(&mut self.world.0.borrow_mut().mailboxes);
        }
    }
}

impl<T: Wire> Rx<T> {
    fn recv(&self) -> Result<T, MultiplexError> {
        let receiver = &self.receiver.as_ref().unwrap().sub_channel_receiver;
        let mut step = RecvStep::TryLocal;
        loop {
            let outcome = match step {
                RecvStep::TryLocal => RecvOutcome::Local(
                    receiver.local(&mut self.world.0.borrow_mut().mailboxes),
                ),
                RecvStep::Receive => RecvOutcome::Received(
                    self.world.0.borrow_mut().receive(self.grid, receiver.multi_receiver),
                ),
                RecvStep::Return(Ok(payload)) => {
                    let message = T::get(&mut VecDeque::from(payload), &self.world, self.grid);
                    SubChannelReceiver::decoded(&mut self.world.0.borrow_mut().receiving);
                    return message;
                }
                RecvStep::Return(Err(e)) => return Err(e),
            };
            step = SubChannelReceiver::recv(outcome);
        }
    }
}

/// A value that can be sent.
trait Wire: Sized {
    fn put(&self, out: &mut Vec<u8>, world: &World);
    fn get(input: &mut VecDeque<u8>, world: &World, grid: u64) -> Result<Self, MultiplexError>;
}

impl Wire for i32 {
    fn put(&self, out: &mut Vec<u8>, _world: &World) {
        out.extend_from_slice(&self.to_le_bytes());
    }

    fn get(input: &mut VecDeque<u8>, _world: &World, _grid: u64) -> Result<i32, MultiplexError> {
        let mut value: u32 = 0;
        for i in 0..4 {
            value |= (input.pop_front().unwrap() as u32) << (8 * i);
        }
        Ok(value as i32)
    }
}

impl Wire for u8 {
    fn put(&self, out: &mut Vec<u8>, _world: &World) {
        out.push(*self);
    }

    fn get(input: &mut VecDeque<u8>, _world: &World, _grid: u64) -> Result<u8, MultiplexError> {
        Ok(input.pop_front().unwrap())
    }
}

impl Wire for String {
    fn put(&self, out: &mut Vec<u8>, world: &World) {
        (self.len() as i32).put(out, world);
        out.extend_from_slice(self.as_bytes());
    }

    fn get(input: &mut VecDeque<u8>, world: &World, grid: u64) -> Result<String, MultiplexError> {
        let len = i32::get(input, world, grid)? as usize;
        let bytes = input.drain(..len).collect();
        Ok(String::from_utf8(bytes).unwrap())
    }
}

impl<A: Wire, B: Wire> Wire for (A, B) {
    fn put(&self, out: &mut Vec<u8>, world: &World) {
        self.0.put(out, world);
        self.1.put(out, world);
    }

    fn get(input: &mut VecDeque<u8>, world: &World, grid: u64) -> Result<(A, B), MultiplexError> {
        Ok((A::get(input, world, grid)?, B::get(input, world, grid)?))
    }
}

impl<A: Wire, B: Wire, C: Wire> Wire for (A, B, C) {
    fn put(&self, out: &mut Vec<u8>, world: &World) {
        self.0.put(out, world);
        self.1.put(out, world);
        self.2.put(out, world);
    }

    fn get(
        input: &mut VecDeque<u8>,
        world: &World,
        grid: u64,
    ) -> Result<(A, B, C), MultiplexError> {
        Ok((A::get(input, world, grid)?, B::get(input, world, grid)?, C::get(input, world, grid)?))
    }
}

fn put_ids(id: SubChannelId, uuid: String, out: &mut Vec<u8>, world: &World) {
    id.serialize().put(out, world);
    uuid.put(out, world);
}

fn get_ids(
    input: &mut VecDeque<u8>,
    world: &World,
    grid: u64,
) -> Result<(SubChannelId, String), MultiplexError> {
    let id = SubChannelId::deserialize(&String::get(input, world, grid)?).unwrap();
    Ok((id, String::get(input, world, grid)?))
}

impl<T> Wire for Tx<T> {
    fn put(&self, out: &mut Vec<u8>, world: &World) {
        let ids = self.sender.sub_channel_sender.serialize(&mut world.0.borrow_mut().sending);
        put_ids(ids.sub_channel_id(), ids.ipc_sender_uuid, out, world);
    }

    fn get(input: &mut VecDeque<u8>, world: &World, grid: u64) -> Result<Tx<T>, MultiplexError> {
        let (id, uuid) = get_ids(input, world, grid)?;
        let ids = SubChannelSenderIds::new(id, uuid);
        let mut state = world.0.borrow_mut();
        let state = &mut *state;
        let sub_channel_sender =
            SubChannelSender::deserialize(&ids, &mut state.receiving, &mut state.sources)?;
        Ok(Tx {
            world: world.clone(),
            sender: SubSender { sub_channel_sender, phantom: PhantomData },
        })
    }
}

impl<T> Wire for Rx<T> {
    fn put(&self, out: &mut Vec<u8>, world: &World) {
        let mut state = world.0.borrow_mut();
        let state = &mut *state;
        let grid = state.grids.get_mut(&self.grid).unwrap();
        let receiver = &self.receiver.as_ref().unwrap().sub_channel_receiver;
        let ids = receiver.serialize(grid, &mut state.sending);
        put_ids(ids.sub_channel_id, ids.ipc_receiver_uuid, out, world);
    }

    fn get(input: &mut VecDeque<u8>, world: &World, grid: u64) -> Result<Rx<T>, MultiplexError> {
        let (sub_channel_id, ipc_receiver_uuid) = get_ids(input, world, grid)?;
        let mut state = world.0.borrow_mut();
        let state = &mut *state;
        let sub_channel_receiver = SubChannelReceiver::deserialize(
            &SubChannelReceiverIds { sub_channel_id, ipc_receiver_uuid },
            state.grids.get_mut(&grid).unwrap(),
            &mut state.receiving,
            &mut state.mailboxes,
        )?;
        Ok(Rx {
            world: world.clone(),
            grid,
            receiver: Some(SubReceiver { sub_channel_receiver, phantom: PhantomData }),
        })
    }
}

#[test]
fn multiplex_test_multiplex_simple() {
    let world = World::new();
    let person = ("Patrick Walton".to_owned(), 29);
    let channel = world.channel();
    let (tx, rx) = channel.sub_channel();
    tx.send(person.clone()).unwrap();
    let received_person = rx.recv().unwrap();
    assert_eq!(person, received_person);
}

#[test]
fn multiplex_test_multiplex_two_subchannels() {
    let world = World::new();
    let channel = world.channel();
    let (tx1, rx1) = channel.sub_channel();
    tx1.send(1).unwrap();
    assert_eq!(1, rx1.recv().unwrap());

    let (tx2, rx2) = channel.sub_channel();
    tx2.send(2).unwrap();
    assert_eq!(2, rx2.recv().unwrap());
}

#[test]
fn multiplex_test_multiplex_two_subchannels_reverse_ordered() {
    let world = World::new();
    let channel = world.channel();
    let (tx1, rx1) = channel.sub_channel();
    tx1.send(1).unwrap();

    let (tx2, rx2) = channel.sub_channel();
    tx2.send(2).unwrap();

    assert_eq!(2, rx2.recv().unwrap());
    assert_eq!(1, rx1.recv().unwrap());
}

#[test]
fn compare_base_transmission_dropped() {
    let world = World::new();
    let channel = world.channel();
    let (sub_tx, sub_rx) = channel.sub_channel::<i32>();

    let (super_tx, super_rx) = channel.sub_channel();
    super_tx.send(sub_tx).unwrap();
    drop(super_rx);

    match sub_rx.recv().unwrap_err() {
        MultiplexError::MpmcSendError => (),
        e => panic!("expected send error, got {:?}", e),
    }
}

#[test]
fn multiplex_test_embedded_multiplexed_senders() {
    let world = World::new();
    let person = ("Patrick Walton".to_owned(), 29);

    let channel = world.channel();
    let (sub_tx, sub_rx) = channel.sub_channel();

    let person_and_sender = (person.clone(), sub_tx);
    let (super_tx, super_rx) = channel.sub_channel();

    super_tx.send(person_and_sender).unwrap();
    let received_person_and_sender: ((String, i32), Tx<(String, i32)>) =
        super_rx.recv().unwrap();
    assert_eq!(received_person_and_sender.0, person);
    let sub_tx = received_person_and_sender.1;
    sub_tx.send(person.clone()).unwrap();

    let person2 = ("Arthur Dent".to_owned(), 42);
    sub_tx.send(person2.clone()).unwrap();

    let received_person = sub_rx.recv().unwrap();
    assert_eq!(received_person, person);

    let received_person2 = sub_rx.recv().unwrap();
    assert_eq!(received_person2, person2);
}

#[test]
fn multiplex_test_embedded_multiplexed_two_senders() {
    let world = World::new();
    let person = ("Patrick Walton".to_owned(), 29);

    let channel = world.channel();
    let (sub_tx, sub_rx) = channel.sub_channel();
    let (sub_tx2, sub_rx2) = channel.sub_channel();

    let person_and_two_senders = (person.clone(), sub_tx, sub_tx2);
    let (super_tx, super_rx) = channel.sub_channel();

    super_tx.send(person_and_two_senders).unwrap();
    let received_person_and_two_senders: (
        (String, i32),
        Tx<(String, i32)>,
        Tx<(String, i32)>,
    ) = super_rx.recv().unwrap();
    assert_eq!(received_person_and_two_senders.0, person);
    let sub_tx = received_person_and_two_senders.1;
    sub_tx.send(person.clone()).unwrap();

    let person2 = ("Arthur Dent".to_owned(), 42);
    sub_tx.send(person2.clone()).unwrap();

    let received_person = sub_rx.recv().unwrap();
    assert_eq!(received_person, person);

    let received_person2 = sub_rx.recv().unwrap();
    assert_eq!(received_person2, person2);

    let sub_tx2 = received_person_and_two_senders.2;
    sub_tx2.send(person.clone()).unwrap();

    let person2 = ("Arthur Dent".to_owned(), 42);
    sub_tx2.send(person2.clone()).unwrap();

    let received_person = sub_rx2.recv().unwrap();
    assert_eq!(received_person, person);

    let received_person2 = sub_rx2.recv().unwrap();
    assert_eq!(received_person2, person2);
}

#[test]
fn multiplexed_senders_interacting() {
    let world = World::new();
    let channel = world.channel();
    let (super_tx1, super_rx1) = channel.sub_channel();
    let (sub_tx1, sub_rx1) = channel.sub_channel();

    let channel2 = world.channel();
    let (super_tx2, super_rx2) = channel2.sub_channel();
    let (sub_tx2, sub_rx2) = channel2.sub_channel();

    super_tx1.send(sub_tx2).unwrap();
    super_tx2.send(sub_tx1).unwrap();
    let sub_tx2_1 = super_rx1.recv().unwrap();
    let sub_tx1_2 = super_rx2.recv().unwrap();

    sub_tx2_1.send(2).unwrap();
    sub_tx1_2.send(1).unwrap();

    assert_eq!(sub_rx2.recv().unwrap(), 2);
    assert_eq!(sub_rx1.recv().unwrap(), 1);
}

#[test]
fn embedded_multiplexed_receivers() {
    let world = World::new();
    let person = ("Patrick Walton".to_owned(), 29);

    let channel = world.channel();
    let (sub_tx, sub_rx) = channel.sub_channel();

    let person_and_receiver = (person.clone(), sub_rx);

    // Need a separate channel so that it has an IpcReceiver which will not be taken when sub_rx is sent.
    let super_channel = world.channel();
    let (super_tx, super_rx) = super_channel.sub_channel();

    super_tx.send(person_and_receiver).unwrap();
    let received_person_and_receiver = super_rx.recv().unwrap();
    assert_eq!(received_person_and_receiver.0, person);
    sub_tx.send(person.clone()).unwrap();
    let received_person = received_person_and_receiver.1.recv().unwrap();
    assert_eq!(received_person, person);
}

#[test]
fn embedded_multiplexed_receivers_used_before_and_after_transmission() {
    let world = World::new();
    let person = ("Patrick Walton".to_owned(), 29);

    let channel = world.channel();
    let (sub_tx, sub_rx) = channel.sub_channel();

    sub_tx.send(person.clone()).unwrap();
    sub_tx.send(person.clone()).unwrap();
    let received_person1 = sub_rx.recv().unwrap();
    assert_eq!(received_person1, person);

    let person_and_receiver = (person.clone(), sub_rx);

    // Need a separate channel so that it has an IpcReceiver which will not be taken when sub_rx is sent.
    let super_channel = world.channel();
    let (super_tx, super_rx) = super_channel.sub_channel();

    super_tx.send(person_and_receiver).unwrap();
    let received_person_and_receiver = super_rx.recv().unwrap();
    assert_eq!(received_person_and_receiver.0, person);
    let received_person2 = received_person_and_receiver.1.recv().unwrap();
    assert_eq!(received_person2, person);
}

#[test]
fn multiplexing() {
    let world = World::new();
    let channel = world.channel();
    let (sub_sender, sub_receiver) = channel.sub_channel();
    sub_sender.send(45 as u8).unwrap();

    let data: u8 = sub_receiver.recv().unwrap();
    assert_eq!(data, 45);

    let (sub_sender2, sub_receiver2) = channel.sub_channel();
    sub_sender2.send("bananas".to_string()).unwrap();

    let data2: String = sub_receiver2.recv().unwrap();
    assert_eq!(data2, "bananas");
}

#[test]
fn client_connects_to_one_shot_server() {
    let world = World::new();
    let (server, name) = SubOneShotServer::new("server".to_string());

    // The client asks for an id.
    let (forward, ipc_receiver, response) = {
        let mut state = world.0.borrow_mut();
        let (forward, ipc_receiver) = state.new_forward();
        let response = state.new_response();
        let ask = MultiSender::connect_message(&forward, response);
        state.deliver(ask);
        (forward, ipc_receiver, response)
    };

    // The server answers.
    let mut state = world.0.borrow_mut();
    let state = &mut *state;
    let handle = ipc_receiver.handle;
    let (receiver, grid) = OneShotMultiServer::begin_accept(ipc_receiver);
    let first = state.forwards.get_mut(&handle).unwrap().pop_front().unwrap();
    let (to, answer) = grid.answer(receiver, &first).unwrap();
    assert_eq!(to, response);
    assert_eq!(answer, MultiResponse::ClientId(1));
    let mut grid = OneShotMultiServer::accept(
        receiver,
        grid,
        first,
        Ok(()),
        &mut state.receiving,
        &mut state.mailboxes,
    )
    .unwrap();

    // The client announces a subchannel and sends a message over it.
    let multi_sender = MultiSender::connect(forward, Ok(answer), &mut state.sources).unwrap();
    assert_eq!(multi_sender.client_id, 1);
    let (tx, announcement) = SubSender::<u8>::connect(&multi_sender, name);
    state.deliver(announcement);
    let outgoing =
        tx.sub_channel_sender.send(vec![7], &mut state.sending, &mut state.sources);
    state.deliver(outgoing);

    // The server attaches to it.
    let announced = state.forwards.get_mut(&handle).unwrap().pop_front().unwrap();
    let described = format!("{:?}", announced);
    let (scid, given) = Grid::receive_sub_channel(Ok(announced), described).unwrap();
    assert_eq!(scid, tx.sub_channel_sender.sub_channel_id());
    assert_eq!(server.accept(scid, given).unwrap(), scid);
    let rx = grid.attach(receiver, scid, &mut state.mailboxes);
    state.grids.insert(0, grid);
    state.receive(0, receiver).unwrap();
    match SubChannelReceiver::recv(RecvOutcome::Local(rx.local(&mut state.mailboxes))) {
        RecvStep::Return(Ok(payload)) => assert_eq!(payload, vec![7]),
        other => panic!("unexpected step {:?}", other),
    }

    // A subchannel announced under another name is refused.
    match server.accept(scid, "other".to_string()) {
        Err(MultiplexError::InternalError(text)) => {
            assert_eq!(text, "unexpected sub channel name other")
        }
        other => panic!("unexpected outcome {:?}", other),
    }

    // Once the subchannel is disconnected, nothing more is received.
    let outgoing = tx.sub_channel_sender.disconnect();
    state.deliver(outgoing);
    state.receive(0, receiver).unwrap();
    match SubChannelReceiver::recv(RecvOutcome::Local(rx.local(&mut state.mailboxes))) {
        RecvStep::Return(Err(MultiplexError::Disconnected)) => (),
        other => panic!("unexpected step {:?}", other),
    }
}

#[test]
fn connecting_needs_a_client_id() {
    let mut sources = SourceTable::new();
    let sender = Arc::new(ForwardSender { handle: 1 });
    let scid = SubChannelId::new();
    assert!(MultiSender::connect(
        Arc::clone(&sender),
        Ok(MultiResponse::SubChannel(scid)),
        &mut sources,
    )
    .is_err());
    match MultiSender::connect(sender, Err(IpcError::Disconnected), &mut sources) {
        Err(MultiplexError::IpcError(IpcError::Disconnected)) => (),
        _ => panic!("expected the IPC error"),
    }
}
