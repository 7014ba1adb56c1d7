//! The library with channels in memory instead of those of the operating
//! system.

use ipc_channel_mux::mux::channel::{Channel, OneShotMultiServer};
use ipc_channel_mux::mux::demux::{
    Connection, Demuxer, Effect, LostChannels, Probe, ResolvedMessage, SubChannelMailboxes,
};
use ipc_channel_mux::mux::error::{IpcError, MuxError, TryRecvError};
use ipc_channel_mux::mux::ipc_handles::OpaqueIpcReceiver;
use ipc_channel_mux::mux::mailbox::Mailboxes;
use ipc_channel_mux::mux::protocol::{
    Attachments, ClientId, IpcSenderAndOrId, MultiMessage, MultiResponse, ResponseReceiver, ResponseSender, SubChannelId,
    SubChannelSenderIds,
};
use ipc_channel_mux::mux::receiver::{
    DeserializationContext, Local, MultiReceiver, ReceiveEvent, RecvAction, RecvEvent, SubChannelReceiver,
    TryReceiveError,
};
use ipc_channel_mux::mux::sender::{
    MultiSender, Outgoing, ResponseEvent, SerializationContext, SourceTable,
    SubChannelDisconnector, SubChannelSender,
};
use ipc_channel_mux::mux::sender_id::ForwardSender;
use ipc_channel_mux::mux::shared_memory::SharedMemory;
use ipc_channel_mux::mux::subchannel_endpoint::{SubReceiver, SubSender};
use ipc_channel_mux::mux::subchannel_router::receiver_set::{
    select_step, RawMessage, SelectStep, SubReceiverSet, SubSelectionResult,
};
use ipc_channel_mux::mux::subchannel_router::select::{
    MultiReceiverSet, OpaqueSelectableSubReceiver, SelectEvent, SelectableChannel,
    SelectableSubReceiver, Selectables,
};
use ipc_channel_mux::mux::subchannel_router::{
    Router, RouterAction, RouterCommand, RouterError, RouterProxy,
};
use std::cell::RefCell;
use std::collections::{HashMap, VecDeque};
use std::rc::Rc;
use std::sync::Arc;

/// An IPC channel. Its sending end has the handle of the channel.
struct Forward {
    queue: VecDeque<MultiMessage>,
    receiving: bool,
}

/// A response channel. Both of its ends have its handle.
struct Response {
    queue: VecDeque<MultiResponse>,
    sending: bool,
}

struct State {
    next: u64,
    forwards: HashMap<u64, Forward>,
    responses: HashMap<u64, Response>,
    channels: HashMap<u64, Channel>,
    selectable_channels: HashMap<u64, SelectableChannel>,
    connected: HashMap<u64, MultiSender>,
    registered: HashMap<(u64, u64), u64>,
    keepalives_lost: Vec<u64>,
    sources: SourceTable,
    mailboxes: SubChannelMailboxes,
    selectables: Selectables,
    encoding: SerializationContext,
    decoding: DeserializationContext,
}

impl State {
    fn fresh(&mut self) -> u64 {
        self.next += 1;
        self.next
    }

    fn new_forward(&mut self) -> Arc<ForwardSender> {
        let handle = self.fresh();
        self.forwards.insert(
            handle,
            Forward { queue: VecDeque::new(), receiving: true },
        );
        Arc::new(ForwardSender { handle })
    }

    fn new_response(&mut self) -> (ResponseSender, ResponseReceiver) {
        let handle = self.fresh();
        self.responses.insert(handle, Response { queue: VecDeque::new(), sending: true });
        (ResponseSender { handle }, ResponseReceiver { handle })
    }

    fn multi_sender(&mut self, id: u64) -> &mut MultiSender {
        if let Some(channel) = self.channels.get_mut(&id) {
            return &mut channel.multi_sender;
        }
        if let Some(channel) = self.selectable_channels.get_mut(&id) {
            return &mut channel.multi_sender;
        }
        self.connected.get_mut(&id).unwrap()
    }

    /// Reads all there is from the response channel of a sender.
    fn events(&mut self, id: u64) -> Vec<ResponseEvent> {
        let mut events = vec![];
        if let Some(receiver) = self.multi_sender(id).responses() {
            let response = self.responses.get_mut(&receiver.handle).unwrap();
            while let Some(r) = response.queue.pop_front() {
                events.push(ResponseEvent::Response(r));
            }
            events.push(if response.sending {
                ResponseEvent::Empty
            } else {
                ResponseEvent::IpcError
            });
        }
        events
    }

    fn deliver(&mut self, outgoing: Outgoing) -> Result<(), IpcError> {
        let forward = self.forwards.get_mut(&outgoing.to.handle).unwrap();
        if forward.receiving {
            forward.queue.push_back(outgoing.message);
            Ok(())
        } else {
            Err(IpcError::Io("closed".to_string()))
        }
    }

    fn release(&mut self, disconnector: Arc<SubChannelDisconnector>) {
        if let Some(last) = SubChannelDisconnector::release(disconnector) {
            let events = self.events(last.multi_sender);
            let told = last.dropped(self.multi_sender(last.multi_sender), &events);
            if let Some(outgoing) = told {
                let _ = self.deliver(outgoing);
            }
        }
    }

    fn apply(&mut self, effects: Vec<Effect>) {
        for effect in effects {
            match effect {
                Effect::Send(outgoing) => {
                    let _ = self.deliver(outgoing);
                }
                Effect::Release(disconnector) => self.release(disconnector),
            }
        }
    }

    fn connect(&mut self, sender: Arc<ForwardSender>, uuid: u128) -> Result<Connection, MuxError> {
        let (response_sender, response_receiver) = self.new_response();
        let client_id = ClientId::new();
        let message = MultiSender::connect_message(&sender, response_sender, client_id);
        let registered = self.deliver(message);
        let multi_sender = MultiSender::connect_sender(
            sender,
            uuid,
            client_id,
            Ok(response_receiver),
            registered,
            &mut self.sources,
        )?;
        let ipc_sender = multi_sender.clone_ipc_sender();
        let id = self.fresh();
        self.connected.insert(id, multi_sender);
        Ok(Connection { multi_sender: id, ipc_sender, uuid })
    }

    fn connect_all(
        &mut self,
        senders: Vec<(Arc<ForwardSender>, u128)>,
    ) -> VecDeque<Result<Connection, MuxError>> {
        let mut outcomes = VecDeque::new();
        for (sender, uuid) in senders {
            let outcome = self.connect(sender, uuid);
            let failed = outcome.is_err();
            outcomes.push_back(outcome);
            if failed {
                break;
            }
        }
        outcomes
    }

    fn lost(&mut self, probes: Vec<Probe>) -> LostChannels {
        let mut lost = LostChannels { multi_senders: vec![], keepalives: vec![] };
        for probe in probes {
            match probe {
                Probe::MultiSender(id) => {
                    let events = self.events(id);
                    if !self.multi_sender(id).probe(&events) {
                        lost.multi_senders.push(id);
                    }
                }
                Probe::Keepalive(handle) => {
                    if self.keepalives_lost.contains(&handle) {
                        lost.keepalives.push(handle);
                    }
                }
                Probe::Lost => {}
            }
        }
        lost
    }

    /// The next message for a channel, with its senders connected.
    fn next_event(&mut self, channel: u64) -> ReceiveEvent {
        match self.forwards.get_mut(&channel).unwrap().queue.pop_front() {
            Some(message) => {
                let demuxer = self.channels[&channel].multi_receiver.demuxer();
                assert!(demuxer.can_take(&message));
                let senders = demuxer.senders_to_connect(&message);
                let outcomes = self.connect_all(senders);
                ReceiveEvent::Message(message, outcomes)
            }
            None => ReceiveEvent::Empty,
        }
    }

    /// Receives from a channel, and polls if there is nothing to receive.
    fn receive(&mut self, channel: u64) -> (Option<SubChannelId>, Result<(), MuxError>) {
        let event = self.next_event(channel);
        let about = event.about();
        let probes = self.channels[&channel].multi_receiver.demuxer().probes();
        let lost = self.lost(probes);
        let handled = self
            .channels
            .get_mut(&channel)
            .unwrap()
            .multi_receiver
            .checked_try_recv_timeout(event, &lost, &mut self.mailboxes)
            .unwrap();
        self.apply(handled.effects);
        (about, handled.result)
    }

    fn try_receive(&mut self, channel: u64) -> (Option<SubChannelId>, TryReceiveError) {
        let event = self.next_event(channel);
        let about = event.about();
        let (outcome, effects) = self
            .channels
            .get_mut(&channel)
            .unwrap()
            .multi_receiver
            .checked_try_recv(event, &mut self.mailboxes)
            .unwrap();
        self.apply(effects);
        (about, outcome)
    }

    fn close_receiver(&mut self, channel: u64, receiver: SubChannelReceiver) {
        let _ = self.try_receive(channel);
        let responses = self.channels[&channel]
            .multi_receiver
            .demuxer()
            .disconnection_responses(receiver.sub_channel_id);
        for (sender, response) in responses {
            self.responses.get_mut(&sender.handle).unwrap().queue.push_back(response);
        }
        loop {
            let (_, received) = self.try_receive(channel);
            if !MultiReceiver::drain_again(&received) {
                break;
            }
        }
        let effects = receiver.close(&mut self.mailboxes);
        self.apply(effects);
    }
}

/// A process.
#[derive(Clone)]
struct World(Rc<RefCell<State>>);

/// A value that can be sent.
trait Wire: Sized {
    fn put(&self, out: &mut Vec<u8>, world: &World);
    fn get(input: &mut VecDeque<u8>, world: &World) -> Result<Self, MuxError>;
}

impl World {
    fn new() -> World {
        World(Rc::new(RefCell::new(State {
            next: 0,
            forwards: HashMap::new(),
            responses: HashMap::new(),
            channels: HashMap::new(),
            selectable_channels: HashMap::new(),
            connected: HashMap::new(),
            registered: HashMap::new(),
            keepalives_lost: vec![],
            sources: SourceTable::new(),
            mailboxes: Mailboxes::new(),
            selectables: Selectables::new(),
            encoding: SerializationContext::new(),
            decoding: DeserializationContext::new(),
        })))
    }

    fn channel(&self) -> TestChannel {
        let mut state = self.0.borrow_mut();
        let forward = state.new_forward();
        let response = state.new_response();
        let id = forward.handle;
        let channel = Channel::new(id, Ok(forward), Ok(response), &mut state.sources).unwrap();
        state.channels.insert(id, channel);
        TestChannel { world: self.clone(), id }
    }

    fn selectable_channel(&self) -> TestSelectableChannel {
        let mut state = self.0.borrow_mut();
        let state = &mut *state;
        let forward = state.new_forward();
        let response = state.new_response();
        let id = forward.handle;
        let channel = SelectableChannel::new(
            id,
            Ok((forward, id)),
            Ok(response),
            Ok(()),
            &mut state.sources,
            &mut state.selectables,
        )
        .unwrap();
        state.selectable_channels.insert(id, channel);
        TestSelectableChannel { world: self.clone(), id }
    }

    fn receiver_set(&self) -> TestSet {
        let mut state = self.0.borrow_mut();
        let state = &mut *state;
        let set =
            SubReceiverSet::new(Ok(()), &mut state.selectables, &mut state.mailboxes).unwrap();
        TestSet { world: self.clone(), set: Some(set) }
    }

    /// Ends a channel as the end of the process that receives from it does:
    /// what was sent to it is lost and its clients are not told.
    fn crash(&self, id: u64) {
        let mut state = self.0.borrow_mut();
        let mut clients = vec![];
        let forward = state.forwards.get_mut(&id).unwrap();
        forward.receiving = false;
        for message in forward.queue.drain(..) {
            if let MultiMessage::Connect(sender, _) = message {
                clients.push(sender);
            }
        }
        let demuxer = state.channels[&id].multi_receiver.demuxer();
        for (sender, _) in demuxer.disconnection_responses(SubChannelId(0)) {
            clients.push(sender);
        }
        for sender in clients {
            state.responses.get_mut(&sender.handle).unwrap().sending = false;
        }
    }

    fn decode<T: Wire>(&self, message: ResolvedMessage) -> Result<T, MuxError> {
        let payload = {
            let mut state = self.0.borrow_mut();
            let (payload, effects) = message.begin_deserialize(&mut state.decoding);
            state.apply(effects);
            payload
        };
        let result = T::get(&mut VecDeque::from(payload), self);
        let mut state = self.0.borrow_mut();
        let effects = ResolvedMessage::end_deserialize(&mut state.decoding);
        state.apply(effects);
        result
    }
}

struct TestChannel {
    world: World,
    id: u64,
}

impl TestChannel {
    fn sub_channel<T: Wire>(&self) -> (Tx<T>, Rx<T>) {
        let mut state = self.world.0.borrow_mut();
        let state = &mut *state;
        let (sender, receiver) =
            state.channels.get_mut(&self.id).unwrap().sub_channel(&mut state.mailboxes);
        (
            Tx { world: self.world.clone(), sender: Some(sender) },
            Rx { world: self.world.clone(), channel: self.id, receiver: Some(receiver) },
        )
    }
}

struct Tx<T> {
    world: World,
    sender: Option<SubSender<T>>,
}

impl<T> Clone for Tx<T> {
    fn clone(&self) -> Tx<T> {
        Tx { world: self.world.clone(), sender: self.sender.clone() }
    }
}

impl<T> Drop for Tx<T> {
    fn drop(&mut self) {
        if let Some(sender) = self.sender.take() {
            let SubChannelSender { disconnector, .. } = sender.sub_channel_sender;
            self.world.0.borrow_mut().release(disconnector);
        }
    }
}

impl<T: Wire> Tx<T> {
    fn send(&self, message: T) -> Result<(), MuxError> {
        let sender = self.sender.as_ref().unwrap();
        {
            let mut state = self.world.0.borrow_mut();
            let state = &mut *state;
            let id = sender.sub_channel_sender.multi_sender;
            let events = state.events(id);
            let mut encoding = SerializationContext::new();
            std::mem::swap(&mut encoding, &mut state.encoding);
            let ready =
                sender.sub_channel_sender.prepare(state.multi_sender(id), &events, &mut encoding);
            std::mem::swap(&mut encoding, &mut state.encoding);
            ready?;
        }
        let mut payload = vec![];
        message.put(&mut payload, &self.world);
        let mut state = self.world.0.borrow_mut();
        let state = &mut *state;
        let plan = sender.send(payload, &mut state.encoding, &mut state.sources);
        for notification in plan.notifications {
            let _ = state.deliver(notification);
        }
        Ok(state.deliver(plan.data)?)
    }

    fn to_opaque(mut self) -> Tx<Opaque> {
        let sender = self.sender.take().unwrap().to_opaque();
        Tx { world: self.world.clone(), sender: Some(sender.to()) }
    }
}

/// The type of messages whose type is not known.
struct Opaque;

impl Tx<Opaque> {
    fn to<T>(mut self) -> Tx<T> {
        let sender = self.sender.take().unwrap().to_opaque();
        Tx { world: self.world.clone(), sender: Some(sender.to()) }
    }
}

struct Rx<T> {
    world: World,
    channel: u64,
    receiver: Option<SubReceiver<T>>,
}

impl<T> Drop for Rx<T> {
    fn drop(&mut self) {
        if let Some(receiver) = self.receiver.take() {
            self.world
                .0
                .borrow_mut()
                .close_receiver(self.channel, receiver.sub_channel_receiver);
        }
    }
}

impl<T: Wire> Rx<T> {
    fn receiver(&self) -> &SubChannelReceiver {
        &self.receiver.as_ref().unwrap().sub_channel_receiver
    }

    fn recv(&self) -> Result<T, MuxError> {
        let mut action = RecvAction::TryLocal;
        let mut waits = 0;
        loop {
            let event = match action {
                RecvAction::TryLocal => {
                    let mut state = self.world.0.borrow_mut();
                    RecvEvent::Local(self.receiver().local(&mut state.mailboxes))
                }
                RecvAction::TryLock => RecvEvent::Locked,
                RecvAction::Receive(interval) => {
                    assert_eq!(interval, 100_000);
                    waits += 1;
                    assert!(waits < 100, "nothing to receive");
                    let (about, received) = self.world.0.borrow_mut().receive(self.channel);
                    RecvEvent::Received(about, received)
                }
                RecvAction::Return(Ok(message)) => return self.world.decode(message),
                RecvAction::Return(Err(e)) => return Err(e),
                other => panic!("unexpected action {:?}", other),
            };
            action = self.receiver().recv(event);
        }
    }

    fn try_recv(&self) -> Result<T, TryRecvError> {
        let mut receive = self.receiver().try_recv();
        let mut action = RecvAction::TryLocal;
        loop {
            let event = match action {
                RecvAction::TryLocal => {
                    let mut state = self.world.0.borrow_mut();
                    RecvEvent::Local(self.receiver().local(&mut state.mailboxes))
                }
                RecvAction::TryReceive => {
                    let (about, received) = self.world.0.borrow_mut().try_receive(self.channel);
                    RecvEvent::TryReceived(about, received)
                }
                RecvAction::Return(Ok(message)) => return Ok(self.world.decode(message)?),
                RecvAction::Return(Err(e)) => return Err(e),
                other => panic!("unexpected action {:?}", other),
            };
            action = receive.next(event);
        }
    }

    fn to_opaque(mut self) -> Rx<Opaque> {
        let receiver = self.receiver.take().unwrap().to_opaque();
        Rx { world: self.world.clone(), channel: self.channel, receiver: Some(receiver.to()) }
    }
}

impl Rx<Opaque> {
    fn to<T>(mut self) -> Rx<T> {
        let receiver = self.receiver.take().unwrap().to_opaque();
        Rx { world: self.world.clone(), channel: self.channel, receiver: Some(receiver.to()) }
    }
}

impl Wire for u64 {
    fn put(&self, out: &mut Vec<u8>, _world: &World) {
        out.extend_from_slice(&self.to_le_bytes());
    }

    fn get(input: &mut VecDeque<u8>, _world: &World) -> Result<u64, MuxError> {
        let mut value = 0;
        for i in 0..8 {
            value |= (input.pop_front().unwrap() as u64) << (8 * i);
        }
        Ok(value)
    }
}

impl Wire for i32 {
    fn put(&self, out: &mut Vec<u8>, world: &World) {
        (*self as u32 as u64).put(out, world);
    }

    fn get(input: &mut VecDeque<u8>, world: &World) -> Result<i32, MuxError> {
        Ok(u64::get(input, world)? as u32 as i32)
    }
}

impl Wire for u8 {
    fn put(&self, out: &mut Vec<u8>, _world: &World) {
        out.push(*self);
    }

    fn get(input: &mut VecDeque<u8>, _world: &World) -> Result<u8, MuxError> {
        Ok(input.pop_front().unwrap())
    }
}

impl Wire for usize {
    fn put(&self, out: &mut Vec<u8>, world: &World) {
        (*self as u64).put(out, world);
    }

    fn get(input: &mut VecDeque<u8>, world: &World) -> Result<usize, MuxError> {
        Ok(u64::get(input, world)? as usize)
    }
}

impl Wire for () {
    fn put(&self, _out: &mut Vec<u8>, _world: &World) {}

    fn get(_input: &mut VecDeque<u8>, _world: &World) -> Result<(), MuxError> {
        Ok(())
    }
}

impl Wire for String {
    fn put(&self, out: &mut Vec<u8>, world: &World) {
        self.len().put(out, world);
        out.extend_from_slice(self.as_bytes());
    }

    fn get(input: &mut VecDeque<u8>, world: &World) -> Result<String, MuxError> {
        let len = usize::get(input, world)?;
        let bytes = input.drain(..len).collect();
        Ok(String::from_utf8(bytes).unwrap())
    }
}

impl<A: Wire, B: Wire> Wire for (A, B) {
    fn put(&self, out: &mut Vec<u8>, world: &World) {
        self.0.put(out, world);
        self.1.put(out, world);
    }

    fn get(input: &mut VecDeque<u8>, world: &World) -> Result<(A, B), MuxError> {
        Ok((A::get(input, world)?, B::get(input, world)?))
    }
}

impl<A: Wire, B: Wire, C: Wire> Wire for (A, B, C) {
    fn put(&self, out: &mut Vec<u8>, world: &World) {
        self.0.put(out, world);
        self.1.put(out, world);
        self.2.put(out, world);
    }

    fn get(input: &mut VecDeque<u8>, world: &World) -> Result<(A, B, C), MuxError> {
        Ok((A::get(input, world)?, B::get(input, world)?, C::get(input, world)?))
    }
}

impl<T> Wire for Tx<T> {
    fn put(&self, out: &mut Vec<u8>, world: &World) {
        let mut state = world.0.borrow_mut();
        let sender = &self.sender.as_ref().unwrap().sub_channel_sender;
        let ids = sender.serialize(&mut state.encoding);
        drop(state);
        ids.sub_channel_id().serialize().put(out, world);
        ids.ipc_sender_uuid.put(out, world);
    }

    fn get(input: &mut VecDeque<u8>, world: &World) -> Result<Tx<T>, MuxError> {
        let scid = SubChannelId::deserialize(&String::get(input, world)?).unwrap();
        let ids = SubChannelSenderIds::new(scid, String::get(input, world)?);
        let mut state = world.0.borrow_mut();
        let state = &mut *state;
        let (notification, received) =
            SubChannelSender::deserialize(&ids, &mut state.decoding)?;
        let sent = state.deliver(notification);
        match received.notified(sent, &mut state.sources) {
            Ok(sender) => Ok(Tx {
                world: world.clone(),
                sender: Some(SubSender::from_sender(sender)),
            }),
            Err((e, disconnector)) => {
                state.release(disconnector);
                Err(e)
            }
        }
    }
}

impl Wire for SharedMemory {
    fn put(&self, out: &mut Vec<u8>, world: &World) {
        let index = self.serialize(&mut world.0.borrow_mut().encoding.regions);
        index.put(out, world);
    }

    fn get(input: &mut VecDeque<u8>, world: &World) -> Result<SharedMemory, MuxError> {
        let index = usize::get(input, world)?;
        SharedMemory::deserialize(index, &mut world.0.borrow_mut().decoding.regions)
            .map_err(MuxError::InternalError)
    }
}

struct TestSelectableChannel {
    world: World,
    id: u64,
}

impl TestSelectableChannel {
    fn sub_channel<T: Wire>(&self) -> (Tx<T>, SelectableSubReceiver<T>) {
        let mut state = self.world.0.borrow_mut();
        let state = &mut *state;
        let (sender, receiver) = state
            .selectable_channels
            .get_mut(&self.id)
            .unwrap()
            .sub_channel(&mut state.selectables, &mut state.mailboxes);
        (Tx { world: self.world.clone(), sender: Some(sender) }, receiver)
    }
}

struct TestSet {
    world: World,
    set: Option<SubReceiverSet>,
}

impl TestSet {
    fn add<T>(&mut self, rx: SelectableSubReceiver<T>) -> Result<u64, MuxError> {
        self.add_opaque(rx.to_opaque())
    }

    fn add_opaque(&mut self, rx: OpaqueSelectableSubReceiver) -> Result<u64, MuxError> {
        let mut state = self.world.0.borrow_mut();
        let state = &mut *state;
        let set = self.set.as_mut().unwrap();
        let incoming = rx.multi_receiver_set(&state.selectables).unwrap();
        let registered = match state.selectables.registration(set.multi_receiver_set(), incoming) {
            Some((into, pending)) => {
                let id = state.fresh();
                state.registered.insert((into, id), pending.ipc_receiver);
                Some(Ok(id))
            }
            None => None,
        };
        assert!(!set.is_full());
        assert!(state.mailboxes.can_add_sender(set.mailbox()));
        set.add_opaque(rx, registered, &mut state.selectables, &mut state.mailboxes)
    }

    /// Waits for the channels of the set.
    fn wait(&mut self) -> Option<Result<(), MuxError>> {
        let mut state = self.world.0.borrow_mut();
        let state = &mut *state;
        let set = self.set.as_ref().unwrap().multi_receiver_set();
        let ids = state.selectables.set(set).unwrap().registrations();
        for id in &ids {
            let forward = state.registered[&(set, *id)];
            if let Some(message) = state.forwards.get_mut(&forward).unwrap().queue.pop_front() {
                let receiver = state.selectables.set(set).unwrap().receiver_for(*id).unwrap();
                let demuxer = state.selectables.receiver(receiver).unwrap().demuxer();
                assert!(demuxer.can_take(&message));
                let senders = demuxer.senders_to_connect(&message);
                let outcomes = state.connect_all(senders);
                let handled = state
                    .selectables
                    .checked_message_received(set, *id, message, outcomes, &mut state.mailboxes)
                    .unwrap();
                state.apply(handled.effects);
                return MultiReceiverSet::select(SelectEvent::Handled(handled.result));
            }
        }
        let mut probes = vec![];
        for id in &ids {
            let receiver = state.selectables.set(set).unwrap().receiver_for(*id).unwrap();
            probes.extend(state.selectables.receiver(receiver).unwrap().demuxer().probes());
        }
        let lost = state.lost(probes);
        let failed = state.selectables.poll_set(set, &lost, &mut state.mailboxes);
        MultiReceiverSet::select(SelectEvent::Empty(failed))
    }

    fn collect(&mut self) -> Result<Vec<SubSelectionResult>, MuxError> {
        let mut state = self.world.0.borrow_mut();
        let selection = self.set.as_mut().unwrap().select(&mut state.mailboxes);
        state.apply(selection.effects);
        selection.result
    }

    fn select(&mut self) -> Result<Vec<SubSelectionResult>, MuxError> {
        for _ in 0..100 {
            match select_step(self.collect()) {
                SelectStep::Return(results) => return results,
                SelectStep::Wait => {}
            }
            if let Some(ended) = self.wait() {
                ended?;
            }
        }
        panic!("nothing to select");
    }

    /// Handles all that has arrived.
    fn pump(&mut self) -> Vec<SubSelectionResult> {
        let mut results = self.collect().unwrap();
        while let Some(ended) = self.wait() {
            ended.unwrap();
            results.extend(self.collect().unwrap());
        }
        results
    }
}

impl Drop for TestSet {
    fn drop(&mut self) {
        let set = self.set.take().unwrap();
        let mut state = self.world.0.borrow_mut();
        let state = &mut *state;
        let id = set.multi_receiver_set();
        let mut closed = vec![];
        for registration in state.selectables.set(id).unwrap().registrations() {
            let receiver = state.selectables.set(id).unwrap().receiver_for(registration).unwrap();
            let demuxer = state.selectables.receiver(receiver).unwrap().demuxer();
            closed.extend(demuxer.disconnection_responses(SubChannelId(0)));
        }
        let effects = set.close(&mut state.selectables, &mut state.mailboxes);
        for (sender, _) in closed {
            state.responses.get_mut(&sender.handle).unwrap().sending = false;
        }
        state.apply(effects);
    }
}

type Handler = Box<dyn FnMut(RawMessage)>;

struct Command {
    command: RouterCommand,
    route: Option<(OpaqueSelectableSubReceiver, Handler)>,
}

/// A router that runs when it is told to.
struct TestRouter {
    world: World,
    proxy: RouterProxy,
    wakeup: Tx<()>,
    commands: VecDeque<Command>,
    running: Option<(Router<Handler>, TestSet)>,
}

impl TestRouter {
    fn new(world: &World) -> TestRouter {
        let (wakeup, receiver) = world.selectable_channel().sub_channel();
        let mut set = world.receiver_set();
        let id = set.add(receiver).unwrap();
        TestRouter {
            world: world.clone(),
            proxy: RouterProxy::new(),
            wakeup,
            commands: VecDeque::new(),
            running: Some((Router::new(id), set)),
        }
    }

    fn add_typed_route<T: Wire + 'static>(
        &mut self,
        channel: &TestSelectableChannel,
        mut callback: Box<dyn FnMut(Result<T, MuxError>)>,
    ) -> Result<Tx<T>, RouterError> {
        let (tx, rx) = channel.sub_channel::<T>();
        self.proxy.add_route()?;
        let world = self.world.clone();
        let handler: Handler =
            Box::new(move |raw: RawMessage| callback(world.decode(raw.message)));
        self.commands.push_back(Command {
            command: RouterCommand::AddRoute,
            route: Some((rx.to_opaque(), handler)),
        });
        self.wakeup.send(()).unwrap();
        self.run();
        Ok(tx)
    }

    /// Handles all that has arrived.
    fn run(&mut self) {
        let Some((mut router, mut set)) = self.running.take() else {
            return;
        };
        loop {
            let events = set.pump();
            if events.is_empty() {
                break;
            }
            for event in events {
                assert!(router.expects(&event));
                match router.run(event) {
                    RouterAction::ReadCommand(_) => {
                        let command = self.commands.pop_front().unwrap();
                        if Router::<Handler>::stops_on(command.command) {
                            return;
                        }
                        let (receiver, handler) = command.route.unwrap();
                        let id = set.add_opaque(receiver).unwrap();
                        router.add_route(id, handler);
                    }
                    RouterAction::Handle(id, message) => {
                        let mut handler = router.take_handler(id).unwrap();
                        handler(message);
                        router.add_route(id, handler);
                    }
                    RouterAction::Forget(handler) => drop(handler),
                }
            }
        }
        self.running = Some((router, set));
    }

    fn shutdown(&mut self) {
        if self.proxy.shutdown() {
            self.commands.push_back(Command { command: RouterCommand::Shutdown, route: None });
            self.wakeup.send(()).unwrap();
            self.run();
        }
    }
}

#[test]
fn mux_test_multiplex_simple() {
    let world = World::new();
    let person = ("Patrick Walton".to_owned(), 29);
    let channel = world.channel();
    let (tx, rx) = channel.sub_channel();
    tx.send(person.clone()).unwrap();
    let received_person = rx.recv().unwrap();
    assert_eq!(person, received_person);

    drop(tx);
    match rx.recv().unwrap_err() {
        MuxError::Disconnected => (),
        e => panic!("expected disconnected error, got {:?}", e),
    }
}

#[test]
fn mux_test_multiplex_two_subchannels() {
    let world = World::new();
    let channel = world.channel();
    let (tx1, rx1) = channel.sub_channel();
    tx1.send(1).unwrap();
    assert_eq!(1, rx1.recv().unwrap());

    let (tx2, rx2) = channel.sub_channel();
    tx2.send(2).unwrap();
    assert_eq!(2, rx2.recv().unwrap());
}

#[test]
fn mux_test_multiplex_two_subchannels_reverse_ordered() {
    let world = World::new();
    let channel = world.channel();
    let (tx1, rx1) = channel.sub_channel();
    tx1.send(1).unwrap();

    let (tx2, rx2) = channel.sub_channel();
    tx2.send(2).unwrap();

    assert_eq!(2, rx2.recv().unwrap());
    assert_eq!(1, rx1.recv().unwrap());
}

#[test]
fn mux_test_embedded_multiplexed_senders() {
    let world = World::new();
    let person = ("Patrick Walton".to_owned(), 29);

    let channel = world.channel();
    let (sub_tx, sub_rx) = channel.sub_channel();

    let person_and_sender = (person.clone(), sub_tx);
    let (super_tx, super_rx) = channel.sub_channel();

    super_tx.send(person_and_sender).unwrap();
    let received_person_and_sender: ((String, i32), Tx<(String, i32)>) =
        super_rx.recv().unwrap();
    assert_eq!(received_person_and_sender.0, person);
    let sub_tx = received_person_and_sender.1;
    sub_tx.send(person.clone()).unwrap();

    let person2 = ("Arthur Dent".to_owned(), 42);
    sub_tx.send(person2.clone()).unwrap();

    let received_person = sub_rx.recv().unwrap();
    assert_eq!(received_person, person);

    let received_person2 = sub_rx.recv().unwrap();
    assert_eq!(received_person2, person2);
}

#[test]
fn embedded_multiplexed_sender_lifecycle() {
    let world = World::new();
    let channel = world.channel();
    let (sub_tx, sub_rx) = channel.sub_channel();

    let super_channel = world.channel();
    let (super_tx, super_rx) = super_channel.sub_channel();

    super_tx.send(sub_tx.clone()).unwrap();
    let received_sub_tx: Tx<i32> = super_rx.recv().unwrap();

    received_sub_tx.send(1).unwrap();
    assert_eq!(sub_rx.recv().unwrap(), 1);

    drop(received_sub_tx);

    // Send the subsender again to see if the association still exists on the receiving side.
    super_tx.send(sub_tx).unwrap();
    let received_sub_tx: Tx<i32> = super_rx.recv().unwrap();

    received_sub_tx.send(2).unwrap();
    assert_eq!(sub_rx.recv().unwrap(), 2);
}

#[test]
fn mux_test_embedded_multiplexed_two_senders() {
    let world = World::new();
    let person = ("Patrick Walton".to_owned(), 29);

    let channel = world.channel();
    let (sub_tx, sub_rx) = channel.sub_channel();
    let (sub_tx2, sub_rx2) = channel.sub_channel();

    let person_and_two_senders = (person.clone(), sub_tx, sub_tx2);
    let (super_tx, super_rx) = channel.sub_channel();

    super_tx.send(person_and_two_senders).unwrap();
    let received_person_and_two_senders: (
        (String, i32),
        Tx<(String, i32)>,
        Tx<(String, i32)>,
    ) = super_rx.recv().unwrap();
    assert_eq!(received_person_and_two_senders.0, person);
    let sub_tx = received_person_and_two_senders.1;
    sub_tx.send(person.clone()).unwrap();

    let person2 = ("Arthur Dent".to_owned(), 42);
    sub_tx.send(person2.clone()).unwrap();

    let received_person = sub_rx.recv().unwrap();
    assert_eq!(received_person, person);

    let received_person2 = sub_rx.recv().unwrap();
    assert_eq!(received_person2, person2);

    let sub_tx2 = received_person_and_two_senders.2;
    sub_tx2.send(person.clone()).unwrap();

    let person2 = ("Arthur Dent".to_owned(), 42);
    sub_tx2.send(person2.clone()).unwrap();

    let received_person = sub_rx2.recv().unwrap();
    assert_eq!(received_person, person);

    let received_person2 = sub_rx2.recv().unwrap();
    assert_eq!(received_person2, person2);
}

#[test]
fn embedded_multiplexed_senders_interacting() {
    let world = World::new();
    let channel = world.channel();
    let (super_tx1, super_rx1) = channel.sub_channel();
    let (sub_tx1, sub_rx1) = channel.sub_channel();

    let channel2 = world.channel();
    let (super_tx2, super_rx2) = channel2.sub_channel();
    let (sub_tx2, sub_rx2) = channel2.sub_channel();

    super_tx1.send(sub_tx2).unwrap();
    super_tx2.send(sub_tx1).unwrap();
    let sub_tx2_1 = super_rx1.recv().unwrap();
    let sub_tx1_2 = super_rx2.recv().unwrap();

    sub_tx2_1.send(2).unwrap();
    sub_tx1_2.send(1).unwrap();

    assert_eq!(sub_rx2.recv().unwrap(), 2);
    assert_eq!(sub_rx1.recv().unwrap(), 1);
}

#[test]
fn embedded_multiplexed_senders_with_middleman() {
    let world = World::new();
    let channel = world.channel();
    let (super_tx, super_rx) = channel.sub_channel();
    let (sub_tx, sub_rx) = channel.sub_channel::<i32>();

    let middleman = world.channel();
    let (middleman_super_tx, middleman_super_rx) = middleman.sub_channel();
    let (middleman_sub_tx, middleman_sub_rx) = middleman.sub_channel();

    // Send super and sub subsenders to the middleman
    middleman_super_tx.send(super_tx).unwrap();
    let super_tx_at_middleman = middleman_super_rx.recv().unwrap();
    middleman_sub_tx.send(sub_tx).unwrap();
    let sub_tx_at_middleman = middleman_sub_rx.recv().unwrap();

    // Now send the sub subsender from the middleman
    super_tx_at_middleman.send(sub_tx_at_middleman).unwrap();

    // Cause transmission of the sub subsender to fail.
    drop(super_rx);

    // Check the subreceiver knows about the failure
    assert!(sub_rx.recv().is_err());
}

#[test]
fn creating_many_subchannels() {
    let world = World::new();
    let channel = world.channel();
    let mut subchannels = vec![];
    for _ in 0..10000 {
        let subchannel = channel.sub_channel::<i32>();
        subchannels.push(subchannel);
    }
}

#[test]
fn sender_transmission_dropped_in_flight() {
    let world = World::new();
    let channel = world.channel();
    let (sub_tx, sub_rx) = channel.sub_channel::<i32>();

    let (super_tx, super_rx) = channel.sub_channel();
    super_tx.send(sub_tx).unwrap();

    drop(super_rx);

    match sub_rx.recv().unwrap_err() {
        MuxError::Disconnected => (),
        e => panic!("expected disconnected error, got {:?}", e),
    }
}

#[test]
fn multiplex_drop_only_subsender_for_dropped_channel() {
    let world = World::new();
    let channel = world.channel();
    let (tx, rx) = channel.sub_channel::<i32>();
    drop(channel);

    drop(tx);
    match rx.recv().unwrap_err() {
        MuxError::Disconnected => (),
        e => panic!("expected send error, got {:?}", e),
    }
}

#[test]
fn multiplex_drop_only_subsender_for_channel() {
    let world = World::new();
    let channel = world.channel();
    let (tx, rx) = channel.sub_channel::<i32>();

    drop(tx);
    match rx.recv().unwrap_err() {
        MuxError::Disconnected => (),
        e => panic!("expected disconnected error, got {:?}", e),
    }
}

#[test]
fn multiplex_drop_only_subsender_for_subchannel_of_dropped_channel() {
    let world = World::new();
    let channel = world.channel();
    let (tx1, rx1) = channel.sub_channel::<i32>();
    let (tx2, rx2) = channel.sub_channel::<i32>();

    drop(tx1);
    match rx1.recv().unwrap_err() {
        MuxError::Disconnected => (),
        e => panic!("expected disconnected error, got {:?}", e),
    }

    // check other subchannel is still working
    tx2.send(1).unwrap();
    assert_eq!(rx2.recv().unwrap(), 1);
}

#[test]
fn multiplex_drop_cloned_subsender() {
    let world = World::new();
    let channel = world.channel();
    let (tx, rx) = channel.sub_channel::<i32>();

    drop(tx.clone());

    tx.send(1).unwrap();
    assert_eq!(rx.recv().unwrap(), 1);
}

#[test]
fn multiplex_drop_only_subsender_for_subchannel() {
    let world = World::new();
    let channel = world.channel();
    let (tx1, rx1) = channel.sub_channel::<i32>();
    let (tx2, rx2) = channel.sub_channel::<i32>();

    drop(tx1);
    match rx1.recv().unwrap_err() {
        MuxError::Disconnected => (),
        e => panic!("expected disconnected error, got {:?}", e),
    }

    // check other subchannel is still working
    tx2.send(1).unwrap();
    assert_eq!(rx2.recv().unwrap(), 1);
}

#[test]
fn drop_transmitted_subsender() {
    let world = World::new();
    let channel = world.channel();
    let (sub_tx, sub_rx) = channel.sub_channel::<i32>();
    let (super_tx, super_rx) = channel.sub_channel();
    super_tx.send(sub_tx).unwrap();
    let received_sub_tx = super_rx.recv().unwrap();
    drop(received_sub_tx);

    match sub_rx.recv().unwrap_err() {
        MuxError::Disconnected => (),
        e => panic!("expected Disconnected, got {:?}", e),
    }
}

#[test]
fn drop_transmitted_subsender_send_using_clone_of_original() {
    let world = World::new();
    let channel = world.channel();
    let (sub_tx, sub_rx) = channel.sub_channel::<i32>();
    let (super_tx, super_rx) = channel.sub_channel();
    let sub_tx_clone = sub_tx.clone();
    super_tx.send(sub_tx).unwrap();
    let received_sub_tx = super_rx.recv().unwrap();
    drop(received_sub_tx);

    sub_tx_clone.send(1).unwrap();
    assert_eq!(sub_rx.recv().unwrap(), 1);
}

#[test]
fn drop_transmitted_subsender_send_using_another_transmitted_subsender() {
    let world = World::new();
    let channel = world.channel();
    let (sub_tx, sub_rx) = channel.sub_channel::<i32>();
    let (super_tx1, super_rx1) = channel.sub_channel();
    super_tx1.send(sub_tx.clone()).unwrap();
    let received_sub_tx1 = super_rx1.recv().unwrap();

    let (super_tx2, super_rx2) = channel.sub_channel();
    super_tx2.send(sub_tx).unwrap();
    let received_sub_tx2 = super_rx2.recv().unwrap();

    drop(received_sub_tx1);

    received_sub_tx2.send(1).unwrap();
    assert_eq!(sub_rx.recv().unwrap(), 1);
}

#[test]
fn drop_transmitted_subsender_send_using_another_subsender_transmitted_over_another_ipc_channel() {
    let world = World::new();
    let channel = world.channel();
    let (sub_tx, sub_rx) = channel.sub_channel::<i32>();
    let (super_tx1, super_rx1) = channel.sub_channel();
    super_tx1.send(sub_tx.clone()).unwrap();
    let received_sub_tx1 = super_rx1.recv().unwrap();

    let channel2 = world.channel();
    let (super_tx2, super_rx2) = channel2.sub_channel();
    super_tx2.send(sub_tx).unwrap();
    let received_sub_tx2 = super_rx2.recv().unwrap();

    drop(received_sub_tx1);

    received_sub_tx2.send(1).unwrap();
    assert_eq!(sub_rx.recv().unwrap(), 1);
}

#[test]
fn multiplex_drop_only_subreceiver_for_dropped_channel() {
    let world = World::new();
    let channel = world.channel();
    let (tx, rx) = channel.sub_channel::<i32>();
    drop(channel);

    drop(rx);
    assert!(tx.send(1).is_err());
}

#[test]
fn multiplex_drop_only_subreceiver_for_channel() {
    let world = World::new();
    let channel = world.channel();
    let (tx, rx) = channel.sub_channel::<i32>();

    drop(rx);
    assert!(tx.send(1).is_err());
    assert!(tx.send(1).is_err()); // ensure second send does not block
}

#[test]
fn multiplex_drop_only_subreceiver_for_subchannel_of_dropped_channel() {
    let world = World::new();
    let channel = world.channel();
    let (tx1, rx1) = channel.sub_channel::<i32>();
    drop(channel);

    drop(rx1);
    assert!(tx1.send(1).is_err());
    assert!(tx1.send(1).is_err()); // ensure second send does not block
}

#[test]
fn compare_base_transmission_failure() {
    let world = World::new();
    let channel1 = world.channel();
    let (tx, rx) = channel1.sub_channel::<i32>();

    let channel2 = world.channel();
    let (via_tx, via_rx) = channel2.sub_channel();

    via_tx.send(tx).unwrap();

    drop(via_rx);
    match rx.recv().unwrap_err() {
        MuxError::Disconnected => (),
        e => panic!("expected Disconnected, got {:?}", e),
    }
}

#[test]
fn opaque_sender() {
    let world = World::new();
    let channel = world.channel();
    let (tx, rx) = channel.sub_channel::<i32>();

    let opaque_tx = tx.to_opaque();
    let tx: Tx<i32> = opaque_tx.to();

    tx.send(1).unwrap();
    assert_eq!(rx.recv().unwrap(), 1);
}

#[test]
fn embedded_opaque_sender() {
    let world = World::new();
    let channel = world.channel();
    let (tx, rx) = channel.sub_channel::<i32>();

    let (via_tx, via_rx) = channel.sub_channel();
    via_tx.send(tx.to_opaque()).unwrap();
    let received_sender = via_rx.recv().unwrap();

    received_sender.to::<i32>().send(1).unwrap();
    assert_eq!(rx.recv().unwrap(), 1);
}

#[test]
fn opaque_receiver() {
    let world = World::new();
    let channel = world.channel();
    let (tx, rx) = channel.sub_channel::<i32>();

    let opaque_rx = rx.to_opaque();
    let rx: Rx<i32> = opaque_rx.to();

    tx.send(1).unwrap();
    assert_eq!(rx.recv().unwrap(), 1);
}

#[test]
fn shmem_simple() {
    let world = World::new();
    let channel = world.channel();
    let (tx, rx) = channel.sub_channel();
    let data = SharedMemory::from_bytes(b"hello world");
    tx.send(data.clone()).unwrap();
    let received: SharedMemory = rx.recv().unwrap();
    assert_eq!(&*received, b"hello world");
    assert_eq!(data, received);
}

#[test]
fn shmem_from_byte() {
    let world = World::new();
    let channel = world.channel();
    let (tx, rx) = channel.sub_channel();
    let data = SharedMemory::from_byte(0xAB, 1024);
    tx.send(data).unwrap();
    let received: SharedMemory = rx.recv().unwrap();
    assert_eq!(received.len(), 1024);
    assert!(received.iter().all(|&b| b == 0xAB));
}

#[test]
fn shmem_empty() {
    let world = World::new();
    let channel = world.channel();
    let (tx, rx) = channel.sub_channel();
    let data = SharedMemory::from_bytes(&[]);
    tx.send(data).unwrap();
    let received: SharedMemory = rx.recv().unwrap();
    assert!(received.is_empty());
}

#[test]
fn shmem_large() {
    let world = World::new();
    let channel = world.channel();
    let (tx, rx) = channel.sub_channel();
    let size = 4 * 1024 * 1024; // 4MB
    let data = SharedMemory::from_byte(0x42, size);
    tx.send(data).unwrap();
    let received: SharedMemory = rx.recv().unwrap();
    assert_eq!(received.len(), size);
    assert!(received.iter().all(|&b| b == 0x42));
}

#[test]
fn receiver_set_homogeneous() {
    let world = World::new();
    let channel = world.selectable_channel();
    let (tx1, rx1) = channel.sub_channel::<i32>();

    let mut rx_set = world.receiver_set();
    let rx1_id = rx_set.add(rx1).unwrap();

    let (tx2, rx2) = channel.sub_channel::<String>();
    let rx2_id = rx_set.add(rx2).unwrap();

    tx1.send(1).unwrap();
    tx2.send("test".to_string()).unwrap();

    let mut recvd1 = false;
    let mut recvd2 = false;
    while !recvd1 || !recvd2 {
        for event in rx_set.select().unwrap() {
            if let SubSelectionResult::MessageReceived(received_id, received_data) = event {
                match received_id {
                    id if id == rx1_id => {
                        assert!(!recvd1, "i32 received twice");
                        let received_value: i32 = world.decode(received_data.message).unwrap();
                        assert_eq!(received_value, 1);
                        recvd1 = true;
                    }
                    id if id == rx2_id => {
                        assert!(!recvd2, "String received twice");
                        let received_value: String = world.decode(received_data.message).unwrap();
                        assert_eq!(received_value, "test".to_string());
                        recvd2 = true;
                    }
                    _ => panic!("unexpected id"),
                }
            } else {
                panic!("Unexpected SubSelectionResult");
            }
        }
    }
}

#[test]
fn receiver_set_heterogeneous() {
    let world = World::new();
    let channel1 = world.selectable_channel();
    let (tx1, rx1) = channel1.sub_channel::<i32>();

    let mut rx_set = world.receiver_set();
    let rx1_id = rx_set.add(rx1).unwrap();

    let channel2 = world.selectable_channel();
    let (tx2, rx2) = channel2.sub_channel::<String>();
    let rx2_id = rx_set.add(rx2).unwrap();

    tx1.send(1).unwrap();
    tx2.send("test".to_string()).unwrap();

    let mut recvd1 = false;
    let mut recvd2 = false;
    while !recvd1 || !recvd2 {
        for event in rx_set.select().unwrap() {
            if let SubSelectionResult::MessageReceived(received_id, received_data) = event {
                match received_id {
                    id if id == rx1_id => {
                        assert!(!recvd1, "i32 received twice");
                        let received_value: i32 = world.decode(received_data.message).unwrap();
                        assert_eq!(received_value, 1);
                        recvd1 = true;
                    }
                    id if id == rx2_id => {
                        assert!(!recvd2, "String received twice");
                        let received_value: String = world.decode(received_data.message).unwrap();
                        assert_eq!(received_value, "test".to_string());
                        recvd2 = true;
                    }
                    _ => panic!("unexpected id"),
                }
            } else {
                panic!("Unexpected SubSelectionResult");
            }
        }
    }
}

#[test]
fn receiver_set_disconnect() {
    let world = World::new();
    let channel = world.selectable_channel();
    let (tx, rx) = channel.sub_channel::<i32>();

    let mut rx_set = world.receiver_set();
    let rx_id = rx_set.add(rx).unwrap();

    drop(tx);
    if let SubSelectionResult::ChannelClosed(received_id) =
        rx_set.select().unwrap().into_iter().next().unwrap()
    {
        assert_eq!(received_id, rx_id);
    } else {
        panic!("unexpected result");
    }
}

#[test]
fn receiver_sets_with_subreceivers_sharing_ipc_channel() {
    let world = World::new();
    let channel = world.selectable_channel();
    let (tx1, rx1) = channel.sub_channel::<i32>();

    let mut rx_set1 = world.receiver_set();
    let rx1_id = rx_set1.add(rx1).unwrap();

    let mut rx_set2 = world.receiver_set();
    let (tx2, rx2) = channel.sub_channel::<String>();
    let rx2_id = rx_set2.add(rx2).unwrap();

    tx1.send(1).unwrap();

    if let SubSelectionResult::MessageReceived(received_id, received_data) =
        rx_set1.select().unwrap().into_iter().next().unwrap()
    {
        match received_id {
            id if id == rx1_id => {
                let received_value: i32 = world.decode(received_data.message).unwrap();
                assert_eq!(received_value, 1);
            },
            _ => panic!("unexpected id"),
        }
    } else {
        panic!("Unexpected SubSelectionResult");
    }

    tx2.send("test".to_string()).unwrap();

    if let SubSelectionResult::MessageReceived(received_id, received_data) =
        rx_set2.select().unwrap().into_iter().next().unwrap()
    {
        match received_id {
            id if id == rx2_id => {
                let received_value: String = world.decode(received_data.message).unwrap();
                assert_eq!(received_value, "test".to_string());
            },
            _ => panic!("unexpected id"),
        }
    } else {
        panic!("Unexpected SubSelectionResult");
    }
}

#[test]
fn subreceivers_sharing_ipc_channel_cannot_belong_to_distinct_subreceiversets_with_distinct_ipcreceiversets()
{
    let world = World::new();
    let channel = world.selectable_channel();
    let (_tx1, rx1) = channel.sub_channel::<i32>();
    let (_tx2, rx2) = channel.sub_channel::<i32>();

    let mut rx_set1 = world.receiver_set();
    let _rx1_id = rx_set1.add(rx1).unwrap();

    let mut rx_set2 = world.receiver_set();

    // Give the second set a channel of its own.
    let channel2 = world.selectable_channel();
    let (_tx3, rx3) = channel2.sub_channel::<i32>();
    let _rx3_id = rx_set2.add(rx3).unwrap();

    assert_eq!(
        format!("{:?}", rx_set2.add(rx2)),
        "Err(InternalError(\"Cannot merge non-empty MultiReceiverSets\"))"
    );
}

#[test]
fn handle_data_for_unregistered_subchannel_sends_receive_failed() {
    let unknown_scid = SubChannelId::new();
    let sender_scid = SubChannelId::new();
    let world = World::new();
    let mut state = world.0.borrow_mut();
    let state = &mut *state;
    let ipc_tx = state.new_forward();
    let sender_uuid = SubChannelId::new();
    let mut demuxer = Demuxer::empty();

    // A message for an unregistered subchannel with one embedded sender.
    let msg = MultiMessage::Data(
        unknown_scid,
        vec![],
        vec![(
            sender_scid,
            IpcSenderAndOrId::IpcSender(Arc::clone(&ipc_tx), sender_uuid.to_string()),
        )],
        no_attachments(),
    );
    assert!(demuxer.can_take(&msg));
    let senders = demuxer.senders_to_connect(&msg);
    let outcomes = state.connect_all(senders);
    let handled = demuxer.handle(msg, SubChannelId::new().0, outcomes, &mut state.mailboxes);
    state.apply(handled.effects);

    match handled.result {
        Err(MuxError::InternalError(ref s)) if s.contains("invalid subchannel id") => (),
        other => panic!("expected InternalError about invalid subchannel id, got {:?}", other),
    }

    let queue = &mut state.forwards.get_mut(&ipc_tx.handle).unwrap().queue;
    let connect_msg = queue.pop_front().expect("expected Connect message");
    assert!(matches!(connect_msg, MultiMessage::Connect(..)), "got {:?}", connect_msg);

    match queue.pop_front().expect("expected ReceiveFailed message") {
        MultiMessage::ReceiveFailed { scid, via } => {
            assert_eq!(scid, sender_scid);
            assert_eq!(via, unknown_scid);
        }
        other => panic!("expected ReceiveFailed, got {:?}", other),
    }
}

fn no_attachments() -> Attachments {
    Attachments { shmems: vec![], ipc_senders: vec![], ipc_receivers: vec![] }
}

#[test]
fn outcomes_of_other_senders_are_refused() {
    let mut mailboxes: SubChannelMailboxes = Mailboxes::new();
    let mut demuxer = Demuxer::empty();
    let ipc_sender = Arc::new(ForwardSender { handle: 7 });
    let uuid = SubChannelId::new();
    let message = || {
        MultiMessage::Data(
            SubChannelId::new(),
            vec![],
            vec![(
                SubChannelId::new(),
                IpcSenderAndOrId::IpcSender(Arc::clone(&ipc_sender), uuid.to_string()),
            )],
            no_attachments(),
        )
    };
    let receiver = SubChannelId::new().0;
    assert!(!demuxer.can_handle(&message(), &VecDeque::new()));
    assert!(demuxer.try_handle(message(), receiver, VecDeque::new(), &mut mailboxes).is_none());

    let failed = || VecDeque::from([Err(MuxError::Disconnected)]);
    let handled = demuxer.try_handle(message(), receiver, failed(), &mut mailboxes).unwrap();
    assert!(matches!(handled.result, Err(MuxError::Disconnected)), "got {:?}", handled.result);

    let event = ReceiveEvent::Message(message(), VecDeque::new());
    let mut multi_receiver = MultiReceiver::new(receiver, Demuxer::empty());
    assert!(!multi_receiver.can_receive(&event));
    assert!(multi_receiver.checked_try_recv(event, &mut mailboxes).is_none());

    assert!(OneShotMultiServer::checked_accept(message(), VecDeque::new(), &mut mailboxes)
        .is_none());
    let (accepted, _) =
        OneShotMultiServer::checked_accept(message(), failed(), &mut mailboxes).unwrap();
    assert!(matches!(accepted, Err(MuxError::Disconnected)));
}

#[test]
fn send_to_unregistered_subchannel_returns_disconnected() {
    let unknown_scid = SubChannelId::new();
    let mut demuxer = Demuxer::empty();
    let mut mailboxes: SubChannelMailboxes = Mailboxes::new();

    let handled = demuxer.send(
        unknown_scid,
        vec![],
        &vec![],
        SubChannelId::new().0,
        no_attachments(),
        VecDeque::new(),
        &mut mailboxes,
    );

    match handled.result {
        Err(MuxError::Disconnected) => (),
        other => panic!("expected Disconnected, got {:?}", other),
    }
}

#[test]
fn muxing() {
    let world = World::new();
    let channel = world.channel();
    let (sub_sender, sub_receiver) = channel.sub_channel();
    sub_sender.send(45_u8).unwrap();

    let data: u8 = sub_receiver.recv().unwrap();
    assert_eq!(data, 45);

    let (sub_sender2, sub_receiver2) = channel.sub_channel();
    sub_sender2.send("bananas".to_string()).unwrap();

    let data2: String = sub_receiver2.recv().unwrap();
    assert_eq!(data2, "bananas");
}

#[test]
fn try_recv_finds_a_message_behind_one_for_a_sibling() {
    let world = World::new();
    let channel = world.channel();
    let (tx1, rx1) = channel.sub_channel();
    let (tx2, rx2) = channel.sub_channel();
    tx1.send(1_i32).unwrap();
    tx2.send(2_i32).unwrap();
    assert!(matches!(rx2.try_recv(), Ok(2)));
    assert!(matches!(rx2.try_recv(), Err(TryRecvError::Empty)));
    assert!(matches!(rx1.try_recv(), Ok(1)));
    drop(tx1);
    assert!(matches!(rx1.try_recv(), Err(TryRecvError::MuxError(MuxError::Disconnected))));
}

#[test]
fn poll_tells_of_a_failed_probe_beside_a_live_source() {
    let mut mailboxes: SubChannelMailboxes = Mailboxes::new();
    let mut multi_receiver = MultiReceiver::new(1, Demuxer::empty());
    let scid = SubChannelId::new();
    let receiver = multi_receiver.attach(scid, &mut mailboxes);
    let sending =
        MultiMessage::SendingViaIpcChannel { scid, keepalive: OpaqueIpcReceiver { handle: 9 } };
    let event = ReceiveEvent::Message(sending, VecDeque::new());
    multi_receiver.checked_try_recv(event, &mut mailboxes).unwrap();

    let mut lost = LostChannels { multi_senders: vec![], keepalives: vec![] };
    assert!(!multi_receiver.poll(&lost, &mut mailboxes));
    lost.keepalives.push(9);
    assert!(multi_receiver.poll(&lost, &mut mailboxes));
    assert!(matches!(receiver.local(&mut mailboxes), Local::Empty));
    assert!(!multi_receiver.poll(&lost, &mut mailboxes));
}

#[test]
fn received_copies_share_a_disconnector() {
    let mut demuxer = Demuxer::empty();
    let scid = SubChannelId::new();
    let ipc_sender = Arc::new(ForwardSender { handle: 7 });
    let connection = Connection { multi_sender: 5, ipc_sender, uuid: 3 };
    let first = demuxer.disconnector_given(None, scid, &connection, 9);
    assert_eq!((first.sub_channel_id, first.source, first.multi_sender), (scid, 9, 5));
    let again = demuxer.disconnector_given(Some(Arc::clone(&first)), scid, &connection, 9);
    assert!(Arc::ptr_eq(&first, &again));

    // What a message brings shares it as long as it is held.
    let mut mailboxes: SubChannelMailboxes = Mailboxes::new();
    let mut multi_receiver = MultiReceiver::new(1, Demuxer::empty());
    let carrier = SubChannelId::new();
    let receiver = multi_receiver.attach(carrier, &mut mailboxes);
    let mut receive = || {
        let uuid = SubChannelId(11).to_string();
        let named = IpcSenderAndOrId::IpcSender(Arc::new(ForwardSender { handle: 7 }), uuid);
        let message = MultiMessage::Data(carrier, vec![], vec![(scid, named)], no_attachments());
        let ipc_sender = Arc::new(ForwardSender { handle: 7 });
        let outcome = Ok(Connection { multi_sender: 5, ipc_sender, uuid: 11 });
        let event = ReceiveEvent::Message(message, VecDeque::from([outcome]));
        multi_receiver.checked_try_recv(event, &mut mailboxes).unwrap();
        match receiver.local(&mut mailboxes) {
            Local::Message(mut message) => message.senders.pop_front().unwrap().disconnector,
            other => panic!("unexpected {:?}", other),
        }
    };
    let one = receive();
    let two = receive();
    assert!(Arc::ptr_eq(&one, &two));
    assert!(SubChannelDisconnector::release(one).is_none());
    assert!(SubChannelDisconnector::release(two).is_some());
    let three = receive();
    assert!(SubChannelDisconnector::release(three).is_some());
}

#[test]
fn first_failure_ends_a_batch() {
    assert!(MultiReceiverSet::batch(Ok(())).is_none());
    assert!(matches!(
        MultiReceiverSet::batch(Err(MuxError::Disconnected)),
        Some(SelectEvent::Handled(Err(MuxError::Disconnected)))
    ));
}

#[test]
fn all_messages_come_before_disconnection() {
    let world = World::new();
    let channel = world.channel();
    let (tx, rx) = channel.sub_channel();
    let copy = tx.clone();
    tx.send(1_i32).unwrap();
    copy.send(2).unwrap();
    drop(copy);
    tx.send(3).unwrap();
    drop(tx);
    for expected in 1..=3 {
        assert_eq!(rx.recv().unwrap(), expected);
    }
    assert!(matches!(rx.recv(), Err(MuxError::Disconnected)));
    assert!(matches!(rx.recv(), Err(MuxError::Disconnected)));
}

#[test]
fn new_subchannel_leaves_earlier_ones_alone() {
    let world = World::new();
    let channel = world.channel();
    let (tx1, rx1) = channel.sub_channel();
    tx1.send(1_i32).unwrap();
    let (tx2, rx2) = channel.sub_channel();
    tx2.send(2_i32).unwrap();
    assert_eq!(rx2.recv().unwrap(), 2);
    let (tx3, rx3) = channel.sub_channel::<i32>();
    assert_eq!(rx1.recv().unwrap(), 1);
    drop(tx3);
    assert!(matches!(rx3.recv(), Err(MuxError::Disconnected)));
    tx1.send(4).unwrap();
    assert_eq!(rx1.recv().unwrap(), 4);
}

#[test]
fn set_reports_everything_once_and_closing_last() {
    let world = World::new();
    let channel = world.selectable_channel();
    let (tx1, rx1) = channel.sub_channel::<i32>();
    let (tx2, rx2) = channel.sub_channel::<i32>();
    let mut set = world.receiver_set();
    let id1 = set.add(rx1).unwrap();
    let id2 = set.add(rx2).unwrap();
    assert_ne!(id1, id2);
    tx1.send(1).unwrap();
    tx2.send(2).unwrap();
    tx1.send(3).unwrap();
    drop(tx1);
    let mut reported = vec![];
    for event in set.pump() {
        reported.push(match event {
            SubSelectionResult::MessageReceived(id, raw) => {
                (id, Some(world.decode::<i32>(raw.message).unwrap()))
            }
            SubSelectionResult::ChannelClosed(id) => (id, None),
        });
    }
    assert_eq!(reported, vec![(id1, Some(1)), (id2, Some(2)), (id1, Some(3)), (id1, None)]);
    tx2.send(5).unwrap();
    let more = set.select().unwrap();
    assert_eq!(more.len(), 1);
    assert!(matches!(more[0], SubSelectionResult::MessageReceived(id, _) if id == id2));
}

#[test]
fn sender_once_associated_is_found_again() {
    let mut mailboxes: SubChannelMailboxes = Mailboxes::new();
    let mut multi_receiver = MultiReceiver::new(1, Demuxer::empty());
    let scid = SubChannelId::new();
    let receiver = multi_receiver.attach(scid, &mut mailboxes);
    let ipc_sender = Arc::new(ForwardSender { handle: 7 });
    let uuid = SubChannelId::new();
    let mut receive = |named: IpcSenderAndOrId, outcomes| {
        let message = MultiMessage::Data(
            scid,
            vec![],
            vec![(SubChannelId::new(), named)],
            no_attachments(),
        );
        let event = ReceiveEvent::Message(message, outcomes);
        let (outcome, _) = multi_receiver.checked_try_recv(event, &mut mailboxes).unwrap();
        let found = match receiver.local(&mut mailboxes) {
            Local::Message(message) => Some(message.senders[0].connection.multi_sender),
            _ => None,
        };
        (outcome, found)
    };
    let connection = Connection { multi_sender: 5, ipc_sender: Arc::clone(&ipc_sender), uuid: uuid.0 };

    let unknown = IpcSenderAndOrId::IpcSenderId(uuid.to_string());
    let (outcome, found) = receive(unknown, VecDeque::new());
    assert!(matches!(outcome, TryReceiveError::MuxError(MuxError::Disconnected)));
    assert_eq!(found, None);
    let first = IpcSenderAndOrId::IpcSender(ipc_sender, uuid.to_string());
    assert_eq!(receive(first, VecDeque::from([Ok(connection)])).1, Some(5));
    for _ in 0..2 {
        let again = IpcSenderAndOrId::IpcSenderId(uuid.to_string());
        assert_eq!(receive(again, VecDeque::new()).1, Some(5));
    }
    let odd = IpcSenderAndOrId::IpcSenderId("x".to_string());
    match receive(odd, VecDeque::new()).0 {
        TryReceiveError::MuxError(MuxError::InternalError(reason)) => {
            assert!(reason.starts_with("invalid UUID: "))
        }
        other => panic!("unexpected outcome {:?}", other),
    }
}

#[test]
fn data_for_a_dropped_sibling_fails_nobody_else() {
    let world = World::new();
    let channel = world.channel();
    let (tx1, rx1) = channel.sub_channel::<i32>();
    let (tx2, rx2) = channel.sub_channel();
    drop(rx1);
    // Sent by somebody who has not learnt of it yet.
    let scid = tx1.sender.as_ref().unwrap().sub_channel_sender.sub_channel_id();
    let late = MultiMessage::Data(scid, vec![1], vec![], no_attachments());
    world.0.borrow_mut().forwards.get_mut(&channel.id).unwrap().queue.push_back(late);
    tx2.send(2_i32).unwrap();
    assert_eq!(rx2.recv().unwrap(), 2);
}

#[test]
fn shmem_multiple_in_message() {
    let world = World::new();
    let channel = world.channel();
    let (tx, rx) = channel.sub_channel();
    tx.send((SharedMemory::from_bytes(b"first"), SharedMemory::from_bytes(b"second"))).unwrap();
    let received: (SharedMemory, SharedMemory) = rx.recv().unwrap();
    assert_eq!(&*received.0, b"first");
    assert_eq!(&*received.1, b"second");
}

#[test]
fn shmem_with_subsender() {
    let world = World::new();
    let channel = world.channel();
    let (tx, rx) = channel.sub_channel();
    let (inner_tx, inner_rx) = channel.sub_channel::<i32>();

    tx.send((SharedMemory::from_bytes(b"payload"), inner_tx)).unwrap();

    let (data, sender): (SharedMemory, Tx<i32>) = rx.recv().unwrap();
    assert_eq!(&*data, b"payload");
    sender.send(42).unwrap();
    assert_eq!(inner_rx.recv().unwrap(), 42);
}

#[test]
fn router_simple_global() {
    let world = World::new();
    let mut router = TestRouter::new(&world);
    let channel = world.selectable_channel();

    let fired = Rc::new(RefCell::new(VecDeque::new()));
    let sink = Rc::clone(&fired);
    let tx = router
        .add_typed_route::<usize>(
            &channel,
            Box::new(move |message| sink.borrow_mut().push_back(message.unwrap())),
        )
        .unwrap();

    let message: usize = 42;
    tx.send(message).unwrap();
    router.run();

    assert_eq!(fired.borrow_mut().pop_front(), Some(message));

    // Now shut down the router.
    router.shutdown();

    // Use router after shutdown.
    let person: Box<dyn FnMut(Result<(String, u64), MuxError>)> =
        Box::new(|person| drop(person.unwrap()));
    if let Err(RouterError::ShuttingDown) = router.add_typed_route(&channel, person) {
    } else {
        panic!("router did not return ShuttingDown error");
    }

    // The sender should have been dropped.
    assert!(tx.send(43).is_err());

    // Shutdown the router, again (should be a no-op).
    router.shutdown();
}

#[test]
fn router_channel_usable_after_all_senders_dropped() {
    let world = World::new();
    let mut router = TestRouter::new(&world);
    let channel = world.selectable_channel();

    let fired = Rc::new(RefCell::new(VecDeque::new()));
    let sink = Rc::clone(&fired);
    let tx = router
        .add_typed_route::<usize>(
            &channel,
            Box::new(move |message| sink.borrow_mut().push_back(message.unwrap())),
        )
        .unwrap();

    // Send and receive a message to confirm the route works.
    tx.send(42).unwrap();
    router.run();
    assert_eq!(fired.borrow_mut().pop_front(), Some(42));

    // Drop the sender, which closes the route.
    drop(tx);
    router.run();

    let fired2 = Rc::new(RefCell::new(VecDeque::new()));
    let sink2 = Rc::clone(&fired2);
    let tx2 = router
        .add_typed_route::<usize>(
            &channel,
            Box::new(move |message| sink2.borrow_mut().push_back(message.unwrap())),
        )
        .expect("the channel should still be usable after all senders dropped");

    tx2.send(99).unwrap();
    router.run();
    assert_eq!(fired2.borrow_mut().pop_front(), Some(99));

    router.shutdown();
}

#[test]
fn shmem_via_router() {
    let world = World::new();
    let mut router = TestRouter::new(&world);
    let channel = world.selectable_channel();

    let fired = Rc::new(RefCell::new(VecDeque::new()));
    let sink = Rc::clone(&fired);
    let tx = router
        .add_typed_route::<SharedMemory>(
            &channel,
            Box::new(move |message| sink.borrow_mut().push_back(message.unwrap())),
        )
        .unwrap();

    tx.send(SharedMemory::from_bytes(b"routed")).unwrap();
    router.run();

    let received = fired.borrow_mut().pop_front().unwrap();
    assert_eq!(&*received, b"routed");

    router.shutdown();
}

#[test]
fn subsender_drop_inflight_early() {
    let world = World::new();
    let receiving = world.channel();
    let (data, data_rx) = receiving.sub_channel::<Tx<u8>>();

    let d = world.channel();
    let (transmit_tx, transmit_rx) = d.sub_channel::<u8>();

    data.send(transmit_tx).expect("subsender send failed");

    // The receiving process ends before it has received the subsender.
    world.crash(receiving.id);
    std::mem::forget(data_rx);

    match transmit_rx.recv() {
        Err(MuxError::Disconnected) => {}
        result => panic!("unexpected result {:?}", result),
    }
}
