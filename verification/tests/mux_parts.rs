use ipc_channel_mux::multiplex::sender::names_given;
use ipc_channel_mux::mux::captures::{Arrived, Captured};
use ipc_channel_mux::mux::channel::SubOneShotServer;
use ipc_channel_mux::mux::demux::{Connection, ResolvedMessage};
use ipc_channel_mux::mux::encoding::{decode_bytes, encode_bytes};
use ipc_channel_mux::mux::error::{IpcError, MuxError, TryRecvError};
use ipc_channel_mux::mux::ipc_channel_sub_sender::IpcChannelSubSender;
use ipc_channel_mux::mux::ipc_handles::{
    IpcReceiver, IpcSender, OpaqueIpcReceiver, OpaqueIpcSender,
};
use ipc_channel_mux::mux::mailbox::{MailboxError, Mailboxes};
use ipc_channel_mux::mux::protocol::{
    Attachments, ClientId, IpcSenderAndOrId, MultiMessage, MultiResponse, ResponseReceiver, SubChannelId,
    SubChannelSenderIds, EMPTY_SUBCHANNEL_ID,
};
use ipc_channel_mux::mux::receiver::{
    DeserializationContext, Local, MultiReceiver, RecvAction, RecvEvent, SubChannelReceiver,
    TryReceiveError,
};
use ipc_channel_mux::mux::sender::{
    MultiSender, ResponseEvent, SentBefore, SerializationContext, SerializedSenderContext,
    SourceTable, SubChannelDisconnector, SubChannelSender,
};
use ipc_channel_mux::mux::sender_id::ForwardSender;
use ipc_channel_mux::mux::shared_memory::SharedMemory;
use ipc_channel_mux::mux::subchannel_endpoint::{BytesSubReceiver, BytesSubSender};
use ipc_channel_mux::mux::subchannel_lifecycle::SubReceiverProxy;
use ipc_channel_mux::mux::subchannel_router::receiver_set::RawMessage;
use ipc_channel_mux::mux::subchannel_router::select::{MultiReceiverSet, Pending};
use ipc_channel_mux::mux::uuids::{described, parse_uuid};
use std::collections::VecDeque;
use std::sync::Arc;

#[test]
fn ids_as_text() {
    let id = SubChannelId(0x0123456789abcdef0123456789abcdef);
    assert_eq!(id.to_string(), "01234567-89ab-cdef-0123-456789abcdef");
    assert_eq!(id.serialize(), "01234567-89ab-cdef-0123-456789abcdef");
    assert_eq!(SubChannelId::deserialize("01234567-89ab-cdef-0123-456789abcdef"), Ok(id));
    assert_eq!(parse_uuid("0123456789ABCDEF0123456789ABCDEF"), Ok(id.0));
    let reason = SubChannelId::deserialize("x").unwrap_err();
    assert!(!reason.is_empty() && !reason.starts_with("invalid UUID: "), "{}", reason);
    assert_eq!(parse_uuid("x"), Err(format!("invalid UUID: {}", reason)));
    assert_eq!(described(Err("odd".to_string())), Err("invalid UUID: odd".to_string()));
    assert_eq!(described(Ok(5)), Ok(5));
}

#[test]
fn new_ids_are_random_uuids() {
    let a = SubChannelId::new();
    let b = SubChannelId::default();
    assert_ne!(a, b);
    assert_eq!((a.0 >> 76) & 0xf, 4);
    assert_eq!((b.0 >> 62) & 0x3, 2);
    assert_ne!(ClientId::new(), ClientId::default());
}

#[test]
fn byte_strings_as_messages() {
    assert_eq!(encode_bytes(&vec![]).unwrap(), vec![0]);
    assert_eq!(encode_bytes(&vec![7, 8]).unwrap(), vec![2, 7, 8]);
    let long = vec![9u8; 300];
    let data = encode_bytes(&long).unwrap();
    assert_eq!(data[..2], [0xac, 0x02]);
    assert_eq!(data.len(), 302);
    assert_eq!(decode_bytes(&data).unwrap(), long);
    assert_eq!(decode_bytes(&vec![1, 5, 99]).unwrap(), vec![5]);
    for broken in [vec![], vec![2, 7], vec![0x80]] {
        match decode_bytes(&broken) {
            Err(MuxError::IpcError(IpcError::SerializationError(reason))) => {
                assert_eq!(reason, "Serialization/Deserialization error")
            }
            other => panic!("unexpected outcome {:?}", other),
        }
    }
}

#[test]
fn captured_values_are_claimed_once() {
    let mut captured = Captured::new();
    assert_eq!(captured.capture('a'), 0);
    assert_eq!(captured.capture('b'), 1);
    let mut arrived = Arrived::new();
    arrived.set(captured.take());
    assert_eq!(captured.take(), vec![]);
    assert_eq!(arrived.claim(1, "letter", "letters"), Ok('b'));
    assert_eq!(
        arrived.claim(1, "letter", "letters"),
        Err("letter 1 not available (have 2 letters)".to_string())
    );
    assert_eq!(arrived.claim(0, "letter", "letters"), Ok('a'));
    assert_eq!(
        arrived.claim(20, "letter", "letters"),
        Err("letter 20 not available (have 2 letters)".to_string())
    );
    arrived.clear();
    assert_eq!(
        arrived.claim(0, "letter", "letters"),
        Err("letter 0 not available (have 0 letters)".to_string())
    );
}

#[test]
fn ipc_ends_travel_beside_messages() {
    let mut senders = Captured::new();
    let sender: IpcSender<u8> = IpcSender::from(OpaqueIpcSender { handle: 3 });
    assert_eq!(sender.serialize(&mut senders), 0);
    assert_eq!(sender.clone().serialize(&mut senders), 1);
    let mut arrived = Arrived::new();
    arrived.set(senders.take());
    let received: IpcSender<u8> = IpcSender::deserialize(1, &mut arrived).unwrap();
    assert_eq!(received.into_inner().handle, 3);
    match IpcSender::<u8>::deserialize(1, &mut arrived) {
        Err(reason) => assert_eq!(reason, "IpcSender 1 not available (have 2 senders)"),
        Ok(_) => panic!("claimed twice"),
    }

    let mut receivers = Captured::new();
    let mut receiver: IpcReceiver<u8> = IpcReceiver::from(OpaqueIpcReceiver { handle: 4 });
    assert_eq!(receiver.serialize(&mut receivers), Ok(0));
    assert_eq!(
        receiver.serialize(&mut receivers),
        Err("IpcReceiver already serialized".to_string())
    );
    match receiver.into_inner() {
        Err(MuxError::InternalError(reason)) => {
            assert_eq!(reason, "IpcReceiver already serialized")
        }
        other => panic!("unexpected outcome {:?}", other),
    }
    let mut arrived = Arrived::new();
    arrived.set(receivers.take());
    let received: IpcReceiver<u8> = IpcReceiver::deserialize(0, &mut arrived).unwrap();
    assert_eq!(received.into_inner().unwrap().handle, 4);
    match IpcReceiver::<u8>::deserialize(0, &mut arrived) {
        Err(reason) => assert_eq!(reason, "IpcReceiver 0 not available (have 1 receivers)"),
        Ok(_) => panic!("claimed twice"),
    }
}

#[test]
fn ipc_senders_sent_before_are_named_by_their_uuids() {
    let mut sources = SourceTable::new();
    let multi_sender = channel(&mut sources);
    let carrier = SubChannelSender::new(&multi_sender, 1);
    let context = |handle: u64| SerializedSenderContext {
        sub_channel_id: SubChannelId(handle as u128),
        ipc_sender_uuid: 40 + handle as u128,
        ipc_sender: Arc::new(ForwardSender { handle }),
        sender_id: handle,
    };
    let sent = SentBefore { carriers: vec![false, true], carried: vec![true, false] };
    let attachments = Attachments { shmems: vec![], ipc_senders: vec![], ipc_receivers: vec![] };
    let plan = carrier.plan_given(vec![1], &vec![context(7), context(8)], attachments, &sent);
    let name = |n: u128| SubChannelId(n).to_string();
    match &plan.data.message {
        MultiMessage::Data(_, _, senders, _) => {
            assert!(matches!(&senders[0].1, IpcSenderAndOrId::IpcSenderId(id) if *id == name(47)));
            assert!(matches!(
                &senders[1].1,
                IpcSenderAndOrId::IpcSender(sender, id) if sender.handle == 8 && *id == name(48)
            ));
        }
        other => panic!("unexpected message {:?}", other),
    }
    assert_eq!(plan.notifications.len(), 2);
    for (notification, whole) in plan.notifications.iter().zip([true, false]) {
        match &notification.message {
            MultiMessage::Sending { via_chan: IpcSenderAndOrId::IpcSender(..), .. } => {
                assert!(whole)
            }
            MultiMessage::Sending { via_chan: IpcSenderAndOrId::IpcSenderId(_), .. } => {
                assert!(!whole)
            }
            other => panic!("unexpected message {:?}", other),
        }
    }

    let senders =
        vec![(3, Arc::new(ForwardSender { handle: 7 })), (4, Arc::new(ForwardSender { handle: 8 }))];
    let named = names_given(&senders, &vec![true, false]);
    assert!(matches!(&named[0], IpcSenderAndOrId::IpcSenderId(id) if *id == name(3)));
    assert!(matches!(&named[1], IpcSenderAndOrId::IpcSender(sender, _) if sender.handle == 8));
}

#[test]
fn numbers_in_errors_are_decimal() {
    let mut arrived = Arrived::new();
    arrived.set(vec![]);
    for index in [0, 9, 10, 120, 18446744073709551615] {
        match SharedMemory::deserialize(index, &mut arrived) {
            Err(reason) => assert_eq!(
                reason,
                format!("shared memory region {} not available (have 0 regions)", index)
            ),
            Ok(_) => panic!("nothing arrived"),
        }
    }
}

#[test]
fn regions_travel_beside_messages() {
    let mut regions = Captured::new();
    let memory = SharedMemory::from_byte(7, 3);
    assert_eq!(&*memory, &[7, 7, 7]);
    assert_eq!(memory.serialize(&mut regions), 0);
    let mut arrived = Arrived::new();
    arrived.set(regions.take());
    let received = SharedMemory::deserialize(0, &mut arrived).unwrap();
    assert_eq!(received, memory);
    assert_ne!(received, SharedMemory::from_bytes(&[7, 7]));
    match SharedMemory::deserialize(0, &mut arrived) {
        Err(reason) => {
            assert_eq!(reason, "shared memory region 0 not available (have 1 regions)")
        }
        Ok(_) => panic!("claimed twice"),
    }
    if let Some(bytes) = SharedMemory::from_bytes(b"taken").take() {
        assert_eq!(bytes, b"taken");
    }
}

#[test]
fn mailboxes_deliver_in_order() {
    let mut boxes: Mailboxes<char> = Mailboxes::new();
    let id = boxes.open();
    assert_eq!(boxes.try_recv(id), Err(MailboxError::Empty));
    assert_eq!(boxes.send(id, 'a'), Ok(()));
    assert_eq!(boxes.send(id, 'b'), Ok(()));
    boxes.drop_sender(id);
    assert_eq!(boxes.try_recv(id), Ok('a'));
    assert_eq!(boxes.try_recv(id), Ok('b'));
    assert_eq!(boxes.try_recv(id), Err(MailboxError::Disconnected));

    let other = boxes.open();
    assert_ne!(other, id);
    boxes.send(other, 'c').unwrap();
    assert!(boxes.can_add_sender(other));
    boxes.add_sender(other);
    boxes.drop_sender(other);
    boxes.send(other, 'd').unwrap();
    assert_eq!(boxes.drop_receiver(other), VecDeque::from(vec!['c', 'd']));
    assert_eq!(boxes.send(other, 'e'), Err('e'));
}

fn channel(sources: &mut SourceTable) -> MultiSender {
    MultiSender::new(
        ClientId::new(),
        Arc::new(ForwardSender { handle: 1 }),
        ResponseReceiver { handle: 2 },
        sources,
    )
}

#[test]
fn sender_learns_of_disconnected_receiver() {
    let mut sources = SourceTable::new();
    let mut multi_sender = channel(&mut sources);
    let sender = SubChannelSender::new(&multi_sender, 1);
    let scid = sender.sub_channel_id();
    multi_sender.insert_sub_receiver_proxy(scid, SubReceiverProxy::new());
    let other = SubChannelId::new();
    let news = |scid| ResponseEvent::Response(MultiResponse::SubReceiverDisconnected(scid));

    assert!(multi_sender.is_receiver_connected(scid, &vec![ResponseEvent::Empty]));
    assert!(multi_sender.is_receiver_connected(scid, &vec![news(other), ResponseEvent::Empty]));
    assert!(!multi_sender.is_receiver_connected(scid, &vec![news(scid), ResponseEvent::Empty]));
    assert!(!multi_sender.is_receiver_connected(scid, &vec![ResponseEvent::Empty]));

    let mut context = SerializationContext::new();
    assert!(matches!(
        sender.prepare(&mut multi_sender, &vec![ResponseEvent::Empty], &mut context),
        Err(MuxError::Disconnected)
    ));
    assert!(multi_sender.probe(&vec![ResponseEvent::Empty]));
    assert!(!multi_sender.probe(&vec![ResponseEvent::IpcError]));
    assert!(!multi_sender.probe(&vec![ResponseEvent::Empty]));
}

#[test]
fn byte_strings_over_subchannels() {
    let mut sources = SourceTable::new();
    let mut multi_sender = channel(&mut sources);
    let sender = BytesSubSender::from_sender(SubChannelSender::new(&multi_sender, 1));
    let mut context = SerializationContext::new();
    let plan = sender
        .send(
            b"abc",
            &mut multi_sender,
            &vec![ResponseEvent::Empty],
            &mut context,
            &mut sources,
        )
        .unwrap();
    assert!(plan.notifications.is_empty());
    let (scid, payload) = match plan.data.message {
        MultiMessage::Data(scid, payload, senders, attachments) => {
            assert!(senders.is_empty());
            assert!(attachments.shmems.is_empty());
            (scid, payload)
        }
        other => panic!("unexpected message {:?}", other),
    };
    assert_eq!(scid, sender.sub_channel_sender.sub_channel_id());
    assert_eq!(payload, vec![3, b'a', b'b', b'c']);

    let mut context = DeserializationContext::new();
    let (decoded, effects) = BytesSubReceiver::decode(message(scid, payload), &mut context);
    assert_eq!(decoded.unwrap(), b"abc");
    assert!(effects.is_empty());
    let (decoded, _) = BytesSubReceiver::decode(message(scid, vec![3, b'a']), &mut context);
    assert!(decoded.is_err());

    // A disconnected channel refuses.
    assert!(matches!(
        sender.send(
            b"abc",
            &mut multi_sender,
            &vec![ResponseEvent::IpcError],
            &mut SerializationContext::new(),
            &mut sources,
        ),
        Err(MuxError::Disconnected)
    ));
}

fn message(scid: SubChannelId, payload: Vec<u8>) -> ResolvedMessage {
    ResolvedMessage {
        scid,
        payload,
        senders: VecDeque::new(),
        attachments: Attachments { shmems: vec![], ipc_senders: vec![], ipc_receivers: vec![] },
    }
}

#[test]
fn subsender_over_raw_ipc_channel() {
    let mut sources = SourceTable::new();
    let multi_sender = channel(&mut sources);
    let sender = SubChannelSender::new(&multi_sender, 1);
    let scid = sender.sub_channel_id();
    let keepalive = (OpaqueIpcSender { handle: 5 }, OpaqueIpcReceiver { handle: 6 });
    let (notification, plan) = sender.begin_ipc_channel_transport(Some(keepalive));
    match notification.message {
        MultiMessage::SendingViaIpcChannel { scid: sent, keepalive } => {
            assert_eq!(sent, scid);
            assert_eq!(keepalive.handle, 6);
        }
        other => panic!("unexpected message {:?}", other),
    }
    let (parts, disconnector) = plan.notified(Err(IpcError::Disconnected));
    let parts = parts.unwrap();
    assert_eq!(disconnector.sub_channel_id, scid);
    let transport: IpcChannelSubSender<u8> = IpcChannelSubSender::new(
        parts.sub_channel_id,
        parts.ipc_sender,
        parts.ipc_sender_uuid,
        parts.keepalive,
    );
    let connection = Connection {
        multi_sender: 9,
        ipc_sender: Arc::new(ForwardSender { handle: 1 }),
        uuid: 11,
    };
    let arrived = transport.into_sub_sender(Ok(connection), &mut sources).unwrap();
    assert_eq!(arrived.sender.sub_channel_id(), scid);
    assert_eq!(arrived.keepalive, Some(OpaqueIpcSender { handle: 5 }));
    match arrived.notification.message {
        MultiMessage::Received { scid: received, via, new_source } => {
            assert_eq!(received, scid);
            assert_eq!(via, SubChannelId(EMPTY_SUBCHANNEL_ID));
            assert_eq!(new_source, arrived.sender.disconnector.source);
        }
        other => panic!("unexpected message {:?}", other),
    }

    // Without a keepalive channel the notification has to arrive.
    let sender = SubChannelSender::new(&multi_sender, 1);
    let (notification, plan) = sender.begin_ipc_channel_transport(None);
    assert!(matches!(
        notification.message,
        MultiMessage::Sending { via: SubChannelId(EMPTY_SUBCHANNEL_ID), .. }
    ));
    assert!(matches!(
        plan.notified(Err(IpcError::Disconnected)).0,
        Err(MuxError::Disconnected)
    ));

    // A sender that cannot be connected is of no use.
    let transport: IpcChannelSubSender<u8> =
        IpcChannelSubSender::new(scid, Arc::new(ForwardSender { handle: 1 }), 11, None);
    assert!(matches!(
        transport.into_sub_sender(Err(MuxError::Disconnected), &mut sources),
        Err(MuxError::Disconnected)
    ));
}

#[test]
fn last_release_tells_the_receiver() {
    let mut sources = SourceTable::new();
    let mut multi_sender = channel(&mut sources);
    let sender = SubChannelSender::new(&multi_sender, 1);
    let copy = sender.clone();
    let scid = sender.sub_channel_id();
    assert!(SubChannelDisconnector::release(sender.disconnector).is_none());
    let last = SubChannelDisconnector::release(copy.disconnector).unwrap();
    let told = last.dropped(&mut multi_sender, &vec![ResponseEvent::Empty]).unwrap();
    match told.message {
        MultiMessage::Disconnect(dropped, _) => assert_eq!(dropped, scid),
        other => panic!("unexpected message {:?}", other),
    }
}

#[test]
fn missing_subsender_is_an_error() {
    let ids = SubChannelSenderIds::new(SubChannelId::new(), SubChannelId::new().to_string());
    let mut context = DeserializationContext::new();
    match SubChannelSender::deserialize(&ids, &mut context) {
        Err(MuxError::InternalError(reason)) => {
            assert_eq!(reason, "IpcSender missing from message")
        }
        _ => panic!("expected an internal error"),
    }
}

#[test]
fn announcements_to_one_shot_servers() {
    let scid = SubChannelId::new();
    let (server, name) = SubOneShotServer::new("here".to_string());
    let announced = MultiMessage::SubChannelId(scid, name);
    let (id, given) = MultiReceiver::receive_sub_channel(Ok(announced), String::new()).unwrap();
    assert_eq!(server.accept(id, given).unwrap(), scid);
    match server.accept(id, "there".to_string()) {
        Err(MuxError::InternalError(reason)) => {
            assert_eq!(reason, "unexpected sub channel name there")
        }
        other => panic!("unexpected outcome {:?}", other),
    }
    assert!(matches!(
        MultiReceiver::receive_sub_channel(Err(IpcError::Disconnected), String::new()),
        Err(MuxError::Disconnected)
    ));
    let early = MultiMessage::Disconnect(scid, 0);
    assert!(matches!(
        MultiReceiver::receive_sub_channel(Ok(early), "Disconnect".to_string()),
        Err(MuxError::InternalError(_))
    ));
}

#[test]
fn blocking_receive_waits_when_contended() {
    let receiver = SubChannelReceiver { sub_channel_id: SubChannelId(1), mailbox: 1 };
    assert!(matches!(
        receiver.recv(RecvEvent::Local(Local::Empty)),
        RecvAction::TryLock
    ));
    match receiver.recv(RecvEvent::Contended) {
        RecvAction::WaitLocal(wait) => assert_eq!(wait, 100),
        other => panic!("unexpected action {:?}", other),
    }
    match receiver.recv(RecvEvent::Locked) {
        RecvAction::Receive(wait) => assert_eq!(wait, 100_000),
        other => panic!("unexpected action {:?}", other),
    }
    assert!(matches!(
        receiver.recv(RecvEvent::Waited(Local::Disconnected)),
        RecvAction::Return(Err(MuxError::Disconnected))
    ));
}

#[test]
fn non_blocking_receive_tries_until_nothing_is_left() {
    let receiver = SubChannelReceiver { sub_channel_id: SubChannelId(1), mailbox: 1 };
    let sibling = Some(SubChannelId(2));
    let mut receive = receiver.try_recv();
    assert!(matches!(
        receive.next(RecvEvent::Local(Local::Empty)),
        RecvAction::TryReceive
    ));
    assert!(matches!(
        receive.next(RecvEvent::TryReceived(sibling, TryReceiveError::Handled)),
        RecvAction::TryLocal
    ));
    assert!(matches!(
        receive.next(RecvEvent::Local(Local::Empty)),
        RecvAction::TryReceive
    ));
    let failed = || TryReceiveError::MuxError(MuxError::Disconnected);
    assert!(matches!(
        receive.next(RecvEvent::TryReceived(sibling, failed())),
        RecvAction::TryLocal
    ));
    assert!(matches!(
        receive.next(RecvEvent::TryReceived(None, TryReceiveError::Empty)),
        RecvAction::TryLocal
    ));
    assert!(matches!(
        receive.next(RecvEvent::Local(Local::Empty)),
        RecvAction::Return(Err(TryRecvError::Empty))
    ));
    for about in [None, Some(SubChannelId(1))] {
        let mut receive = receiver.try_recv();
        assert!(matches!(
            receive.next(RecvEvent::TryReceived(about, failed())),
            RecvAction::Return(Err(TryRecvError::MuxError(MuxError::Disconnected)))
        ));
    }
}

#[test]
fn failure_for_a_sibling_is_no_reason_to_stop() {
    let receiver = SubChannelReceiver { sub_channel_id: SubChannelId(1), mailbox: 1 };
    let failed = || Err(MuxError::Disconnected);
    assert!(matches!(
        receiver.recv(RecvEvent::Received(Some(SubChannelId(2)), failed())),
        RecvAction::TryLocal
    ));
    assert!(matches!(
        receiver.recv(RecvEvent::Received(Some(SubChannelId(1)), failed())),
        RecvAction::Return(Err(MuxError::Disconnected))
    ));
    assert!(matches!(
        receiver.recv(RecvEvent::Received(None, failed())),
        RecvAction::Return(Err(MuxError::Disconnected))
    ));
    assert!(matches!(
        receiver.try_recv_timeout(5).next(RecvEvent::Received(Some(SubChannelId(2)), failed())),
        RecvAction::TryLocal
    ));
    assert!(matches!(
        receiver.try_recv_timeout(5).next(RecvEvent::Received(None, failed())),
        RecvAction::Return(Err(TryRecvError::MuxError(MuxError::Disconnected)))
    ));
}

#[test]
fn timed_receive_never_waits_too_long() {
    let receiver = SubChannelReceiver { sub_channel_id: SubChannelId(1), mailbox: 1 };
    let mut receive = receiver.try_recv_timeout(1_000_000);
    assert!(matches!(
        receive.next(RecvEvent::Local(Local::Empty)),
        RecvAction::CheckTime
    ));
    assert!(matches!(receive.next(RecvEvent::Remaining(500)), RecvAction::TryLock));
    match receive.next(RecvEvent::Locked) {
        RecvAction::Receive(wait) => assert_eq!(wait, 500),
        other => panic!("unexpected action {:?}", other),
    }
    match receive.next(RecvEvent::Contended) {
        RecvAction::WaitLocal(wait) => assert_eq!(wait, 100),
        other => panic!("unexpected action {:?}", other),
    }
    assert!(matches!(receive.next(RecvEvent::Remaining(50)), RecvAction::TryLock));
    match receive.next(RecvEvent::Contended) {
        RecvAction::WaitLocal(wait) => assert_eq!(wait, 50),
        other => panic!("unexpected action {:?}", other),
    }
    assert!(matches!(receive.next(RecvEvent::Remaining(900_000)), RecvAction::TryLock));
    match receive.next(RecvEvent::Locked) {
        RecvAction::Receive(wait) => assert_eq!(wait, 100_000),
        other => panic!("unexpected action {:?}", other),
    }
    assert!(matches!(
        receive.next(RecvEvent::Remaining(0)),
        RecvAction::Return(Err(TryRecvError::Empty))
    ));
    let scid = SubChannelId::new();
    match receive.next(RecvEvent::Waited(Local::Message(message(scid, vec![1])))) {
        RecvAction::Return(Ok(message)) => assert_eq!(message.payload, vec![1]),
        other => panic!("unexpected action {:?}", other),
    }
}

#[test]
fn pending_receiver_is_registered_once() {
    let mut set = MultiReceiverSet::new();
    assert!(set.is_empty());
    set.set_pending(Pending { ipc_receiver: 4, receiver: 7 });
    assert!(!set.is_empty());
    assert!(set.register_pending(Ok(21)).is_ok());
    assert_eq!(set.receiver_for(21), Some(7));
    assert_eq!(set.registrations(), vec![21]);
    assert!(set.take_pending().is_none());

    // With nothing pending there is nothing to register.
    assert!(set.register_pending(Err(IpcError::Disconnected)).is_ok());

    set.set_pending(Pending { ipc_receiver: 5, receiver: 8 });
    assert!(matches!(
        set.register_pending(Err(IpcError::Disconnected)),
        Err(MuxError::Disconnected)
    ));
    assert!(set.pending().is_none());

    set.channel_closed(21);
    assert_eq!(set.receiver_for(21), None);
    assert!(set.is_empty());
    assert!(!set.is_merged_into(3));
    set.set_merged_into(3);
    assert!(set.is_merged_into(3));
    assert!(!set.is_merged_into(4));
}

#[test]
fn raw_messages_are_decoded_later() {
    let raw = RawMessage { message: message(SubChannelId::new(), vec![1, 2]) };
    let mut context = DeserializationContext::new();
    let (payload, effects) = raw.begin_to(&mut context);
    assert_eq!(payload, vec![1, 2]);
    assert!(effects.is_empty());
    assert!(ResolvedMessage::end_deserialize(&mut context).is_empty());
}
