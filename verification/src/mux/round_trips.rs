//! What comes back of what was sent.

use crate::mux::captures::Arrived;
use crate::mux::channel::{multi_channel, Channel, OneShotMultiServer, SubOneShotServer};
use crate::mux::demux::{
    Connection, DemuxerView, Effect, Handled, MailboxMap, ResolvedMessage, SubChannelMailboxes,
};
use crate::mux::encoding::{law_decoding_undoes_encoding, truncated};
use crate::mux::error::{mux_error, IpcError, IpcErrorView, MuxError, MuxErrorView};
use crate::mux::handling::{
    handled_at, law_received_copy_is_held, law_sending_via_ipc_channel_counts_a_copy,
};
use crate::mux::ipc_channel_sub_sender::{ArrivedSubSender, IpcChannelSubSender};
use crate::mux::ipc_handles::{
    set_ipc_receivers_for_recv, set_ipc_senders_for_recv, take_ipc_receivers_for_send,
    take_ipc_senders_for_send, ArrivedReceivers, ArrivedSenders, CapturedReceivers,
    CapturedSenders, IpcReceiver, IpcSender, OpaqueIpcReceiver, OpaqueIpcSender,
};
use crate::mux::protocol::{
    ClientId, MultiMessage, ResponseReceiver, ResponseSender, SubChannelId, EMPTY_SUBCHANNEL_ID,
    ORIGIN,
};
use crate::mux::receiver::{DeserializationContext, MultiReceiver};
use crate::mux::sender::{
    IpcChannelTransportParts, MultiSender, MultiSenderId, ResponseEvent, SendPlan,
    SerializationContext, SourceTable,
};
use crate::mux::sender_id::{ForwardSender, Source, Target};
use crate::mux::sending::{has_new_source, is_connected_sender};
use crate::mux::shared_memory::{
    set_shmems_for_recv, take_shmems_for_send, ArrivedRegions, CapturedRegions, SharedMemory,
};
use crate::mux::subchannel_endpoint::{BytesSubReceiver, BytesSubSender, SubReceiver, SubSender};
use crate::mux::subchannel_router::membership::{former_loses_sender, is_new, only_subchannel};
use crate::mux::text::decimal;
use crate::mux::uuids::{described, Uuid};
use ipc_channel::ipc::IpcSharedMemory;
use std::collections::VecDeque;
use std::sync::Arc;
use vstd::prelude::*;

verus! {

/// A region that is put beside a message arrives with the bytes that it held:
/// what its index claims on arrival, after the regions have been sent along, is
/// the same again. It can be claimed once, and no other region is touched.
pub proof fn law_shared_memory_arrives(
    memory: &SharedMemory,
    captured: &mut CapturedRegions,
    index: usize,
    taken: &mut CapturedRegions,
    shmems: Vec<IpcSharedMemory>,
    set: &mut ArrivedRegions,
    claimed: &mut ArrivedRegions,
    arrived: Result<SharedMemory, String>,
    again: &mut ArrivedRegions,
    twice: Result<SharedMemory, String>,
)
    requires
        call_ensures(SharedMemory::serialize, (memory, captured), index),
        *old(taken) == *final(captured),
        call_ensures(take_shmems_for_send, (taken,), shmems),
        call_ensures(set_shmems_for_recv, (set, shmems), ()),
        *old(claimed) == *final(set),
        call_ensures(SharedMemory::deserialize, (index, claimed), arrived),
        *old(again) == *final(claimed),
        call_ensures(SharedMemory::deserialize, (index, again), twice),
    ensures
        index == old(captured)@.len(),
        final(taken)@.len() == 0,
        arrived matches Ok(same) && same@ == memory@,
        twice is Err,
        forall|other: int|
            #![trigger final(claimed)@[other]]
            0 <= other < shmems@.len() && other != index ==> final(claimed)@[other] == Some(
                shmems@[other],
            ),
{
    let slots = final(set)@;
    assert(slots.len() == shmems@.len());
    assert(slots[index as int] == Some(shmems@[index as int]));
    assert(shmems@[index as int] == shmems@.last());
}

/// An IPC sender that is put beside a message arrives as the same sender.
pub proof fn law_ipc_sender_arrives<T>(
    sender: &IpcSender<T>,
    captured: &mut CapturedSenders,
    index: usize,
    taken: &mut CapturedSenders,
    senders: Vec<OpaqueIpcSender>,
    set: &mut ArrivedSenders,
    claimed: &mut ArrivedSenders,
    arrived: Result<IpcSender<T>, String>,
    inner: OpaqueIpcSender,
)
    requires
        call_ensures(IpcSender::<T>::serialize, (sender, captured), index),
        *old(taken) == *final(captured),
        call_ensures(take_ipc_senders_for_send, (taken,), senders),
        call_ensures(set_ipc_senders_for_recv, (set, senders), ()),
        *old(claimed) == *final(set),
        call_ensures(IpcSender::<T>::deserialize, (index, claimed), arrived),
        arrived is Ok ==> call_ensures(IpcSender::<T>::into_inner, (arrived->Ok_0,), inner),
    ensures
        index == old(captured)@.len(),
        final(taken)@.len() == 0,
        arrived is Ok,
        inner == sender@,
        final(claimed)@.len() == old(captured)@.len() + 1,
        final(claimed)@[index as int] is None,
        forall|other: int|
            #![trigger final(claimed)@[other]]
            0 <= other < index ==> final(claimed)@[other] == Some(old(captured)@[other]),
{
    let slots = final(set)@;
    assert(slots.len() == senders@.len());
    assert(slots[index as int] == Some(senders@[index as int]));
}

/// An IPC receiver that is put beside a message arrives as the same receiver. It
/// can be sent once only: the second attempt fails and puts nothing beside the
/// message.
pub proof fn law_ipc_receiver_arrives_once<T>(
    receiver: &mut IpcReceiver<T>,
    captured: &mut CapturedReceivers,
    index: Result<usize, String>,
    later: &mut IpcReceiver<T>,
    captured_later: &mut CapturedReceivers,
    twice: Result<usize, String>,
    taken: &mut CapturedReceivers,
    receivers: Vec<OpaqueIpcReceiver>,
    set: &mut ArrivedReceivers,
    claimed: &mut ArrivedReceivers,
    arrived: Result<IpcReceiver<T>, String>,
    inner: Result<OpaqueIpcReceiver, MuxError>,
)
    requires
        old(receiver)@ is Some,
        call_ensures(IpcReceiver::<T>::serialize, (receiver, captured), index),
        *old(later) == *final(receiver),
        *old(captured_later) == *final(captured),
        call_ensures(IpcReceiver::<T>::serialize, (later, captured_later), twice),
        *old(taken) == *final(captured_later),
        call_ensures(take_ipc_receivers_for_send, (taken,), receivers),
        call_ensures(set_ipc_receivers_for_recv, (set, receivers), ()),
        *old(claimed) == *final(set),
        index is Ok ==> call_ensures(
            IpcReceiver::<T>::deserialize,
            (index->Ok_0, claimed),
            arrived,
        ),
        arrived is Ok ==> call_ensures(IpcReceiver::<T>::into_inner, (arrived->Ok_0,), inner),
    ensures
        index == Ok::<usize, String>(old(captured)@.len() as usize),
        twice matches Err(reason) && reason@ == "IpcReceiver already serialized"@,
        final(captured_later)@ == final(captured)@,
        arrived is Ok,
        inner == Ok::<OpaqueIpcReceiver, MuxError>(old(receiver)@->0),
{
    let slots = final(set)@;
    assert(slots.len() == receivers@.len());
    assert(slots[index->Ok_0 as int] == Some(receivers@[index->Ok_0 as int]));
}

/// A receiver that has been sent cannot be recovered.
pub proof fn law_sent_receiver_is_gone<T>(
    receiver: IpcReceiver<T>,
    inner: Result<OpaqueIpcReceiver, MuxError>,
)
    requires
        call_ensures(IpcReceiver::<T>::into_inner, (receiver,), inner),
    ensures
        inner is Ok <==> receiver@ is Some,
        inner matches Err(e) ==> e@ == MuxErrorView::InternalError(
            "IpcReceiver already serialized"@,
        ),
{
}

/// What a value is claimed by is its index, and a value can be claimed if it is
/// there. The reason for a failure counts what arrived.
pub proof fn law_claim_fails_for_what_is_not_there<H>(
    arrived: &mut Arrived<H>,
    index: usize,
    what: &str,
    plural: &str,
    claimed: Result<H, String>,
)
    requires
        call_ensures(Arrived::<H>::claim, (arrived, index, what, plural), claimed),
    ensures
        claimed is Ok <==> index < old(arrived)@.len() && old(arrived)@[index as int] is Some,
        claimed matches Ok(item) ==> old(arrived)@[index as int] == Some(item),
        claimed matches Err(reason) ==> reason@ == what@ + " "@ + decimal(index as nat)
            + " not available (have "@ + decimal(old(arrived)@.len()) + " "@ + plural@ + ")"@,
        claimed is Err ==> final(arrived)@ == old(arrived)@,
        final(arrived)@.len() == old(arrived)@.len(),
        forall|other: int|
            #![trigger final(arrived)@[other]]
            0 <= other < old(arrived)@.len() && other != index ==> final(arrived)@[other]
                == old(arrived)@[other],
{
}

/// The number that a text of decimal digits stands for.
pub open spec fn number_of(digits: Seq<char>) -> int
    decreases digits.len(),
{
    if digits.len() == 0 {
        0
    } else {
        10 * number_of(digits.drop_last()) + (digits.last() as int - '0' as int)
    }
}

/// A number written in decimal stands for that number, has digits only, and does
/// not begin with a zero unless it is zero.
pub proof fn law_decimal_stands_for_the_number(n: nat)
    ensures
        decimal(n).len() > 0,
        number_of(decimal(n)) == n,
        forall|i: int|
            #![trigger decimal(n)[i]]
            0 <= i < decimal(n).len() ==> '0' <= decimal(n)[i] <= '9',
        n > 0 ==> decimal(n)[0] != '0',
        n == 0 ==> decimal(n) == seq!['0'],
    decreases n,
{
    reveal_with_fuel(number_of, 2);
    let digits = decimal(n);
    if n < 10 {
        assert(digits.drop_last() =~= Seq::<char>::empty());
        assert(digits =~= seq![digits[0]]);
    } else {
        law_decimal_stands_for_the_number(n / 10);
        let front = decimal(n / 10);
        assert(digits.drop_last() =~= front);
        assert(digits[0] == front[0]);
        assert forall|i: int| #![trigger digits[i]] 0 <= i < digits.len() implies '0' <= digits[i]
            <= '9' by {
            if i < front.len() {
                assert(digits[i] == front[i]);
            }
        }
    }
}

/// A byte string that is sent arrives as it was, whatever else came before. It
/// is refused if the receiver is known to have disconnected.
pub proof fn law_byte_string_arrives(
    sender: &BytesSubSender,
    data: &[u8],
    channel: &mut MultiSender,
    events: &Vec<ResponseEvent>,
    context: &mut SerializationContext,
    sources: &mut SourceTable,
    plan: Result<SendPlan, MuxError>,
    message: ResolvedMessage,
    receiving: &mut DeserializationContext,
    decoded: (Result<Vec<u8>, MuxError>, Vec<Effect>),
)
    requires
        call_ensures(
            BytesSubSender::send,
            (sender, data, channel, events, context, sources),
            plan,
        ),
        plan matches Ok(sent) ==> (sent.data.message matches MultiMessage::Data(_, payload, _, _)
            ==> message.payload@ == payload@),
        call_ensures(BytesSubReceiver::decode, (message, receiving), decoded),
    ensures
        plan is Ok <==> !final(channel)@.disconnected && (final(channel)@.proxies.contains_key(
            sender.sub_channel_sender.sub_channel_id.0,
        ) ==> !final(channel)@.proxies[sender.sub_channel_sender.sub_channel_id.0]),
        plan matches Ok(sent) ==> {
            &&& sent.notifications@.len() == 0
            &&& sent.data.to == sender.sub_channel_sender.ipc_sender
            &&& sent.data.message matches MultiMessage::Data(scid, _, senders, attachments)
            &&& scid == sender.sub_channel_sender.sub_channel_id
            &&& senders@.len() == 0
            &&& attachments.shmems@.len() == 0
            &&& attachments.ipc_senders@.len() == 0
            &&& attachments.ipc_receivers@.len() == 0
            &&& decoded.0 matches Ok(bytes)
            &&& bytes@ == data@
        },
        plan matches Err(e) ==> e == MuxError::Disconnected,
        final(sources)@ == old(sources)@,
        decoded.1@.len() == old(receiving).senders@.len() + message.senders@.len(),
        forall|i: int|
            #![trigger old(receiving).senders@[i]]
            0 <= i < old(receiving).senders@.len() ==> decoded.1@[i] == Effect::Release(
                old(receiving).senders@[i].disconnector,
            ),
        forall|i: int|
            #![trigger message.senders@[i]]
            0 <= i < message.senders@.len() ==> decoded.1@[old(receiving).senders@.len() + i]
                == Effect::Release(message.senders@[i].disconnector),
{
    match plan {
        Ok(sent) => {
            law_decoding_undoes_encoding(data@, Seq::empty());
        },
        Err(_) => {},
    }
}

/// Bytes that break off within a byte string are not decoded.
pub proof fn law_cut_off_bytes_are_refused(
    message: ResolvedMessage,
    receiving: &mut DeserializationContext,
    decoded: (Result<Vec<u8>, MuxError>, Vec<Effect>),
)
    requires
        truncated(message.payload@),
        call_ensures(BytesSubReceiver::decode, (message, receiving), decoded),
    ensures
        decoded.0 matches Err(e) && e@ == MuxErrorView::IpcError(
            IpcErrorView::SerializationError("Serialization/Deserialization error"@),
        ),
{
}

/// The ends of a new channel know each other: the receiving end knows the client
/// by the sender of the response channel, and no other, and the sending end is
/// that client. It is created if and only if both IPC channels could be, and
/// fails for the first reason otherwise.
pub proof fn law_new_channel_is_connected(
    id: MultiSenderId,
    forward: Result<Arc<ForwardSender>, IpcError>,
    response: Result<(ResponseSender, ResponseReceiver), IpcError>,
    sources: &mut SourceTable,
    channel: Result<Channel, MuxError>,
)
    requires
        call_ensures(Channel::new, (id, forward, response, sources), channel) || call_ensures(
            multi_channel,
            (id, forward, response, sources),
            channel,
        ),
    ensures
        channel is Ok <==> forward is Ok && response is Ok,
        channel matches Ok(channel) ==> {
            let client = channel.multi_sender@.client_id;
            let end = channel.multi_receiver@.demuxer;
            &&& channel.multi_sender_id == id
            &&& is_connected_sender(
                channel.multi_sender@,
                client,
                *forward->Ok_0,
                response->Ok_0.1,
                old(sources)@,
                final(sources)@,
            )
            &&& forall|other: Uuid| #[trigger] end.clients.contains_key(other) <==> other == client.0
            &&& end.clients[client.0] == response->Ok_0.0
            &&& forall|scid: Uuid| !#[trigger] end.sub_channels.contains_key(scid)
            &&& forall|uuid: Uuid| !#[trigger] end.senders.contains_key(uuid)
        },
        forward matches Err(e) ==> channel == Err::<Channel, MuxError>(mux_error(e)),
        forward is Ok ==> (response matches Err(e) ==> channel == Err::<Channel, MuxError>(
            mux_error(e),
        )),
        channel is Err ==> final(sources)@ == old(sources)@,
{
}

/// The ends of a new subchannel belong together: its sending end sends over the
/// channel, its receiving end takes from a new mailbox to which the channel
/// delivers what is sent, and the sending end watches over the receiver, which
/// is connected. No other subchannel is known differently.
pub proof fn law_new_subchannel_is_connected<T>(
    channel: &mut Channel,
    mailboxes: &mut SubChannelMailboxes,
    ends: (SubSender<T>, SubReceiver<T>),
)
    requires
        call_ensures(Channel::sub_channel::<T>, (channel, mailboxes), ends),
        forall|id: Uuid|
            #![trigger old(channel).multi_receiver@.demuxer.sub_channels[id]]
            old(channel).multi_receiver@.demuxer.sub_channels.contains_key(id)
                ==> (old(channel).multi_receiver@.demuxer.sub_channels[id].sender matches Some(
                mailbox,
            ) ==> old(mailboxes)@.contains_key(mailbox)),
    ensures
        ({
            let sender = ends.0.sub_channel_sender;
            let receiver = ends.1.sub_channel_receiver;
            let scid = sender.sub_channel_id.0;
            let before = *old(channel);
            let after = *final(channel);
            &&& receiver.sub_channel_id == sender.sub_channel_id
            &&& *sender.ipc_sender == before.multi_sender@.ipc_sender
            &&& sender.ipc_sender_uuid == before.multi_sender@.uuid
            &&& sender.sender_id == before.multi_sender@.sender_id
            &&& sender.multi_sender == before.multi_sender_id
            &&& sender.disconnector.sub_channel_id == sender.sub_channel_id
            &&& sender.disconnector.ipc_sender == sender.ipc_sender
            &&& sender.disconnector.source == ORIGIN
            &&& sender.disconnector.multi_sender == before.multi_sender_id
            &&& after.multi_sender_id == before.multi_sender_id
            &&& after.multi_sender@.proxies.contains_key(scid)
            &&& !after.multi_sender@.proxies[scid]
            &&& forall|other: Uuid|
                #![trigger after.multi_sender@.proxies.contains_key(other)]
                other != scid ==> {
                    &&& after.multi_sender@.proxies.contains_key(other)
                        == before.multi_sender@.proxies.contains_key(other)
                    &&& before.multi_sender@.proxies.contains_key(other)
                        ==> after.multi_sender@.proxies[other]
                        == before.multi_sender@.proxies[other]
                }
            &&& after.multi_sender@.disconnected == before.multi_sender@.disconnected
            &&& after.multi_receiver@.uuid == before.multi_receiver@.uuid
            &&& !old(mailboxes)@.contains_key(receiver.mailbox)
            &&& only_subchannel(
                before.multi_receiver@.demuxer,
                after.multi_receiver@.demuxer,
                scid,
            )
            &&& is_new(after.multi_receiver@.demuxer.sub_channels[scid], receiver.mailbox)
            &&& final(mailboxes)@.contains_key(receiver.mailbox)
            &&& final(mailboxes)@[receiver.mailbox].messages.len() == 0
            &&& final(mailboxes)@[receiver.mailbox].senders == 1
            &&& final(mailboxes)@[receiver.mailbox].receiving
            &&& former_loses_sender(
                before.multi_receiver@.demuxer,
                scid,
                old(mailboxes)@,
                receiver.mailbox,
                final(mailboxes)@,
            )
        }),
{
}

/// A one-shot server that gets the connection of a client as the first message
/// knows that client, by the sender for responses to it, and nothing else.
pub proof fn law_server_knows_its_client(
    sender: ResponseSender,
    client: ClientId,
    outcomes: VecDeque<Result<Connection, MuxError>>,
    mailboxes: &mut SubChannelMailboxes,
    accepted: (Result<MultiReceiver, MuxError>, Vec<Effect>),
)
    requires
        call_ensures(
            OneShotMultiServer::accept,
            (MultiMessage::Connect(sender, client), outcomes, mailboxes),
            accepted,
        ),
    ensures
        accepted.0 matches Ok(end) && {
            &&& forall|other: Uuid| #[trigger]
                end@.demuxer.clients.contains_key(other) <==> other == client.0
            &&& end@.demuxer.clients[client.0] == sender
            &&& forall|scid: Uuid| !#[trigger] end@.demuxer.sub_channels.contains_key(scid)
        },
        accepted.1@.len() == 0,
        final(mailboxes)@ == old(mailboxes)@,
{
}

/// A server accepts a subchannel if and only if it is announced under the name
/// that the server gave out.
pub proof fn law_server_accepts_its_own_name(
    given: String,
    server: (SubOneShotServer, String),
    scid: SubChannelId,
    name: String,
    accepted: Result<SubChannelId, MuxError>,
)
    requires
        call_ensures(SubOneShotServer::new, (given,), server),
        call_ensures(SubOneShotServer::accept, (&server.0, scid, name), accepted),
    ensures
        server.1@ == given@,
        accepted is Ok <==> name@ == server.1@,
        accepted matches Ok(id) ==> id == scid,
        accepted matches Err(e) ==> e@ == MuxErrorView::InternalError(
            "unexpected sub channel name "@ + name@,
        ),
{
}

/// A subsender that has arrived over a raw IPC channel is for the subchannel
/// that it was sent for, sends over the connection of its IPC sender, and holds
/// on to its keepalive sender. It is a new source, of which the receiver of the
/// subchannel is told, as one that no subchannel has carried. It arrives if and
/// only if its IPC sender could be connected.
pub proof fn law_transported_subsender_arrives<T>(
    transport: IpcChannelSubSender<T>,
    connected: Result<Connection, MuxError>,
    sources: &mut SourceTable,
    arrived: Result<ArrivedSubSender, MuxError>,
)
    requires
        call_ensures(
            IpcChannelSubSender::<T>::into_sub_sender,
            (transport, connected, sources),
            arrived,
        ),
    ensures
        arrived is Ok <==> connected is Ok,
        arrived matches Ok(arrived) ==> {
            let connection = connected->Ok_0;
            let source = arrived.sender.disconnector.source;
            &&& arrived.sender.sub_channel_id == transport@.sub_channel_id
            &&& arrived.sender.ipc_sender == connection.ipc_sender
            &&& arrived.sender.ipc_sender_uuid == connection.uuid
            &&& arrived.sender.multi_sender == connection.multi_sender
            &&& arrived.sender.disconnector.sub_channel_id == transport@.sub_channel_id
            &&& arrived.sender.disconnector.ipc_sender == connection.ipc_sender
            &&& arrived.sender.disconnector.multi_sender == connection.multi_sender
            &&& has_new_source(arrived.sender.sender_id, old(sources)@, final(sources)@)
            &&& arrived.notification.to == connection.ipc_sender
            &&& arrived.notification.message == MultiMessage::Received {
                scid: transport@.sub_channel_id,
                via: SubChannelId(EMPTY_SUBCHANNEL_ID),
                new_source: source,
            }
            &&& arrived.keepalive == transport@.keepalive
        },
        arrived matches Err(e) ==> connected == Err::<Connection, MuxError>(e)
            && final(sources)@ == old(sources)@,
{
}

/// What is needed of a subsender in another process gets there unchanged.
pub proof fn law_transport_keeps_its_parts<T>(
    parts: IpcChannelTransportParts,
    transport: IpcChannelSubSender<T>,
    unpacked: IpcChannelTransportParts,
)
    requires
        call_ensures(
            IpcChannelSubSender::<T>::new,
            (parts.sub_channel_id, parts.ipc_sender, parts.ipc_sender_uuid, parts.keepalive),
            transport,
        ),
        call_ensures(IpcChannelSubSender::<T>::into_parts, (transport,), unpacked),
    ensures
        unpacked == parts,
{
}

/// A copy that leaves over a raw IPC channel and arrives is counted once while
/// it is on its way, and is held where it arrived afterwards. In between and
/// after, the subchannel is as connected as it was.
pub proof fn law_transported_copy_is_counted(
    before: DemuxerView,
    boxes: MailboxMap,
    scid: SubChannelId,
    keepalive: OpaqueIpcReceiver,
    source: Uuid,
    receiver: Uuid,
    sent: Handled,
    middle: DemuxerView,
    boxes_between: MailboxMap,
    arrived: Handled,
    after: DemuxerView,
    boxes_after: MailboxMap,
)
    requires
        before.sub_channels.contains_key(scid.0),
        handled_at(
            before,
            boxes,
            MultiMessage::SendingViaIpcChannel { scid, keepalive },
            receiver,
            Seq::empty(),
            sent,
            middle,
            boxes_between,
        ),
        handled_at(
            middle,
            boxes_between,
            MultiMessage::Received {
                scid,
                via: SubChannelId(EMPTY_SUBCHANNEL_ID),
                new_source: source,
            },
            receiver,
            Seq::empty(),
            arrived,
            after,
            boxes_after,
        ),
    ensures
        middle.sub_channels[scid.0].in_flight.count(EMPTY_SUBCHANNEL_ID)
            == before.sub_channels[scid.0].in_flight.count(EMPTY_SUBCHANNEL_ID) + 1,
        forall|via: u128| #[trigger]
            after.sub_channels[scid.0].in_flight.count(via)
                == before.sub_channels[scid.0].in_flight.count(via),
        after.sub_channels[scid.0].sources.contains(source),
        after.sub_channels[scid.0].sender == before.sub_channels[scid.0].sender,
        boxes_after == boxes,
{
    law_sending_via_ipc_channel_counts_a_copy(
        before,
        boxes,
        scid,
        keepalive,
        receiver,
        Seq::empty(),
        sent,
        middle,
        boxes_between,
    );
    assert(middle.sub_channels.dom().contains(scid.0));
    law_received_copy_is_held(
        middle,
        boxes_between,
        scid,
        SubChannelId(EMPTY_SUBCHANNEL_ID),
        source,
        receiver,
        Seq::empty(),
        arrived,
        after,
        boxes_after,
    );
    assert forall|via: u128| #[trigger]
        after.sub_channels[scid.0].in_flight.count(via)
            == before.sub_channels[scid.0].in_flight.count(via) by {
        assert(middle.sub_channels[scid.0].in_flight.count(via) >= 0);
    }
}

/// A sender that a target has stored under a UUID is what it looks up there,
/// unless another one was stored there before, which stays. Other UUIDs are not
/// touched.
pub proof fn law_target_finds_the_first<T: Clone>(
    target: &mut Target<T>,
    id: Uuid,
    sender: &T,
    other: Uuid,
    found: Option<T>,
)
    requires
        call_ensures(Target::<T>::add, (target, id, sender), ()),
        call_ensures(Target::<T>::look_up, (&*final(target), other), found),
    ensures
        other == id ==> found is Some,
        other == id && !old(target)@.contains_key(id) ==> exists|stored: T|
            #[trigger] cloned(*sender, stored) && cloned(stored, found->0),
        old(target)@.contains_key(other) ==> found is Some && cloned(old(target)@[other], found->0),
        other != id && !old(target)@.contains_key(other) ==> found is None,
{
    if !old(target)@.contains_key(id) {
        let copy = choose|copy: T|
            #[trigger] cloned(*sender, copy) && final(target)@ == old(target)@.insert(id, copy);
        assert(cloned(*sender, copy));
    }
}

/// A source remembers what it has sent, and says that it has sent a sender
/// before only if it has.
pub proof fn law_source_remembers(source: &mut Source, sender: Arc<ForwardSender>, already: bool)
    requires
        call_ensures(Source::insert, (source, sender), already),
    ensures
        final(source)@.contains(sender.handle),
        forall|handle: u64|
            #![trigger final(source)@.contains(handle)]
            #![trigger old(source)@.contains(handle)]
            handle != sender.handle ==> final(source)@.contains(handle) == old(source)@.contains(
                handle,
            ),
        already ==> old(source)@.contains(sender.handle),
{
}

/// The disconnection of an IPC channel is the disconnection of the subchannels
/// over it. Any other failure of it is told as a failure of the IPC channel.
pub proof fn law_disconnection_stays_disconnection(e: IpcError)
    ensures
        mux_error(e) is Disconnected <==> e is Disconnected,
        mux_error(e) !is Disconnected ==> mux_error(e) == MuxError::IpcError(e),
{
}

/// A text that could not be read as a UUID is told of, and one that could is the
/// UUID.
pub proof fn law_unreadable_uuid_is_told_of(
    parsed: Result<Uuid, String>,
    told: Result<Uuid, String>,
)
    requires
        call_ensures(described, (parsed,), told),
    ensures
        parsed is Ok ==> told == parsed,
        parsed matches Err(reason) ==> (told matches Err(text) && text@ == "invalid UUID: "@
            + reason@),
{
}

} // verus!
