//! What has to be there before a message is handled, and what the smaller
//! operations of receiving and sending ends do.

use crate::mux::captures::{Arrived, Captured};
use crate::mux::channel::OneShotMultiServer;
use crate::mux::demux::{
    named_in, to_connect, Connection, Demuxer, DemuxerView, Effect, Handled, LostChannels,
    ProtoSender, ResolvedMessage, SubChannelMailboxes,
};
use crate::mux::error::{MuxError, MuxErrorView};
use crate::mux::handling::{handled_at, is_quiet};
use crate::mux::history::law_each_client_is_told_once;
use crate::mux::ipc_handles::{
    clear_ipc_receiver_deserialization_context, clear_ipc_receiver_serialization_context,
    clear_ipc_sender_deserialization_context, clear_ipc_sender_serialization_context,
    ArrivedReceivers, ArrivedSenders, CapturedReceivers, CapturedSenders, OpaqueIpcReceiver,
    OpaqueIpcSender,
};
use crate::mux::mailbox::MailboxId;
use crate::mux::protocol::{
    Attachments, ClientId, IpcSenderAndOrId, MultiMessage, MultiResponse, ResponseReceiver,
    ResponseSender, SubChannelId, SubChannelSenderIds, EMPTY_SUBCHANNEL_ID, ORIGIN,
};
use crate::mux::receiver::{
    clear_deserialization_context, establish_deserialization_context, receiver_handled,
    DeserializationContext, MultiReceiver, ReceiveEvent, SubChannelReceiver, TryReceiveError,
};
use crate::mux::sender::{
    clear_serialization_context, take_serialization_context, MultiSender, MultiSenderId,
    Outgoing, SendPlan, SerializationContext, SerializedSenderContext, SourceId, SourceTable,
    SubChannelDisconnector, SubChannelSender,
};
use crate::mux::sender_id::ForwardSender;
use crate::mux::sending::has_new_source;
use crate::mux::shared_memory::{
    clear_shmem_deserialization_context, clear_shmem_serialization_context, ArrivedRegions,
    CapturedRegions, SharedMemory,
};
use crate::mux::sorting::{
    brought_by, handled_in, is_connectable, law_senders_are_connected_in_order, names_in,
};
use crate::mux::subchannel_endpoint::{
    BytesSubReceiver, BytesSubSender, OpaqueSubReceiver, OpaqueSubSender, SubReceiver, SubSender,
};
use crate::mux::subchannel_router::membership::{
    is_new, loses_sender, only_subchannel, unchanged,
};
use crate::mux::subchannel_router::select::{selectable_handled, SelectableView, SetId};
use crate::mux::uuids::{hyphenated, parse_uuid, parsed_uuid, Uuid};
use ipc_channel::ipc::IpcSharedMemory;
use std::collections::VecDeque;
use std::sync::Arc;
use vstd::prelude::*;

verus! {

/// Nothing is known but perhaps some clients.
pub open spec fn knows_only_clients(state: DemuxerView) -> bool {
    &&& forall|scid: Uuid| !#[trigger] state.sub_channels.contains_key(scid)
    &&& forall|scid: Uuid| !#[trigger] state.disconnectors.contains_key(scid)
    &&& forall|uuid: Uuid| !#[trigger] state.senders.contains_key(uuid)
}

/// Nothing is known at first but the client that was given, if one was. Clients
/// that are cleared are not known any more, and all else stays.
pub proof fn law_first_client_is_known(
    empty: Demuxer,
    client: ClientId,
    sender: ResponseSender,
    demuxer: Demuxer,
    cleared: &mut Demuxer,
)
    requires
        call_ensures(Demuxer::empty, (), empty),
        call_ensures(Demuxer::with_sender, (client, sender), demuxer),
        call_ensures(Demuxer::clear_ipc_senders, (cleared,), ()),
    ensures
        knows_only_clients(empty@),
        forall|other: Uuid| !#[trigger] empty@.clients.contains_key(other),
        knows_only_clients(demuxer@),
        forall|other: Uuid| #[trigger] demuxer@.clients.contains_key(other) <==> other == client.0,
        demuxer@.clients[client.0] == sender,
        forall|other: Uuid| !#[trigger] final(cleared)@.clients.contains_key(other),
        final(cleared)@.sub_channels == old(cleared)@.sub_channels,
        final(cleared)@.disconnectors == old(cleared)@.disconnectors,
        final(cleared)@.senders == old(cleared)@.senders,
{
}

/// The IPC senders that have to be connected before a message is handled are
/// those that came with the names in it, in order and under their UUIDs, up to
/// the first name that stands for nothing known.
pub proof fn law_senders_to_connect_came_along(
    demuxer: &Demuxer,
    message: &MultiMessage,
    senders: Vec<(Arc<ForwardSender>, Uuid)>,
    n: int,
    i: int,
)
    requires
        call_ensures(Demuxer::senders_to_connect, (demuxer, message), senders),
        0 <= n <= names_in(*message).len(),
        forall|j: int|
            #![trigger names_in(*message)[j]]
            0 <= j < n ==> is_connectable(demuxer@.senders.dom(), names_in(*message), j),
        n < names_in(*message).len() ==> !is_connectable(
            demuxer@.senders.dom(),
            names_in(*message),
            n,
        ),
    ensures
        senders@.len() == brought_by(names_in(*message), n),
        0 <= i < n ==> (names_in(*message)[i] matches IpcSenderAndOrId::IpcSender(sender, text) ==> {
            let at = brought_by(names_in(*message), i) as int;
            &&& at < senders@.len()
            &&& senders@[at].0.handle == sender.handle
            &&& parsed_uuid(text@) == Ok::<Uuid, Seq<char>>(senders@[at].1)
        }),
{
    let named = names_in(*message);
    assert(named_in(*message) =~= named);
    law_senders_are_connected_in_order(demuxer@.senders.dom(), named, n);
    let all = to_connect(demuxer@.senders.dom(), named);
    let plain = senders@.map_values(|sender: (Arc<ForwardSender>, Uuid)| (*sender.0, sender.1));
    assert(plain == all);
    assert(plain.len() == senders@.len());
    if 0 <= i < n && named[i] is IpcSender {
        let at = brought_by(named, i) as int;
        assert(at < all.len());
        assert(plain[at] == (*senders@[at].0, senders@[at].1));
    }
}

/// A message can be handled with given outcomes if and only if the copy that it
/// may tell of can be counted, and the outcomes are those of connecting, in
/// order, the senders that have to be connected, up to the first failure. A
/// message can be taken if the copy can be counted.
pub proof fn law_message_can_be_handled_with_its_outcomes(
    demuxer: &Demuxer,
    message: &MultiMessage,
    senders: Vec<(Arc<ForwardSender>, Uuid)>,
    outcomes: &VecDeque<Result<Connection, MuxError>>,
    can_take: bool,
    can_handle: bool,
)
    requires
        call_ensures(Demuxer::senders_to_connect, (demuxer, message), senders),
        call_ensures(Demuxer::can_take, (demuxer, message), can_take),
        call_ensures(Demuxer::can_handle, (demuxer, message, outcomes), can_handle),
    ensures
        can_take <==> (match *message {
            MultiMessage::Sending { scid, .. } => demuxer@.sub_channels.contains_key(scid.0)
                ==> demuxer@.sub_channels[scid.0].in_flight.len() < usize::MAX,
            MultiMessage::SendingViaIpcChannel { scid, .. } => demuxer@.sub_channels.contains_key(
                scid.0,
            ) ==> demuxer@.sub_channels[scid.0].in_flight.len() < usize::MAX,
            _ => true,
        }),
        can_handle <==> {
            &&& can_take
            &&& outcomes@.len() <= senders@.len()
            &&& outcomes@.len() < senders@.len() ==> outcomes@.len() > 0 && outcomes@.last() is Err
            &&& forall|i: int|
                #![trigger outcomes@[i]]
                0 <= i < outcomes@.len() ==> (outcomes@[i] matches Ok(connection)
                    ==> *connection.ipc_sender == *senders@[i].0 && connection.uuid
                    == senders@[i].1)
        },
{
    let all = to_connect(demuxer@.senders.dom(), named_in(*message));
    let plain = senders@.map_values(|sender: (Arc<ForwardSender>, Uuid)| (*sender.0, sender.1));
    assert(plain == all);
    assert(plain.len() == senders@.len());
    assert forall|i: int| #![trigger plain[i]] 0 <= i < senders@.len() implies plain[i] == (
        *senders@[i].0,
        senders@[i].1,
    ) by {}
    if can_handle {
        assert forall|i: int|
            #![trigger outcomes@[i]]
            0 <= i < outcomes@.len() implies (outcomes@[i] matches Ok(connection)
            ==> *connection.ipc_sender == *senders@[i].0 && connection.uuid == senders@[i].1) by {
            assert(plain[i] == all[i]);
        }
    }
    if can_take && outcomes@.len() <= senders@.len() && (outcomes@.len() < senders@.len()
        ==> outcomes@.len() > 0 && outcomes@.last() is Err) && (forall|i: int|
        #![trigger outcomes@[i]]
        0 <= i < outcomes@.len() ==> (outcomes@[i] matches Ok(connection)
            ==> *connection.ipc_sender == *senders@[i].0 && connection.uuid == senders@[i].1)) {
        assert forall|i: int|
            #![trigger outcomes@[i]]
            0 <= i < outcomes@.len() && outcomes@[i] is Ok implies {
            &&& *outcomes@[i]->Ok_0.ipc_sender == all[i].0
            &&& outcomes@[i]->Ok_0.uuid == all[i].1
        } by {
            assert(plain[i] == all[i]);
        }
    }
}

/// A subchannel that is inserted is new, delivers to the given mailbox, and its
/// subsender is held where it was created. One that was there before loses its
/// former mailbox. The messages of a subchannel that is known can be directed to
/// another mailbox, and nothing else of it changes.
pub proof fn law_inserted_subchannel_delivers(
    inserted: &mut Demuxer,
    switched: &mut Demuxer,
    scid: SubChannelId,
    mailbox: MailboxId,
    inserted_boxes: &mut SubChannelMailboxes,
    switched_boxes: &mut SubChannelMailboxes,
    result: Result<(), MuxError>,
)
    requires
        call_ensures(
            Demuxer::insert_state_machine,
            (inserted, scid, mailbox, inserted_boxes),
            (),
        ),
        call_ensures(
            Demuxer::switch_sub_channel_sender,
            (switched, scid, mailbox, switched_boxes),
            result,
        ),
    ensures
        only_subchannel(old(inserted)@, final(inserted)@, scid.0),
        is_new(final(inserted)@.sub_channels[scid.0], mailbox),
        forall|id: MailboxId|
            #![trigger old(inserted_boxes)@.contains_key(id)]
            #![trigger final(inserted_boxes)@.contains_key(id)]
            if old(inserted)@.sub_channels.contains_key(scid.0)
                && old(inserted)@.sub_channels[scid.0].sender == Some(id) {
                loses_sender(old(inserted_boxes)@, id, final(inserted_boxes)@)
            } else {
                unchanged(old(inserted_boxes)@, id, final(inserted_boxes)@)
            },
        result is Ok <==> old(switched)@.sub_channels.contains_key(scid.0),
        result is Ok ==> {
            let was = old(switched)@.sub_channels[scid.0];
            let now = final(switched)@.sub_channels[scid.0];
            &&& only_subchannel(old(switched)@, final(switched)@, scid.0)
            &&& now.sender == Some(mailbox)
            &&& now.sources == was.sources
            &&& now.in_flight == was.in_flight
            &&& now.probes == was.probes
            &&& forall|id: MailboxId|
                #![trigger old(switched_boxes)@.contains_key(id)]
                #![trigger final(switched_boxes)@.contains_key(id)]
                if was.sender == Some(id) {
                    loses_sender(old(switched_boxes)@, id, final(switched_boxes)@)
                } else {
                    unchanged(old(switched_boxes)@, id, final(switched_boxes)@)
                }
        },
        result matches Err(e) ==> {
            &&& e@ == MuxErrorView::InternalError("missing sub_channel for "@ + hyphenated(scid.0))
            &&& final(switched)@ == old(switched)@
            &&& final(switched_boxes)@ == old(switched_boxes)@
        },
{
}

/// Copies of a subsender that arrive at one place share a disconnector: one that
/// was found is used, and otherwise a new one is made, for the subchannel, the
/// IPC sender and the place, and recorded.
pub proof fn law_copies_share_a_disconnector(
    demuxer: &mut Demuxer,
    found: Option<Arc<SubChannelDisconnector>>,
    scid: SubChannelId,
    connection: &Connection,
    source: Uuid,
    disconnector: Arc<SubChannelDisconnector>,
)
    requires
        call_ensures(
            Demuxer::disconnector_given,
            (demuxer, found, scid, connection, source),
            disconnector,
        ),
    ensures
        found matches Some(shared) ==> disconnector == shared && final(demuxer)@ == old(demuxer)@,
        found is None ==> {
            &&& disconnector.sub_channel_id == scid
            &&& disconnector.ipc_sender == connection.ipc_sender
            &&& disconnector.source == source
            &&& disconnector.multi_sender == connection.multi_sender
            &&& final(demuxer)@.disconnectors.contains_key(scid.0)
            &&& final(demuxer)@.disconnectors[scid.0] == *disconnector
            &&& forall|other: Uuid|
                #![trigger old(demuxer)@.disconnectors.contains_key(other)]
                #![trigger final(demuxer)@.disconnectors.contains_key(other)]
                other != scid.0 ==> {
                    &&& final(demuxer)@.disconnectors.contains_key(other)
                        == old(demuxer)@.disconnectors.contains_key(other)
                    &&& old(demuxer)@.disconnectors.contains_key(other)
                        ==> final(demuxer)@.disconnectors[other]
                        == old(demuxer)@.disconnectors[other]
                }
            &&& final(demuxer)@.clients == old(demuxer)@.clients
            &&& final(demuxer)@.sub_channels == old(demuxer)@.sub_channels
            &&& final(demuxer)@.senders == old(demuxer)@.senders
        },
{
}

/// A message that is sent to a subchannel through its receiving end becomes what
/// one becomes that arrives at a receiving end in a set.
pub proof fn law_message_is_sent_as_in_a_set(
    demuxer: &mut Demuxer,
    scid: SubChannelId,
    payload: Vec<u8>,
    senders: &Vec<(SubChannelId, IpcSenderAndOrId)>,
    receiver: Uuid,
    attachments: Attachments,
    outcomes: VecDeque<Result<Connection, MuxError>>,
    mailboxes: &mut SubChannelMailboxes,
    outcome: Handled,
    set: SetId,
)
    requires
        call_ensures(
            Demuxer::send,
            (demuxer, scid, payload, senders, receiver, attachments, outcomes, mailboxes),
            outcome,
        ),
    ensures
        handled_in(
            true,
            old(demuxer)@,
            old(mailboxes)@,
            MultiMessage::Data(scid, payload, *senders, attachments),
            receiver,
            outcomes@,
            outcome,
            final(demuxer)@,
            final(mailboxes)@,
        ),
{
    assert(selectable_handled(
        SelectableView { uuid: receiver, set, demuxer: old(demuxer)@ },
        old(mailboxes)@,
        MultiMessage::Data(scid, payload, *senders, attachments),
        outcomes@,
        outcome,
        SelectableView { uuid: receiver, set, demuxer: final(demuxer)@ },
        final(mailboxes)@,
    ));
}

/// When the receiver of a subchannel disconnects, some client is told of that
/// subchannel in each response, and every client in one.
pub proof fn law_every_client_is_told(
    demuxer: &Demuxer,
    scid: SubChannelId,
    responses: Vec<(ResponseSender, MultiResponse)>,
) -> (told: Seq<Uuid>)
    requires
        call_ensures(Demuxer::disconnection_responses, (demuxer, scid), responses),
    ensures
        told.no_duplicates(),
        told.len() == responses@.len(),
        forall|client: Uuid|
            #![trigger told.contains(client)]
            demuxer@.clients.contains_key(client) <==> told.contains(client),
        forall|k: int|
            #![trigger responses@[k]]
            0 <= k < responses@.len() ==> responses@[k].0 == demuxer@.clients[told[k]]
                && responses@[k].1 == MultiResponse::SubReceiverDisconnected(scid),
{
    law_each_client_is_told_once(demuxer@.clients, scid, responses@)
}

/// A receive that is only done if it can be is done if and only if its receiving
/// end says that it can be, and otherwise leaves all as it was. What it does
/// then is what the receive does.
pub proof fn law_checked_receive_is_done_if_it_can_be(
    asked: &MultiReceiver,
    event: ReceiveEvent,
    can: bool,
    tried: &mut MultiReceiver,
    tried_boxes: &mut SubChannelMailboxes,
    try_outcome: Option<(TryReceiveError, Vec<Effect>)>,
    timed: &mut MultiReceiver,
    lost: &LostChannels,
    timed_boxes: &mut SubChannelMailboxes,
    timed_outcome: Option<Handled>,
)
    requires
        call_ensures(MultiReceiver::can_receive, (asked, &event), can),
        *old(tried) == *asked,
        *old(timed) == *asked,
        call_ensures(
            MultiReceiver::checked_try_recv,
            (tried, event, tried_boxes),
            try_outcome,
        ),
        call_ensures(
            MultiReceiver::checked_try_recv_timeout,
            (timed, event, lost, timed_boxes),
            timed_outcome,
        ),
    ensures
        try_outcome is Some <==> can,
        timed_outcome is Some <==> can,
        event !is Message ==> can,
        !can ==> {
            &&& final(tried)@ == old(tried)@
            &&& final(tried_boxes)@ == old(tried_boxes)@
            &&& final(timed)@ == old(timed)@
            &&& final(timed_boxes)@ == old(timed_boxes)@
        },
        event is Empty ==> (try_outcome matches Some(outcome) && outcome.0 is Empty
            && outcome.1@.len() == 0),
        event is Empty ==> (timed_outcome matches Some(outcome) && is_quiet(outcome)),
        event matches ReceiveEvent::Message(message, outcomes) ==> (timed_outcome matches Some(
            outcome,
        ) ==> handled_at(
            old(timed)@.demuxer,
            old(timed_boxes)@,
            message,
            old(timed)@.uuid,
            outcomes@,
            outcome,
            final(timed)@.demuxer,
            final(timed_boxes)@,
        )),
        event matches ReceiveEvent::Message(message, outcomes) ==> (try_outcome matches Some(
            outcome,
        ) ==> exists|handled: Handled|
            {
                &&& #[trigger] handled_at(
                    old(tried)@.demuxer,
                    old(tried_boxes)@,
                    message,
                    old(tried)@.uuid,
                    outcomes@,
                    handled,
                    final(tried)@.demuxer,
                    final(tried_boxes)@,
                )
                &&& outcome.1@ == handled.effects@
                &&& handled.result is Ok ==> outcome.0 is Handled
                &&& handled.result matches Err(e) ==> outcome.0 == TryReceiveError::MuxError(e)
            }),
{
    match event {
        ReceiveEvent::Message(message, outcomes) => {
            if try_outcome is Some {
                let outcome = try_outcome->0;
                let handled = choose|handled: Handled|
                    {
                        &&& #[trigger] receiver_handled(
                            old(tried)@,
                            old(tried_boxes)@,
                            message,
                            outcomes@,
                            handled,
                            final(tried)@,
                            final(tried_boxes)@,
                        )
                        &&& outcome.0 == match handled.result {
                            Ok(()) => TryReceiveError::Handled,
                            Err(e) => TryReceiveError::MuxError(e),
                        }
                        &&& outcome.1 == handled.effects
                    };
                assert(handled_at(
                    old(tried)@.demuxer,
                    old(tried_boxes)@,
                    message,
                    old(tried)@.uuid,
                    outcomes@,
                    handled,
                    final(tried)@.demuxer,
                    final(tried_boxes)@,
                ));
            }
        },
        _ => {},
    }
}

/// A one-shot server that checks the first message accepts a client that
/// connects without senders that have to be connected, and then knows that
/// client only. It accepts no client with outcomes that nothing asked for.
pub proof fn law_checking_server_knows_its_client(
    sender: ResponseSender,
    client: ClientId,
    outcomes: VecDeque<Result<Connection, MuxError>>,
    mailboxes: &mut SubChannelMailboxes,
    accepted: Option<(Result<MultiReceiver, MuxError>, Vec<Effect>)>,
)
    requires
        call_ensures(
            OneShotMultiServer::checked_accept,
            (MultiMessage::Connect(sender, client), outcomes, mailboxes),
            accepted,
        ),
    ensures
        accepted is Some <==> outcomes@.len() == 0,
        accepted matches Some(accepted) ==> {
            &&& accepted.0 matches Ok(end)
            &&& forall|other: Uuid| #[trigger]
                end@.demuxer.clients.contains_key(other) <==> other == client.0
            &&& end@.demuxer.clients[client.0] == sender
            &&& accepted.1@.len() == 0
        },
        final(mailboxes)@ == old(mailboxes)@,
{
    let none = named_in(MultiMessage::Connect(sender, client));
    assert(none.len() == 0);
    assert(to_connect(Set::empty(), none).len() == 0);
}

/// A message for a subchannel is about that subchannel, and nothing else that is
/// received is about one.
pub proof fn law_only_data_is_about_a_subchannel(
    event: &ReceiveEvent,
    about: Option<SubChannelId>,
    error: &TryReceiveError,
    text: String,
)
    requires
        call_ensures(ReceiveEvent::about, (event,), about),
        call_ensures(TryReceiveError::to_string, (error,), text),
    ensures
        about matches Some(scid) ==> (*event matches ReceiveEvent::Message(message, _)
            && message matches MultiMessage::Data(own, _, _, _) && own == scid),
        *event matches ReceiveEvent::Message(message, _) ==> (message is Data ==> about is Some),
        *error is Empty ==> text@ == "TryRecvError::Empty"@,
        *error is Handled ==> text@ == "TryRecvError::Handled"@,
        *error matches TryReceiveError::MuxError(e) ==> text@ == "TryRecvError::MuxError("@
            + e@.text() + ")"@,
{
}

/// A message that was found in a mailbox comes apart into what it was put
/// together from.
pub proof fn law_message_comes_apart(
    message: ResolvedMessage,
    parts: (
        SubChannelId,
        Vec<u8>,
        VecDeque<ProtoSender>,
        Vec<IpcSharedMemory>,
        Vec<OpaqueIpcSender>,
        Vec<OpaqueIpcReceiver>,
    ),
)
    requires
        call_ensures(ResolvedMessage::into_parts, (message,), parts),
    ensures
        parts.0 == message.scid,
        parts.1@ == message.payload@,
        parts.2@ == message.senders@,
        parts.3@ == message.attachments.shmems@,
        parts.4@ == message.attachments.ipc_senders@,
        parts.5@ == message.attachments.ipc_receivers@,
{
}

/// Nothing is kept for decoding at first. What is established for a message are
/// its subsenders and its subchannel, and what is cleared is gone. In either
/// case each subsender that was left is let go of, and what came beside the
/// message stays.
pub proof fn law_left_subsenders_are_let_go(
    created: DeserializationContext,
    established: &mut DeserializationContext,
    senders: VecDeque<ProtoSender>,
    via: SubChannelId,
    let_go: Vec<Effect>,
    cleared: &mut DeserializationContext,
    let_go_then: Vec<Effect>,
)
    requires
        call_ensures(DeserializationContext::new, (), created),
        call_ensures(establish_deserialization_context, (established, senders, via), let_go),
        call_ensures(clear_deserialization_context, (cleared,), let_go_then),
    ensures
        created.senders@.len() == 0,
        created.via.0 == EMPTY_SUBCHANNEL_ID,
        created.regions@.len() == 0,
        created.ipc_senders@.len() == 0,
        created.ipc_receivers@.len() == 0,
        final(established).senders@ == senders@,
        final(established).via == via,
        final(established).regions@ == old(established).regions@,
        final(established).ipc_senders@ == old(established).ipc_senders@,
        final(established).ipc_receivers@ == old(established).ipc_receivers@,
        let_go@.len() == old(established).senders@.len(),
        forall|i: int|
            #![trigger let_go@[i]]
            0 <= i < let_go@.len() ==> let_go@[i] == Effect::Release(
                old(established).senders@[i].disconnector,
            ),
        final(cleared).senders@.len() == 0,
        final(cleared).via.0 == EMPTY_SUBCHANNEL_ID,
        final(cleared).regions@ == old(cleared).regions@,
        final(cleared).ipc_senders@ == old(cleared).ipc_senders@,
        final(cleared).ipc_receivers@ == old(cleared).ipc_receivers@,
        let_go_then@.len() == old(cleared).senders@.len(),
        forall|i: int|
            #![trigger let_go_then@[i]]
            0 <= i < let_go_then@.len() ==> let_go_then@[i] == Effect::Release(
                old(cleared).senders@[i].disconnector,
            ),
{
}

/// Nothing is kept for encoding at first. The subsenders that were kept can be
/// taken, in order, or forgotten, and are then gone. What goes beside the message
/// stays.
pub proof fn law_kept_subsenders_are_taken(
    created: SerializationContext,
    taken: &mut SerializationContext,
    senders: Vec<SerializedSenderContext>,
    cleared: &mut SerializationContext,
)
    requires
        call_ensures(SerializationContext::new, (), created),
        call_ensures(take_serialization_context, (taken,), senders),
        call_ensures(clear_serialization_context, (cleared,), ()),
    ensures
        created.senders@.len() == 0,
        created.regions@.len() == 0,
        created.ipc_senders@.len() == 0,
        created.ipc_receivers@.len() == 0,
        senders@.len() == old(taken).senders@.len(),
        forall|i: int|
            #![trigger senders@[i]]
            0 <= i < senders@.len() ==> senders@[i] == old(taken).senders@[i],
        final(taken).senders@.len() == 0,
        final(taken).regions@ == old(taken).regions@,
        final(taken).ipc_senders@ == old(taken).ipc_senders@,
        final(taken).ipc_receivers@ == old(taken).ipc_receivers@,
        final(cleared).senders@.len() == 0,
        final(cleared).regions@ == old(cleared).regions@,
        final(cleared).ipc_senders@ == old(cleared).ipc_senders@,
        final(cleared).ipc_receivers@ == old(cleared).ipc_receivers@,
{
}

/// What is kept beside a message for encoding or decoding is forgotten when it
/// is cleared.
pub proof fn law_cleared_captures_are_forgotten(
    captured_senders: &mut CapturedSenders,
    captured_receivers: &mut CapturedReceivers,
    captured_regions: &mut CapturedRegions,
    arrived_senders: &mut ArrivedSenders,
    arrived_receivers: &mut ArrivedReceivers,
    arrived_regions: &mut ArrivedRegions,
)
    requires
        call_ensures(clear_ipc_sender_serialization_context, (captured_senders,), ()),
        call_ensures(clear_ipc_receiver_serialization_context, (captured_receivers,), ()),
        call_ensures(clear_shmem_serialization_context, (captured_regions,), ()),
        call_ensures(clear_ipc_sender_deserialization_context, (arrived_senders,), ()),
        call_ensures(clear_ipc_receiver_deserialization_context, (arrived_receivers,), ()),
        call_ensures(clear_shmem_deserialization_context, (arrived_regions,), ()),
    ensures
        final(captured_senders)@.len() == 0,
        final(captured_receivers)@.len() == 0,
        final(captured_regions)@.len() == 0,
        final(arrived_senders)@.len() == 0,
        final(arrived_receivers)@.len() == 0,
        final(arrived_regions)@.len() == 0,
{
}

/// A region of shared memory holds the bytes that it was made from. An edited
/// one can be taken, and what is taken are its bytes.
pub proof fn law_region_holds_its_bytes(
    bytes: &[u8],
    copied: SharedMemory,
    byte: u8,
    length: usize,
    filled: SharedMemory,
    memory: SharedMemory,
    taken: Option<Vec<u8>>,
)
    requires
        call_ensures(SharedMemory::from_bytes, (bytes,), copied),
        call_ensures(SharedMemory::from_byte, (byte, length), filled),
        call_ensures(SharedMemory::take, (memory,), taken),
    ensures
        copied@.len() == bytes@.len(),
        forall|i: int| #![trigger copied@[i]] 0 <= i < bytes@.len() ==> copied@[i] == bytes@[i],
        filled@.len() == length,
        forall|i: int| #![trigger filled@[i]] 0 <= i < length ==> filled@[i] == byte,
        taken matches Some(held) ==> held@ == memory@,
        memory.is_edited() || memory@.len() == 0 ==> taken is Some,
{
}

/// A disconnector is for the subchannel, the IPC sender and the place that it
/// was made for. The last holder who lets go of one gets what it was.
pub proof fn law_disconnector_is_what_it_was_made_for(
    scid: SubChannelId,
    ipc_sender: Arc<ForwardSender>,
    source: Uuid,
    multi_sender: MultiSenderId,
    created: SubChannelDisconnector,
    held: Arc<SubChannelDisconnector>,
    last: Option<SubChannelDisconnector>,
)
    requires
        call_ensures(
            SubChannelDisconnector::new,
            (scid, ipc_sender, source, multi_sender),
            created,
        ),
        call_ensures(SubChannelDisconnector::release, (held,), last),
    ensures
        created.sub_channel_id == scid,
        created.ipc_sender == ipc_sender,
        created.source == source,
        created.multi_sender == multi_sender,
        last matches Some(disconnector) ==> {
            &&& disconnector.sub_channel_id == held.sub_channel_id
            &&& disconnector.ipc_sender == held.ipc_sender
            &&& disconnector.source == held.source
            &&& disconnector.multi_sender == held.multi_sender
        },
{
}

/// A subsender that was received is for the given subchannel, sends over the
/// given IPC sender, and has a source of its own.
pub proof fn law_received_subsender_has_its_own_source(
    scid: SubChannelId,
    ipc_sender: Arc<ForwardSender>,
    disconnector: Arc<SubChannelDisconnector>,
    uuid: Uuid,
    multi_sender: MultiSenderId,
    sources: &mut SourceTable,
    sender: SubChannelSender,
)
    requires
        call_ensures(
            SubChannelSender::from_deserialized,
            (scid, ipc_sender, disconnector, uuid, multi_sender, sources),
            sender,
        ),
    ensures
        sender.sub_channel_id == scid,
        sender.ipc_sender == ipc_sender,
        sender.disconnector == disconnector,
        sender.ipc_sender_uuid == uuid,
        sender.multi_sender == multi_sender,
        has_new_source(sender.sender_id, old(sources)@, final(sources)@),
{
}

/// A source remembers the IPC sender that it sends, and no other source does. It
/// takes a sender to have been sent before only if it remembers it. There are no
/// sources at first.
pub(crate) proof fn law_source_remembers_what_it_sends(
    created: SourceTable,
    sources: &mut SourceTable,
    id: SourceId,
    sender: &Arc<ForwardSender>,
    already_sent: bool,
    other: SourceId,
)
    requires
        call_ensures(SourceTable::new, (), created),
        call_ensures(SourceTable::insert, (sources, id, sender), already_sent),
    ensures
        !created@.contains_key(other),
        final(sources)@.contains_key(other) == old(sources)@.contains_key(other),
        other != id && old(sources)@.contains_key(other) ==> final(sources)@[other]
            == old(sources)@[other],
        old(sources)@.contains_key(id) ==> forall|handle: u64| #[trigger]
            final(sources)@[id].contains(handle) <==> old(sources)@[id].contains(handle) || handle
                == sender.handle,
        already_sent ==> old(sources)@.contains_key(id) && old(sources)@[id].contains(
            sender.handle,
        ),
{
}

/// A sending end tells its UUID and its client.
pub proof fn law_sender_tells_who_it_is(
    sender: &MultiSender,
    uuid: Uuid,
    client: ClientId,
)
    requires
        call_ensures(MultiSender::uuid, (sender,), uuid),
        call_ensures(MultiSender::client_id, (sender,), client),
    ensures
        uuid == sender@.uuid,
        client == sender@.client_id,
{
}

/// The id of a subchannel that is encoded as text is decoded as the same id, and
/// it is shown as that text. A text that is no UUID is refused, with the reason.
pub proof fn law_subchannel_id_is_decoded_as_itself(
    id: &SubChannelId,
    text: String,
    shown: String,
    content: &str,
    decoded: Result<SubChannelId, String>,
)
    requires
        call_ensures(SubChannelId::serialize, (id,), text),
        call_ensures(SubChannelId::to_string, (id,), shown),
        call_ensures(SubChannelId::deserialize, (content,), decoded),
    ensures
        shown@ == text@,
        content@ == text@ ==> (decoded matches Ok(same) && same.0 == id.0),
        decoded is Ok <==> parsed_uuid(content@) is Ok,
        decoded matches Err(e) ==> parsed_uuid(content@) == Err::<Uuid, Seq<char>>(e@),
{
}

/// What a message holds of a subsender are the ids that it was given.
pub proof fn law_ids_are_what_they_were_given(
    scid: SubChannelId,
    text: String,
    ids: SubChannelSenderIds,
    told: SubChannelId,
)
    requires
        call_ensures(SubChannelSenderIds::new, (scid, text), ids),
        call_ensures(SubChannelSenderIds::sub_channel_id, (&ids,), told),
    ensures
        ids.sub_channel_id == scid,
        ids.ipc_sender_uuid == text,
        told == scid,
{
}

/// The sending end of a subchannel stays the same, whatever messages it is taken
/// to be for, and so does a copy of it.
pub proof fn law_sending_end_stays_the_same<T, U>(
    sender: SubChannelSender,
    typed: SubSender<T>,
    opaque: OpaqueSubSender,
    other: SubSender<U>,
    bytes: BytesSubSender,
    made: BytesSubSender,
    made_opaque: OpaqueSubSender,
    copy: SubSender<T>,
    bytes_copy: BytesSubSender,
)
    requires
        call_ensures(SubSender::<T>::from_sender, (sender,), typed),
        call_ensures(SubSender::<T>::to_opaque, (typed,), opaque),
        call_ensures(OpaqueSubSender::to::<U>, (opaque,), other),
        call_ensures(OpaqueSubSender::to_bytes, (opaque,), bytes),
        call_ensures(BytesSubSender::from_sender, (sender,), made),
        call_ensures(BytesSubSender::to_opaque, (made,), made_opaque),
        call_ensures(SubSender::<T>::clone, (&typed,), copy),
        call_ensures(BytesSubSender::clone, (&made,), bytes_copy),
    ensures
        other.sub_channel_sender == sender,
        bytes.sub_channel_sender == sender,
        made_opaque.sub_channel_sender == sender,
        copy.sub_channel_sender == sender,
        bytes_copy.sub_channel_sender == sender,
{
}

/// The receiving end of a subchannel stays the same, whatever messages it is
/// taken to be for.
pub proof fn law_receiving_end_stays_the_same<T, U>(
    receiver: SubChannelReceiver,
    typed: SubReceiver<T>,
    opaque: OpaqueSubReceiver,
    other: SubReceiver<U>,
    bytes: BytesSubReceiver,
    made: BytesSubReceiver,
    made_opaque: OpaqueSubReceiver,
)
    requires
        call_ensures(SubReceiver::<T>::from_receiver, (receiver,), typed),
        call_ensures(SubReceiver::<T>::to_opaque, (typed,), opaque),
        call_ensures(OpaqueSubReceiver::to::<U>, (opaque,), other),
        call_ensures(OpaqueSubReceiver::to_bytes, (opaque,), bytes),
        call_ensures(BytesSubReceiver::from_receiver, (receiver,), made),
        call_ensures(BytesSubReceiver::to_opaque, (made,), made_opaque),
    ensures
        other.sub_channel_receiver == receiver,
        bytes.sub_channel_receiver == receiver,
        made_opaque.sub_channel_receiver == receiver,
{
}

/// A typed sending end sends a message as its subchannel's sending end does: over
/// its channel, to its subchannel, with the bytes and the subsenders kept for it.
pub proof fn law_typed_sender_sends_over_its_subchannel<T>(
    sender: &SubSender<T>,
    payload: Vec<u8>,
    context: &mut SerializationContext,
    sources: &mut SourceTable,
    plan: SendPlan,
)
    requires
        call_ensures(SubSender::<T>::send, (sender, payload, context, sources), plan),
    ensures
        plan.data.to == sender.sub_channel_sender.ipc_sender,
        plan.data.message matches MultiMessage::Data(scid, bytes, senders, beside) && {
            &&& scid == sender.sub_channel_sender.sub_channel_id
            &&& bytes == payload
            &&& beside.shmems@ == old(context).regions@
            &&& beside.ipc_senders@ == old(context).ipc_senders@
            &&& beside.ipc_receivers@ == old(context).ipc_receivers@
            &&& senders@.len() == old(context).senders@.len()
            &&& forall|i: int|
                #![trigger senders@[i]]
                0 <= i < senders@.len() ==> senders@[i].0 == old(context).senders@[i].sub_channel_id
        },
        plan.notifications@.len() == old(context).senders@.len(),
        final(context).senders@.len() == 0,
        final(context).regions@.len() == 0,
        final(context).ipc_senders@.len() == 0,
        final(context).ipc_receivers@.len() == 0,
{
}

/// A sending end tells the IPC sender and, unless the channel is known to be
/// disconnected, where responses arrive, a sending end of a subchannel the
/// subchannel, and a receiving end what it knows.
pub proof fn law_ends_tell_what_they_hold(
    sender: &MultiSender,
    ipc_sender: Arc<ForwardSender>,
    responses: Option<ResponseReceiver>,
    subsender: &SubChannelSender,
    scid: SubChannelId,
    end: &MultiReceiver,
    demuxer: &Demuxer,
)
    requires
        call_ensures(MultiSender::clone_ipc_sender, (sender,), ipc_sender),
        call_ensures(MultiSender::responses, (sender,), responses),
        call_ensures(SubChannelSender::sub_channel_id, (subsender,), scid),
        call_ensures(MultiReceiver::demuxer, (end,), demuxer),
    ensures
        ipc_sender.handle == sender@.ipc_sender.handle,
        sender@.disconnected ==> responses is None,
        !sender@.disconnected ==> responses == sender@.response_receiver,
        scid == subsender.sub_channel_id,
        demuxer@ == end@.demuxer,
{
}

/// A subsender that connects to a one-shot server sends over the channel to it,
/// tells of the drop of its last copy as the source where it was created, and
/// announces its subchannel under the given name.
pub proof fn law_connecting_subsender_announces_itself<T>(
    channel: &MultiSender,
    id: MultiSenderId,
    name: String,
    connected: (SubSender<T>, Outgoing),
)
    requires
        call_ensures(SubSender::<T>::connect, (channel, id, name), connected),
    ensures
        ({
            let sender = connected.0.sub_channel_sender;
            &&& *sender.ipc_sender == channel@.ipc_sender
            &&& sender.ipc_sender_uuid == channel@.uuid
            &&& sender.sender_id == channel@.sender_id
            &&& sender.multi_sender == id
            &&& sender.disconnector.sub_channel_id == sender.sub_channel_id
            &&& *sender.disconnector.ipc_sender == channel@.ipc_sender
            &&& sender.disconnector.source == ORIGIN
            &&& *connected.1.to == channel@.ipc_sender
            &&& connected.1.message == MultiMessage::SubChannelId(sender.sub_channel_id, name)
        }),
{
}

/// What is captured is kept in order, and found again at its index. It can be
/// taken, or forgotten, and is then gone. What arrived can be claimed at its
/// index.
pub proof fn law_captured_things_are_kept_in_order<H>(
    created: Captured<H>,
    captured: &mut Captured<H>,
    item: H,
    index: usize,
    taken_from: &mut Captured<H>,
    taken: Vec<H>,
    cleared: &mut Captured<H>,
    none: Arrived<H>,
    set: &mut Arrived<H>,
    items: Vec<H>,
    forgotten: &mut Arrived<H>,
)
    requires
        call_ensures(Captured::<H>::new, (), created),
        call_ensures(Captured::<H>::capture, (captured, item), index),
        call_ensures(Captured::<H>::take, (taken_from,), taken),
        call_ensures(Captured::<H>::clear, (cleared,), ()),
        call_ensures(Arrived::<H>::new, (), none),
        call_ensures(Arrived::<H>::set, (set, items), ()),
        call_ensures(Arrived::<H>::clear, (forgotten,), ()),
    ensures
        created@.len() == 0,
        final(captured)@.len() == old(captured)@.len() + 1,
        final(captured)@[index as int] == item,
        forall|i: int|
            #![trigger final(captured)@[i]]
            0 <= i < old(captured)@.len() ==> i != index && final(captured)@[i] == old(
                captured,
            )@[i],
        taken@.len() == old(taken_from)@.len(),
        forall|i: int|
            #![trigger taken@[i]]
            0 <= i < taken@.len() ==> taken@[i] == old(taken_from)@[i],
        final(taken_from)@.len() == 0,
        final(cleared)@.len() == 0,
        none@.len() == 0,
        final(set)@.len() == items@.len(),
        forall|i: int|
            #![trigger final(set)@[i]]
            0 <= i < items@.len() ==> final(set)@[i] == Some(items@[i]),
        final(forgotten)@.len() == 0,
{
}

/// A text is read as the UUID that it stands for, and one that stands for none
/// is refused, with the reason.
pub proof fn law_unreadable_uuid_is_refused(text: &str, parsed: Result<Uuid, String>)
    requires
        call_ensures(parse_uuid, (text,), parsed),
    ensures
        parsed is Ok <==> parsed_uuid(text@) is Ok,
        parsed matches Ok(uuid) ==> parsed_uuid(text@) == Ok::<Uuid, Seq<char>>(uuid),
        parsed matches Err(e) ==> (parsed_uuid(text@) matches Err(reason) && e@
            == "invalid UUID: "@ + reason),
{
}

} // verus!
