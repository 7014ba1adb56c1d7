//! What each kind of message and a receive do at receiving ends that can be
//! sent, and what goes beside a message.

use crate::multiplex::channel::{
    multi_channel, Channel, OneShotMultiServer, SubOneShotServer, SubReceiver, SubSender,
};
use crate::multiplex::channel_identification::Target;
use crate::multiplex::counted::laws::loses_sender;
use crate::multiplex::counted::sending::{is_sent_by, lemma_sources_after};
use crate::multiplex::error::{MultiplexError, MultiplexErrorView};
use crate::multiplex::protocol::{
    ClientId, ForwardReceiver, IpcReceiverAndOrId, MultiMessage, MultiResponse,
    SubChannelReceiverIds,
};
use crate::multiplex::receiver::{
    handles, message_handled, payload_sorted, receivers_resolved, sender_resolved,
    senders_resolved, Grid, Mail, MultiReceiver, MultiReceiverView, PayloadMailboxes, PayloadMap,
    ReceptionContext, RecvOutcome, RecvStep, SubChannelReceiver,
};
use crate::multiplex::sender::{
    sources_after, MultiSender, Outgoing, SubChannelSender, TransmissionContext,
};
use crate::mux::error::IpcError;
use crate::mux::mailbox::MailboxId;
use crate::mux::protocol::{
    IpcSenderAndOrId, ResponseSender, SubChannelId, SubChannelSenderIds,
};
use crate::mux::sender::{SourceId, SourceTable};
use crate::mux::sender_id::ForwardSender;
use crate::mux::sending::{has_new_source, is_name};
use crate::mux::sorting::text_of;
use crate::mux::text::quoted;
use crate::mux::uuids::{hyphenated, parsed_uuid, Uuid};
use std::sync::Arc;
use vstd::prelude::*;

verus! {

/// Nothing is known differently at any receiving end but the given one.
pub open spec fn others_stay(
    grid: Map<Uuid, MultiReceiverView>,
    receiver: Uuid,
    grid_after: Map<Uuid, MultiReceiverView>,
) -> bool {
    forall|other: Uuid|
        #![trigger grid.contains_key(other)]
        #![trigger grid_after.contains_key(other)]
        other != receiver ==> {
            &&& grid_after.contains_key(other) == grid.contains_key(other)
            &&& grid.contains_key(other) ==> grid_after[other] == grid[other]
        }
}

/// A message that arrives at a receiving end is handled, and a failure to
/// receive is passed on and changes nothing.
pub proof fn law_receiving_end_handles(
    handling: &mut Grid,
    grid: &mut Grid,
    receiver: Uuid,
    message: MultiMessage,
    received: Result<MultiMessage, IpcError>,
    answered: Result<(), IpcError>,
    handling_context: &mut ReceptionContext,
    handling_boxes: &mut PayloadMailboxes,
    context: &mut ReceptionContext,
    mailboxes: &mut PayloadMailboxes,
    handled: Result<(), MultiplexError>,
    result: Result<(), MultiplexError>,
)
    requires
        call_ensures(
            Grid::handle,
            (handling, receiver, message, answered, handling_context, handling_boxes),
            handled,
        ),
        call_ensures(
            Grid::receive,
            (grid, receiver, received, answered, context, mailboxes),
            result,
        ),
    ensures
        message_handled(
            old(handling)@,
            old(handling_boxes)@,
            *old(handling_context),
            receiver,
            message,
            answered,
            handled,
            final(handling)@,
            final(handling_boxes)@,
            *final(handling_context),
        ),
        received matches Ok(arrived) ==> message_handled(
            old(grid)@,
            old(mailboxes)@,
            *old(context),
            receiver,
            arrived,
            answered,
            result,
            final(grid)@,
            final(mailboxes)@,
            *final(context),
        ),
        received matches Err(e) ==> {
            &&& result == Err::<(), MultiplexError>(MultiplexError::IpcError(e))
            &&& final(grid)@ == old(grid)@
            &&& final(mailboxes)@ == old(mailboxes)@
            &&& *final(context) == *old(context)
        },
{
}

/// A client that asks for an id is answered, at the sender for responses that
/// came along, by the id after the one that was last given. No other message is
/// answered.
pub proof fn law_client_is_given_the_next_id(
    grid: &Grid,
    receiver: Uuid,
    message: &MultiMessage,
    answer: Option<(ResponseSender, MultiResponse)>,
)
    requires
        call_ensures(Grid::answer, (grid, receiver, message), answer),
        grid@[receiver].next_client_id < ClientId::MAX,
    ensures
        answer is Some <==> *message is Connect,
        *message matches MultiMessage::Connect(sender) ==> (answer matches Some((to, response))
            && to == sender && (response matches MultiResponse::ClientId(id) && id
            == grid@[receiver].next_client_id + 1)),
{
}

/// A client that was given an id is known under it, with its sender for
/// responses, and all that were known before stay. One that could not be
/// answered is not known. Its id is given to no other client in either case.
pub proof fn law_connecting_client_is_known(
    grid: Map<Uuid, MultiReceiverView>,
    boxes: PayloadMap,
    context: ReceptionContext,
    receiver: Uuid,
    sender: ResponseSender,
    answered: Result<(), IpcError>,
    result: Result<(), MultiplexError>,
    grid_after: Map<Uuid, MultiReceiverView>,
    boxes_after: PayloadMap,
    context_after: ReceptionContext,
)
    requires
        message_handled(
            grid,
            boxes,
            context,
            receiver,
            MultiMessage::Connect(sender),
            answered,
            result,
            grid_after,
            boxes_after,
            context_after,
        ),
        grid.contains_key(receiver),
        grid[receiver].next_client_id < ClientId::MAX,
    ensures
        result is Ok <==> answered is Ok,
        answered matches Err(e) ==> result == Err::<(), MultiplexError>(
            MultiplexError::IpcError(e),
        ),
        boxes_after == boxes,
        context_after == context,
        others_stay(grid, receiver, grid_after),
        grid_after.contains_key(receiver),
        ({
            let was = grid[receiver];
            let now = grid_after[receiver];
            let id = was.next_client_id + 1;
            &&& now.next_client_id == id
            &&& now.ipc_receiver == was.ipc_receiver
            &&& now.sub_channels == was.sub_channels
            &&& now.senders == was.senders
            &&& answered is Ok ==> {
                &&& now.clients.contains_key(id as ClientId)
                &&& now.clients[id as ClientId] == sender
                &&& forall|other: ClientId|
                    #![trigger was.clients.contains_key(other)]
                    #![trigger now.clients.contains_key(other)]
                    other != id ==> {
                        &&& now.clients.contains_key(other) == was.clients.contains_key(other)
                        &&& was.clients.contains_key(other) ==> now.clients[other]
                            == was.clients[other]
                    }
            }
            &&& answered is Err ==> now.clients == was.clients
        }),
{
}

/// A subchannel that is disconnected is forgotten, with no other one, and its
/// mailbox loses the sender, so that its receiver learns of it once it has
/// received all messages. Nothing else changes.
pub proof fn law_disconnected_subchannel_is_forgotten(
    grid: Map<Uuid, MultiReceiverView>,
    boxes: PayloadMap,
    context: ReceptionContext,
    receiver: Uuid,
    scid: SubChannelId,
    answered: Result<(), IpcError>,
    result: Result<(), MultiplexError>,
    grid_after: Map<Uuid, MultiReceiverView>,
    boxes_after: PayloadMap,
    context_after: ReceptionContext,
)
    requires
        message_handled(
            grid,
            boxes,
            context,
            receiver,
            MultiMessage::Disconnect(scid),
            answered,
            result,
            grid_after,
            boxes_after,
            context_after,
        ),
        grid.contains_key(receiver),
    ensures
        result is Ok,
        context_after == context,
        others_stay(grid, receiver, grid_after),
        grid_after.contains_key(receiver),
        ({
            let was = grid[receiver];
            let now = grid_after[receiver];
            &&& now.ipc_receiver == was.ipc_receiver
            &&& now.clients == was.clients
            &&& now.next_client_id == was.next_client_id
            &&& now.senders == was.senders
            &&& !now.sub_channels.contains_key(scid.0)
            &&& forall|other: Uuid|
                #![trigger was.sub_channels.contains_key(other)]
                #![trigger now.sub_channels.contains_key(other)]
                other != scid.0 ==> {
                    &&& now.sub_channels.contains_key(other) == was.sub_channels.contains_key(other)
                    &&& was.sub_channels.contains_key(other) ==> now.sub_channels[other]
                        == was.sub_channels[other]
                }
            &&& was.sub_channels.contains_key(scid.0) ==> loses_sender(
                boxes,
                was.sub_channels[scid.0],
                boxes_after,
            )
            &&& !was.sub_channels.contains_key(scid.0) ==> boxes_after == boxes
        }),
{
}

/// An announcement that does not come to a one-shot server is an error that
/// tells what it was, and changes nothing.
pub proof fn law_late_announcement_is_an_error(
    grid: Map<Uuid, MultiReceiverView>,
    boxes: PayloadMap,
    context: ReceptionContext,
    receiver: Uuid,
    scid: SubChannelId,
    name: String,
    answered: Result<(), IpcError>,
    result: Result<(), MultiplexError>,
    grid_after: Map<Uuid, MultiReceiverView>,
    boxes_after: PayloadMap,
    context_after: ReceptionContext,
)
    requires
        message_handled(
            grid,
            boxes,
            context,
            receiver,
            MultiMessage::SubChannelId(scid, name),
            answered,
            result,
            grid_after,
            boxes_after,
            context_after,
        ),
    ensures
        result matches Err(e) && e@ == MultiplexErrorView::InternalError(
            "unexpected multi message SubChannelId(SubChannelId("@ + hyphenated(scid.0) + "), "@
                + quoted(name@) + ")"@,
        ),
        grid_after == grid,
        boxes_after == boxes,
        context_after == context,
{
}

/// A sender under a UUID that is known after the first names in a message have
/// been resolved was known before, or came with one of those names.
pub open spec fn comes_from(
    senders: Map<Uuid, u64>,
    named: Seq<IpcSenderAndOrId>,
    n: int,
    uuid: Uuid,
    handle: u64,
) -> bool {
    ||| senders.contains_pair(uuid, handle)
    ||| exists|j: int|
        {
            &&& 0 <= j < n
            &&& (#[trigger] named[j]) is IpcSender
            &&& parsed_uuid(text_of(named[j])) == Ok::<Uuid, Seq<char>>(uuid)
            &&& named[j]->IpcSender_0.handle == handle
        }
}

/// What a name that could be resolved stands for: the sender that came with it,
/// or one that is known under its UUID.
pub open spec fn name_means(
    senders: Map<Uuid, u64>,
    named: Seq<IpcSenderAndOrId>,
    i: int,
    handle: u64,
) -> bool {
    &&& parsed_uuid(text_of(named[i])) is Ok
    &&& if named[i] is IpcSender {
        named[i]->IpcSender_0.handle == handle
    } else {
        comes_from(senders, named, i, parsed_uuid(text_of(named[i]))->Ok_0, handle)
    }
}

/// A name of an IPC sender cannot be resolved, for the given reason: its text is
/// no UUID, or it stands for a sender that is gone.
pub open spec fn name_fails(
    named: Seq<IpcSenderAndOrId>,
    i: int,
    reason: MultiplexErrorView,
) -> bool {
    match parsed_uuid(text_of(named[i])) {
        Ok(_) => named[i] is IpcSenderId && reason == MultiplexErrorView::Disconnected,
        Err(text) => reason == MultiplexErrorView::InternalError("invalid UUID: "@ + text),
    }
}

proof fn lemma_resolving(
    senders: Map<Uuid, u64>,
    named: Seq<IpcSenderAndOrId>,
    steps: Seq<Map<Uuid, u64>>,
    found: Seq<u64>,
    error: Option<MultiplexErrorView>,
    n: int,
)
    requires
        senders_resolved(named, steps, found, error),
        steps[0] == senders,
        0 <= n <= found.len(),
    ensures
        forall|uuid: Uuid|
            #![trigger steps[n].contains_key(uuid)]
            steps[n].contains_key(uuid) ==> comes_from(senders, named, n, uuid, steps[n][uuid]),
        forall|uuid: Uuid|
            #![trigger steps[n].contains_key(uuid)]
            senders.contains_key(uuid) ==> steps[n].contains_key(uuid),
        forall|i: int|
            #![trigger found[i]]
            0 <= i < n ==> name_means(senders, named, i, found[i]),
    decreases n,
{
    if n > 0 {
        lemma_resolving(senders, named, steps, found, error, n - 1);
        let last = found[n - 1];
        let name = named[n - 1];
        let before = steps[n - 1];
        let after = steps[n - 1 + 1];
        assert(sender_resolved(before, name, after, Ok::<u64, MultiplexErrorView>(last)));
        assert forall|uuid: Uuid|
            #![trigger after.contains_key(uuid)]
            after.contains_key(uuid) implies comes_from(senders, named, n, uuid, after[uuid]) by {
            if before.contains_key(uuid) && after[uuid] == before[uuid] {
                assert(comes_from(senders, named, n - 1, uuid, before[uuid]));
                if !senders.contains_pair(uuid, before[uuid]) {
                    let j = choose|j: int|
                        {
                            &&& 0 <= j < n - 1
                            &&& (#[trigger] named[j]) is IpcSender
                            &&& parsed_uuid(text_of(named[j])) == Ok::<Uuid, Seq<char>>(uuid)
                            &&& named[j]->IpcSender_0.handle == before[uuid]
                        };
                    assert(named[j] is IpcSender);
                }
            } else {
                assert(named[n - 1] is IpcSender);
            }
        }
        assert forall|uuid: Uuid|
            #![trigger after.contains_key(uuid)]
            senders.contains_key(uuid) implies after.contains_key(uuid) by {
            assert(before.contains_key(uuid));
        }
        if name is IpcSenderId {
            assert(before.contains_key(parsed_uuid(text_of(name))->Ok_0));
        }
    }
}

/// The UUID that comes with, or stands for, an IPC receiver, as text.
pub open spec fn receiver_text(named: IpcReceiverAndOrId) -> Seq<char> {
    match named {
        IpcReceiverAndOrId::IpcReceiver(_, text) => text@,
        IpcReceiverAndOrId::IpcReceiverId(text) => text@,
    }
}

/// One of the names of IPC receivers from `from` up to `to` comes with the
/// receiver itself, under the given UUID.
pub open spec fn brings_receiver(
    named: Seq<IpcReceiverAndOrId>,
    from: int,
    to: int,
    uuid: Uuid,
) -> bool {
    exists|j: int|
        {
            &&& from <= j < to
            &&& (#[trigger] named[j]) is IpcReceiver
            &&& parsed_uuid(receiver_text(named[j])) == Ok::<Uuid, Seq<char>>(uuid)
        }
}

/// A name of an IPC receiver can be resolved: its text is a UUID, and it comes
/// with the receiver itself or stands for a receiving end that is here.
pub open spec fn receiver_resolves(
    grid: Map<Uuid, MultiReceiverView>,
    named: Seq<IpcReceiverAndOrId>,
    i: int,
) -> bool {
    match parsed_uuid(receiver_text(named[i])) {
        Ok(uuid) => named[i] is IpcReceiver || grid.contains_key(uuid) || brings_receiver(
            named,
            0,
            i,
            uuid,
        ),
        Err(_) => false,
    }
}

/// The first names of IPC receivers have been resolved: there is a new receiving
/// end, with just the IPC receiver, for each that came itself, by its UUID, and
/// all others are as they were.
pub open spec fn receivers_arrived(
    grid: Map<Uuid, MultiReceiverView>,
    named: Seq<IpcReceiverAndOrId>,
    n: int,
    grid_after: Map<Uuid, MultiReceiverView>,
) -> bool {
    &&& forall|uuid: Uuid|
        #![trigger grid_after.contains_key(uuid)]
        grid_after.contains_key(uuid) == (grid.contains_key(uuid) || brings_receiver(
            named,
            0,
            n,
            uuid,
        ))
    &&& forall|uuid: Uuid|
        #![trigger grid_after[uuid]]
        grid.contains_key(uuid) && !brings_receiver(named, 0, n, uuid) ==> grid_after[uuid]
            == grid[uuid]
    &&& forall|i: int|
        #![trigger named[i]]
        0 <= i < n && named[i] is IpcReceiver && parsed_uuid(receiver_text(named[i])) is Ok
            && !brings_receiver(named, i + 1, n, parsed_uuid(receiver_text(named[i]))->Ok_0) ==> {
            let now = grid_after[parsed_uuid(receiver_text(named[i]))->Ok_0];
            &&& now.ipc_receiver == Some(named[i]->IpcReceiver_0)
            &&& now.next_client_id == 0
            &&& forall|id: ClientId| !#[trigger] now.clients.contains_key(id)
            &&& forall|scid: Uuid| !#[trigger] now.sub_channels.contains_key(scid)
            &&& forall|uuid: Uuid| !#[trigger] now.senders.contains_key(uuid)
        }
}

proof fn lemma_brings(named: Seq<IpcReceiverAndOrId>, from: int, n: int, uuid: Uuid)
    requires
        from <= n,
        0 <= n < named.len(),
    ensures
        brings_receiver(named, from, n + 1, uuid) == (brings_receiver(named, from, n, uuid) || (
        named[n] is IpcReceiver && parsed_uuid(receiver_text(named[n])) == Ok::<Uuid, Seq<char>>(
            uuid,
        ))),
{
    if brings_receiver(named, from, n + 1, uuid) {
        let j = choose|j: int|
            {
                &&& from <= j < n + 1
                &&& (#[trigger] named[j]) is IpcReceiver
                &&& parsed_uuid(receiver_text(named[j])) == Ok::<Uuid, Seq<char>>(uuid)
            };
        if j < n {
            assert(named[j] is IpcReceiver);
        }
    }
    if brings_receiver(named, from, n, uuid) {
        let j = choose|j: int|
            {
                &&& from <= j < n
                &&& (#[trigger] named[j]) is IpcReceiver
                &&& parsed_uuid(receiver_text(named[j])) == Ok::<Uuid, Seq<char>>(uuid)
            };
        assert(named[j] is IpcReceiver);
    }
    if named[n] is IpcReceiver && parsed_uuid(receiver_text(named[n])) == Ok::<Uuid, Seq<char>>(
        uuid,
    ) {
        assert(named[n] is IpcReceiver);
    }
}

/// The names of IPC receivers in a message are resolved in order, up to the
/// first that cannot be, which is the failure: as disconnected if it stands for
/// a receiving end that is not here, and with the reason if its text is no UUID.
proof fn lemma_receivers(
    grid: Map<Uuid, MultiReceiverView>,
    named: Seq<IpcReceiverAndOrId>,
    n: int,
)
    requires
        0 <= n <= named.len(),
    ensures
        ({
            let resolved = receivers_resolved(grid, named.take(n));
            let k = resolved.found.len() as int;
            &&& k <= n
            &&& receivers_arrived(grid, named, k, resolved.grid)
            &&& forall|i: int| 0 <= i < k ==> #[trigger] receiver_resolves(grid, named, i)
            &&& forall|i: int|
                #![trigger resolved.found[i]]
                0 <= i < k ==> parsed_uuid(receiver_text(named[i])) == Ok::<Uuid, Seq<char>>(
                    resolved.found[i],
                )
            &&& resolved.error is None ==> k == n
            &&& resolved.error matches Some(e) ==> {
                &&& k < n
                &&& !receiver_resolves(grid, named, k)
                &&& match parsed_uuid(receiver_text(named[k])) {
                    Ok(_) => e == MultiplexErrorView::Disconnected,
                    Err(text) => e == MultiplexErrorView::InternalError("invalid UUID: "@ + text),
                }
            }
        }),
    decreases n,
{
    let resolved = receivers_resolved(grid, named.take(n));
    if n == 0 {
        assert forall|uuid: Uuid| !#[trigger] brings_receiver(named, 0, 0, uuid) by {}
    } else {
        lemma_receivers(grid, named, n - 1);
        assert(named.take(n).drop_last() =~= named.take(n - 1));
        assert(named.take(n).last() == named[n - 1]);
        let before = receivers_resolved(grid, named.take(n - 1));
        if before.error is None {
            let name = named[n - 1];
            assert forall|uuid: Uuid| #[trigger]
                brings_receiver(named, 0, n, uuid) == (brings_receiver(named, 0, n - 1, uuid) || (
                name is IpcReceiver && parsed_uuid(receiver_text(name)) == Ok::<Uuid, Seq<char>>(
                    uuid,
                ))) by {
                lemma_brings(named, 0, n - 1, uuid);
            }
            if resolved.error is None {
                let own = parsed_uuid(receiver_text(name))->Ok_0;
                assert(receiver_resolves(grid, named, n - 1)) by {
                    if name is IpcReceiverId {
                        assert(before.grid.contains_key(own));
                    }
                }
                assert forall|i: int|
                    #![trigger named[i]]
                    0 <= i < n && named[i] is IpcReceiver && parsed_uuid(receiver_text(named[i]))
                        is Ok && !brings_receiver(
                        named,
                        i + 1,
                        n,
                        parsed_uuid(receiver_text(named[i]))->Ok_0,
                    ) implies {
                    let now = resolved.grid[parsed_uuid(receiver_text(named[i]))->Ok_0];
                    &&& now.ipc_receiver == Some(named[i]->IpcReceiver_0)
                    &&& now.next_client_id == 0
                    &&& forall|id: ClientId| !#[trigger] now.clients.contains_key(id)
                    &&& forall|scid: Uuid| !#[trigger] now.sub_channels.contains_key(scid)
                    &&& forall|uuid: Uuid| !#[trigger] now.senders.contains_key(uuid)
                } by {
                    let uuid = parsed_uuid(receiver_text(named[i]))->Ok_0;
                    if i < n - 1 {
                        lemma_brings(named, i + 1, n - 1, uuid);
                        assert(!brings_receiver(named, i + 1, n - 1, uuid));
                    }
                }
            } else {
                assert(resolved.found == before.found);
                assert(resolved.grid == before.grid);
                assert(!receiver_resolves(grid, named, n - 1)) by {
                    if parsed_uuid(receiver_text(name)) is Ok {
                        let own = parsed_uuid(receiver_text(name))->Ok_0;
                        assert(!before.grid.contains_key(own));
                    }
                }
            }
        } else {
            assert(resolved == before);
        }
    }
}

/// What becomes of a message for a subchannel.
///
/// The IPC senders in it are resolved in order, and then the IPC receivers. If
/// one cannot be, that is the failure of the message, and no mailbox changes.
/// Otherwise they are what came beside the message, in order, each receiver that
/// came itself is a receiving end of its own, and the bytes are put in the
/// mailbox of the message's subchannel after all that it held. They are refused
/// if nobody receives from the mailbox, and as invalid if the subchannel is not
/// known.
pub proof fn law_message_is_sorted(
    grid: Map<Uuid, MultiReceiverView>,
    boxes: PayloadMap,
    context: ReceptionContext,
    receiver: Uuid,
    scid: SubChannelId,
    data: Vec<u8>,
    senders: Vec<IpcSenderAndOrId>,
    receivers: Vec<IpcReceiverAndOrId>,
    answered: Result<(), IpcError>,
    result: Result<(), MultiplexError>,
    grid_after: Map<Uuid, MultiReceiverView>,
    boxes_after: PayloadMap,
    context_after: ReceptionContext,
) -> (failed: (Option<int>, Option<int>))
    requires
        message_handled(
            grid,
            boxes,
            context,
            receiver,
            MultiMessage::Data(scid, data, senders, receivers),
            answered,
            result,
            grid_after,
            boxes_after,
            context_after,
        ),
        grid.contains_key(receiver),
    ensures
        (forall|i: int| #![trigger senders@[i]] 0 <= i < senders@.len() ==> senders@[i] is IpcSender
            && parsed_uuid(text_of(senders@[i])) is Ok) ==> failed.0 is None,
        failed.0 matches Some(i) ==> {
            &&& 0 <= i < senders@.len()
            &&& result matches Err(e)
            &&& name_fails(senders@, i, e@)
            &&& boxes_after == boxes
            &&& context_after == context
            &&& others_stay(grid, receiver, grid_after)
            &&& grid_after.contains_key(receiver)
            &&& grid_after[receiver].ipc_receiver == grid[receiver].ipc_receiver
            &&& grid_after[receiver].clients == grid[receiver].clients
            &&& grid_after[receiver].sub_channels == grid[receiver].sub_channels
        },
        failed.0 is None ==> {
            &&& failed.1 matches Some(k) ==> {
                &&& 0 <= k < receivers@.len()
                &&& !receiver_resolves(grid, receivers@, k)
                &&& forall|i: int|
                    0 <= i < k ==> #[trigger] receiver_resolves(grid, receivers@, i)
                &&& result matches Err(e)
                &&& match parsed_uuid(receiver_text(receivers@[k])) {
                    Ok(_) => e@ == MultiplexErrorView::Disconnected,
                    Err(text) => e@ == MultiplexErrorView::InternalError("invalid UUID: "@ + text),
                }
                &&& boxes_after == boxes
                &&& context_after == context
            }
            &&& failed.1 is None ==> {
                &&& forall|i: int|
                    0 <= i < receivers@.len() ==> #[trigger] receiver_resolves(
                        grid,
                        receivers@,
                        i,
                    )
                &&& receivers_arrived(
                    grid.insert(receiver, grid[receiver].with_senders(
                        grid_after[receiver].senders,
                    )),
                    receivers@,
                    receivers@.len() as int,
                    grid_after,
                ) || brings_receiver(receivers@, 0, receivers@.len() as int, receiver)
                &&& context_after.senders@.len() == senders@.len()
                &&& forall|i: int|
                    #![trigger context_after.senders@[i]]
                    0 <= i < senders@.len() ==> name_means(
                        grid[receiver].senders,
                        senders@,
                        i,
                        context_after.senders@[i].handle,
                    )
                &&& context_after.receivers@.len() == receivers@.len()
                &&& forall|i: int|
                    #![trigger context_after.receivers@[i]]
                    0 <= i < receivers@.len() ==> parsed_uuid(receiver_text(receivers@[i]))
                        == Ok::<Uuid, Seq<char>>(context_after.receivers@[i])
                &&& grid[receiver].sub_channels.contains_key(scid.0) ==> {
                    let id = grid[receiver].sub_channels[scid.0];
                    if boxes.contains_key(id) && boxes[id].receiving {
                        &&& result is Ok
                        &&& boxes_after.contains_key(id)
                        &&& boxes_after[id].messages == boxes[id].messages.push(data)
                        &&& boxes_after[id].senders == boxes[id].senders
                        &&& boxes_after[id].receiving
                        &&& forall|other: MailboxId|
                            #![trigger boxes.contains_key(other)]
                            #![trigger boxes_after.contains_key(other)]
                            other != id ==> {
                                &&& boxes_after.contains_key(other) == boxes.contains_key(other)
                                &&& boxes.contains_key(other) ==> boxes_after[other]
                                    == boxes[other]
                            }
                    } else {
                        &&& result == Err::<(), MultiplexError>(MultiplexError::MpmcSendError)
                        &&& boxes_after == boxes
                    }
                }
                &&& !grid[receiver].sub_channels.contains_key(scid.0) ==> {
                    &&& result matches Err(e)
                    &&& e@ == MultiplexErrorView::InternalError(
                        "invalid subchannel id "@ + hyphenated(scid.0),
                    )
                    &&& boxes_after == boxes
                }
            }
        },
{
    let state = grid[receiver];
    let (steps, found, error) = choose|
        steps: Seq<Map<Uuid, u64>>,
        found: Seq<u64>,
        error: Option<MultiplexErrorView>,
    |
        {
            let known = grid.insert(receiver, state.with_senders(steps.last()));
            let resolved = receivers_resolved(known, receivers@);
            &&& #[trigger] senders_resolved(senders@, steps, found, error)
            &&& steps[0] == state.senders
            &&& match error {
                Some(e) => {
                    &&& result is Err
                    &&& result->Err_0@ == e
                    &&& grid_after == known
                    &&& boxes_after == boxes
                    &&& context_after == context
                },
                None => {
                    &&& grid_after == resolved.grid
                    &&& match resolved.error {
                        Some(e) => {
                            &&& result is Err
                            &&& result->Err_0@ == e
                            &&& boxes_after == boxes
                            &&& context_after == context
                        },
                        None => {
                            &&& handles(context_after.senders@) == found
                            &&& context_after.receivers@ == resolved.found
                            &&& payload_sorted(
                                state.sub_channels,
                                boxes,
                                scid,
                                data,
                                result,
                                boxes_after,
                            )
                        },
                    }
                },
            }
        };
    let n = found.len() as int;
    lemma_resolving(state.senders, senders@, steps, found, error, n);
    match error {
        Some(e) => {
            let name = senders@[n];
            assert(sender_resolved(
                steps.last(),
                name,
                steps.last(),
                Err::<u64, MultiplexErrorView>(e),
            ));
            assert(senders@[n] == name);
            (Some(n), None)
        },
        None => {
            let known = grid.insert(receiver, state.with_senders(steps.last()));
            let resolved = receivers_resolved(known, receivers@);
            assert(receivers@.take(receivers@.len() as int) =~= receivers@);
            lemma_receivers(known, receivers@, receivers@.len() as int);
            assert forall|i: int| #[trigger] receiver_resolves(known, receivers@, i)
                == receiver_resolves(grid, receivers@, i) by {}
            let k = resolved.found.len() as int;
            assert forall|i: int| 0 <= i < k implies #[trigger] receiver_resolves(
                grid,
                receivers@,
                i,
            ) by {
                let uuid = resolved.found[i];
                assert(parsed_uuid(receiver_text(receivers@[i])) == Ok::<Uuid, Seq<char>>(uuid));
                assert(receiver_resolves(known, receivers@, i));
            }
            match resolved.error {
                Some(_) => {
                    assert(receiver_resolves(known, receivers@, k) == receiver_resolves(
                        grid,
                        receivers@,
                        k,
                    ));
                    (None, Some(k))
                },
                None => {
                    assert forall|i: int|
                        #![trigger context_after.senders@[i]]
                        0 <= i < senders@.len() implies name_means(
                        state.senders,
                        senders@,
                        i,
                        context_after.senders@[i].handle,
                    ) by {
                        assert(handles(context_after.senders@)[i]
                            == context_after.senders@[i].handle);
                        assert(found[i] == context_after.senders@[i].handle);
                    }
                    assert(context_after.senders@.len() == handles(context_after.senders@).len());
                    if !brings_receiver(receivers@, 0, receivers@.len() as int, receiver) {
                        assert(known.contains_key(receiver));
                        assert(grid_after[receiver] == known[receiver]);
                    }
                    (None, None)
                },
            }
        },
    }
}

/// A blocking receive returns a message that is in the mailbox, fails as
/// disconnected if nobody sends to the mailbox any more, and otherwise receives
/// from the IPC channel and looks again, until that fails.
pub proof fn law_receive_goes_on(outcome: RecvOutcome, step: RecvStep)
    requires
        call_ensures(SubChannelReceiver::recv, (outcome,), step),
    ensures
        outcome matches RecvOutcome::Local(Mail::Payload(payload)) ==> (step matches
            RecvStep::Return(Ok(returned)) && returned == payload),
        outcome matches RecvOutcome::Local(Mail::Empty) ==> step is Receive,
        outcome matches RecvOutcome::Local(Mail::Disconnected) ==> (step matches RecvStep::Return(
            Err(e),
        ) && e == MultiplexError::Disconnected),
        outcome matches RecvOutcome::Received(Ok(_)) ==> step is TryLocal,
        outcome matches RecvOutcome::Received(Err(reason)) ==> (step matches RecvStep::Return(
            Err(e),
        ) && e == reason),
{
}

/// A receiver finds the first message in its mailbox, which is then gone from
/// it, with all others left in order. It finds nothing only if there is nothing
/// and somebody sends to the mailbox. Looking changes no other mailbox.
pub proof fn law_receiver_finds_the_first(
    receiver: &SubChannelReceiver,
    mailboxes: &mut PayloadMailboxes,
    found: Mail,
)
    requires
        call_ensures(SubChannelReceiver::local, (receiver, mailboxes), found),
    ensures
        ({
            let own = receiver.mailbox;
            let boxes = old(mailboxes)@;
            let after = final(mailboxes)@;
            let held = boxes.contains_key(own) && boxes[own].messages.len() > 0;
            &&& held ==> {
                &&& found == Mail::Payload(boxes[own].messages[0])
                &&& after.contains_key(own)
                &&& after[own].messages.len() == boxes[own].messages.len() - 1
                &&& forall|k: int|
                    #![trigger after[own].messages[k]]
                    0 <= k < boxes[own].messages.len() - 1 ==> after[own].messages[k]
                        == boxes[own].messages[k + 1]
                &&& after[own].senders == boxes[own].senders
                &&& after[own].receiving == boxes[own].receiving
                &&& forall|other: MailboxId|
                    #![trigger boxes.contains_key(other)]
                    #![trigger after.contains_key(other)]
                    other != own ==> {
                        &&& after.contains_key(other) == boxes.contains_key(other)
                        &&& boxes.contains_key(other) ==> after[other] == boxes[other]
                    }
            }
            &&& !held ==> {
                &&& after == boxes
                &&& found is Empty <==> boxes.contains_key(own) && boxes[own].senders > 0
                &&& found is Disconnected <==> !(boxes.contains_key(own) && boxes[own].senders > 0)
            }
        }),
{
}

/// A receiver that is closed loses what was left in its mailbox. The mailbox
/// takes no more messages, and is gone if nobody sends to it. No other mailbox
/// changes. A message that has been decoded leaves no senders beside it.
pub proof fn law_closed_receiver_takes_no_more(
    receiver: SubChannelReceiver,
    mailboxes: &mut PayloadMailboxes,
    context: &mut ReceptionContext,
)
    requires
        call_ensures(SubChannelReceiver::close, (receiver, mailboxes), ()),
        call_ensures(SubChannelReceiver::decoded, (context,), ()),
    ensures
        ({
            let own = receiver.mailbox;
            let boxes = old(mailboxes)@;
            let after = final(mailboxes)@;
            &&& boxes.contains_key(own) ==> {
                &&& boxes[own].senders == 0 ==> !after.contains_key(own)
                &&& boxes[own].senders > 0 ==> {
                    &&& after.contains_key(own)
                    &&& after[own].messages.len() == 0
                    &&& after[own].senders == boxes[own].senders
                    &&& !after[own].receiving
                }
            }
            &&& !boxes.contains_key(own) ==> after == boxes
            &&& forall|other: MailboxId|
                #![trigger boxes.contains_key(other)]
                #![trigger after.contains_key(other)]
                other != own ==> {
                    &&& after.contains_key(other) == boxes.contains_key(other)
                    &&& boxes.contains_key(other) ==> after[other] == boxes[other]
                }
        }),
        final(context).senders@.len() == 0,
        final(context).receivers@ == old(context).receivers@,
{
}

/// The messages for a subchannel go to a mailbox that is new, and to which one
/// sender is connected.
pub open spec fn is_attached(
    grid: Map<Uuid, MultiReceiverView>,
    boxes: PayloadMap,
    receiver: Uuid,
    scid: SubChannelId,
    mailbox: MailboxId,
    grid_after: Map<Uuid, MultiReceiverView>,
    boxes_after: PayloadMap,
) -> bool {
    let was = grid[receiver];
    let now = grid_after[receiver];
    &&& others_stay(grid, receiver, grid_after)
    &&& grid_after.contains_key(receiver)
    &&& now.ipc_receiver == was.ipc_receiver
    &&& now.clients == was.clients
    &&& now.next_client_id == was.next_client_id
    &&& now.senders == was.senders
    &&& now.sub_channels.contains_key(scid.0)
    &&& now.sub_channels[scid.0] == mailbox
    &&& forall|other: Uuid|
        #![trigger was.sub_channels.contains_key(other)]
        #![trigger now.sub_channels.contains_key(other)]
        other != scid.0 ==> {
            &&& now.sub_channels.contains_key(other) == was.sub_channels.contains_key(other)
            &&& was.sub_channels.contains_key(other) ==> now.sub_channels[other]
                == was.sub_channels[other]
        }
    &&& !boxes.contains_key(mailbox)
    &&& !was.sub_channels.contains_key(scid.0) ==> {
        &&& boxes_after.contains_key(mailbox)
        &&& boxes_after[mailbox].messages.len() == 0
        &&& boxes_after[mailbox].senders == 1
        &&& boxes_after[mailbox].receiving
        &&& forall|id: MailboxId|
            #![trigger boxes.contains_key(id)]
            boxes.contains_key(id) ==> boxes_after.contains_key(id) && boxes_after[id] == boxes[id]
    }
}

/// A receiving end that starts to receive from a subchannel knows it, and the
/// receiver that comes of it is for that subchannel there.
pub proof fn law_attached_subchannel_is_connected(
    grid: &mut Grid,
    receiver: Uuid,
    scid: SubChannelId,
    mailboxes: &mut PayloadMailboxes,
    attached: SubChannelReceiver,
)
    requires
        call_ensures(Grid::attach, (grid, receiver, scid, mailboxes), attached),
    ensures
        attached.multi_receiver == receiver,
        attached.ipc_receiver_uuid == receiver,
        attached.sub_channel_id == scid,
        is_attached(
            old(grid)@,
            old(mailboxes)@,
            receiver,
            scid,
            attached.mailbox,
            final(grid)@,
            final(mailboxes)@,
        ),
{
}

/// A receiving end has a place where its messages arrive until its IPC receiver
/// is sent elsewhere. One that is here can take any message but one that asks
/// for a client id when there is none left.
pub proof fn law_receiving_end_has_its_receiver(
    grid: &Grid,
    receiver: Uuid,
    handle: Option<u64>,
    message: &MultiMessage,
    can: bool,
)
    requires
        call_ensures(Grid::ipc_receiver, (grid, receiver), handle),
        call_ensures(Grid::can_take, (grid, receiver, message), can),
    ensures
        handle is Some <==> grid@.contains_key(receiver) && grid@[receiver].ipc_receiver is Some,
        handle matches Some(h) ==> grid@[receiver].ipc_receiver->0.handle == h,
        can <==> grid@.contains_key(receiver) && (*message is Connect
            ==> grid@[receiver].next_client_id < ClientId::MAX),
{
}

/// A receiving end to which nobody has connected knows nobody. One with a client
/// knows that client only, whose id is given to no other. A grid of one
/// receiving end holds just that one.
pub proof fn law_new_receiving_end_is_empty(
    ipc_receiver: ForwardReceiver,
    created: MultiReceiver,
    client: ClientId,
    response_sender: ResponseSender,
    with_client: MultiReceiver,
    uuid: Uuid,
    grid: Grid,
)
    requires
        call_ensures(MultiReceiver::new, (ipc_receiver,), created),
        call_ensures(
            MultiReceiver::with_client,
            (ipc_receiver, client, response_sender),
            with_client,
        ),
        client < ClientId::MAX,
        call_ensures(Grid::new, (uuid, created), grid),
    ensures
        created@.ipc_receiver == Some(ipc_receiver),
        forall|id: ClientId| !#[trigger] created@.clients.contains_key(id),
        created@.next_client_id == 0,
        forall|scid: Uuid| !#[trigger] created@.sub_channels.contains_key(scid),
        forall|id: Uuid| !#[trigger] created@.senders.contains_key(id),
        with_client@.ipc_receiver == Some(ipc_receiver),
        forall|id: ClientId| #[trigger] with_client@.clients.contains_key(id) <==> id == client,
        with_client@.clients[client] == response_sender,
        with_client@.next_client_id == client + 1,
        forall|scid: Uuid| !#[trigger] with_client@.sub_channels.contains_key(scid),
        forall|id: Uuid| !#[trigger] with_client@.senders.contains_key(id),
        forall|other: Uuid| #[trigger] grid@.contains_key(other) <==> other == uuid,
        grid@[uuid] == created@,
{
}

/// A one-shot server learns the subchannel and the name from an announcement,
/// and only from one. Anything else fails and tells what it was.
pub proof fn law_server_takes_an_announcement(
    received: Result<MultiMessage, IpcError>,
    described: String,
    announced: Result<(SubChannelId, String), MultiplexError>,
)
    requires
        call_ensures(Grid::receive_sub_channel, (received, described), announced),
    ensures
        received matches Ok(MultiMessage::SubChannelId(scid, name)) ==> (announced matches Ok((
            id,
            called,
        )) && id == scid && called == name),
        announced is Ok ==> (received matches Ok(message) && message is SubChannelId),
        received matches Ok(message) && message !is SubChannelId ==> (announced matches Err(e)
            && e@ == MultiplexErrorView::InternalError(
            "unexpected multi message "@ + described@,
        )),
        received matches Err(reason) ==> (announced matches Err(e) && e
            == MultiplexError::IpcError(reason)),
{
}

/// A subreceiver that is put in a message takes the IPC receiver away from its
/// receiving end, if it is still there. It is kept beside the message, after
/// those that were put there before, under its UUID, which the message holds.
pub proof fn law_sent_receiver_leaves(
    receiver: &SubChannelReceiver,
    grid: &mut Grid,
    context: &mut TransmissionContext,
    ids: SubChannelReceiverIds,
)
    requires
        call_ensures(SubChannelReceiver::serialize, (receiver, grid, context), ids),
        old(grid)@.contains_key(receiver.multi_receiver),
    ensures
        ids.sub_channel_id == receiver.sub_channel_id,
        ids.ipc_receiver_uuid@ == hyphenated(receiver.ipc_receiver_uuid),
        others_stay(old(grid)@, receiver.multi_receiver, final(grid)@),
        final(grid)@.contains_key(receiver.multi_receiver),
        ({
            let was = old(grid)@[receiver.multi_receiver];
            let now = final(grid)@[receiver.multi_receiver];
            &&& now.ipc_receiver is None
            &&& now.clients == was.clients
            &&& now.next_client_id == was.next_client_id
            &&& now.sub_channels == was.sub_channels
            &&& now.senders == was.senders
        }),
        final(context).senders@ == old(context).senders@,
        final(context).receivers@.len() == old(context).receivers@.len() + 1,
        forall|i: int|
            #![trigger final(context).receivers@[i]]
            0 <= i < old(context).receivers@.len() ==> final(context).receivers@[i]
                == old(context).receivers@[i],
        final(context).receivers@.last().0 == receiver.ipc_receiver_uuid,
        final(context).receivers@.last().1 == old(grid)@[receiver.multi_receiver].ipc_receiver,
{
}

/// The subreceivers in a message are taken from what came beside it in order.
/// Each receives from the subchannel that the message names, at the receiving
/// end that came for it. If none is left, or the receiving end is not here, that
/// is an error, and nothing is attached.
pub proof fn law_received_receiver_is_attached(
    ids: &SubChannelReceiverIds,
    grid: &mut Grid,
    context: &mut ReceptionContext,
    mailboxes: &mut PayloadMailboxes,
    received: Result<SubChannelReceiver, MultiplexError>,
)
    requires
        call_ensures(SubChannelReceiver::deserialize, (ids, grid, context, mailboxes), received),
    ensures
        received is Ok <==> {
            &&& parsed_uuid(ids.ipc_receiver_uuid@) is Ok
            &&& old(context).receivers@.len() > 0
            &&& old(grid)@.contains_key(old(context).receivers@[0])
        },
        final(context).senders@ == old(context).senders@,
        received matches Ok(receiver) ==> {
            let from = old(context).receivers@[0];
            &&& final(context).receivers@ == old(context).receivers@.skip(1)
            &&& receiver.multi_receiver == from
            &&& parsed_uuid(ids.ipc_receiver_uuid@) == Ok::<Uuid, Seq<char>>(
                receiver.ipc_receiver_uuid,
            )
            &&& receiver.sub_channel_id == ids.sub_channel_id
            &&& is_attached(
                old(grid)@,
                old(mailboxes)@,
                from,
                ids.sub_channel_id,
                receiver.mailbox,
                final(grid)@,
                final(mailboxes)@,
            )
        },
        received matches Err(e) ==> {
            &&& final(grid)@ == old(grid)@
            &&& final(mailboxes)@ == old(mailboxes)@
            &&& match parsed_uuid(ids.ipc_receiver_uuid@) {
                Ok(_) => e@ == MultiplexErrorView::InternalError(
                    "IpcReceiver missing from message"@,
                ),
                Err(text) => e@ == MultiplexErrorView::InternalError("invalid UUID: "@ + text),
            }
        },
{
    if received is Ok {
        assert(old(context).receivers@.skip(1) =~= old(context).receivers@.drop_first());
    }
}

/// The sending end of a channel that was created here has a source of its own
/// that has sent nothing. That of a channel to a one-shot server does too, and is
/// connected if and only if it was given a client id. A failure is passed on and
/// changes nothing.
pub proof fn law_sender_is_connected(
    client: ClientId,
    ipc_sender: Arc<ForwardSender>,
    created_sources: &mut SourceTable,
    created: MultiSender,
    response: Result<MultiResponse, IpcError>,
    sources: &mut SourceTable,
    connected: Result<MultiSender, MultiplexError>,
)
    requires
        call_ensures(MultiSender::new, (client, ipc_sender, created_sources), created),
        call_ensures(MultiSender::connect, (ipc_sender, response, sources), connected),
    ensures
        created.client_id == client,
        created.ipc_sender == ipc_sender,
        has_new_source(created.sender_id, old(created_sources)@, final(created_sources)@),
        connected is Ok <==> (response matches Ok(answer) && answer is ClientId),
        connected matches Ok(sender) ==> {
            &&& response matches Ok(MultiResponse::ClientId(id))
            &&& sender.client_id == id
            &&& sender.ipc_sender == ipc_sender
            &&& has_new_source(sender.sender_id, old(sources)@, final(sources)@)
        },
        connected is Err ==> final(sources)@ == old(sources)@,
        response matches Err(e) ==> connected == Err::<MultiSender, MultiplexError>(
            MultiplexError::IpcError(e),
        ),
        response matches Ok(MultiResponse::SubChannel(scid)) ==> (connected matches Err(e) && e@
            == MultiplexErrorView::InternalError(
            "unexpected multi response SubChannel(SubChannelId("@ + hyphenated(scid.0) + "))"@,
        )),
{
}

/// A client id is asked for, a subchannel announced and ended over the IPC
/// channel of the sending end.
pub proof fn law_messages_go_to_the_other_end(
    sender: &MultiSender,
    ipc_sender: &Arc<ForwardSender>,
    response_sender: ResponseSender,
    connect: Outgoing,
    scid: SubChannelId,
    name: String,
    announced: Outgoing,
    subsender: &SubChannelSender,
    ended: Outgoing,
)
    requires
        call_ensures(MultiSender::connect_message, (ipc_sender, response_sender), connect),
        call_ensures(MultiSender::notify_sub_channel, (sender, scid, name), announced),
        call_ensures(SubChannelSender::disconnect, (subsender,), ended),
    ensures
        connect.to == *ipc_sender,
        connect.message == MultiMessage::Connect(response_sender),
        announced.to == sender.ipc_sender,
        announced.message == MultiMessage::SubChannelId(scid, name),
        ended.to == subsender.ipc_sender,
        ended.message == MultiMessage::Disconnect(subsender.sub_channel_id),
{
}

/// A subsender of a new subchannel sends over the channel that it was created
/// on. One that connects to a one-shot server announces its subchannel there
/// under the given name. A copy of a subsender is like it.
pub proof fn law_new_subsender_is_of_its_channel<T>(
    channel: &MultiSender,
    sender: SubChannelSender,
    name: String,
    connected: (SubSender<T>, Outgoing),
    scid: SubChannelId,
    copy: SubChannelSender,
)
    requires
        call_ensures(SubChannelSender::new, (channel,), sender),
        call_ensures(SubSender::<T>::connect, (channel, name), connected),
        call_ensures(SubChannelSender::sub_channel_id, (&sender,), scid),
        call_ensures(SubChannelSender::clone, (&sender,), copy),
    ensures
        sender.ipc_sender == channel.ipc_sender,
        sender.ipc_sender_uuid == channel.uuid,
        sender.sender_id == channel.sender_id,
        connected.0.sub_channel_sender.ipc_sender == channel.ipc_sender,
        connected.0.sub_channel_sender.ipc_sender_uuid == channel.uuid,
        connected.0.sub_channel_sender.sender_id == channel.sender_id,
        connected.1.to == channel.ipc_sender,
        connected.1.message == MultiMessage::SubChannelId(
            connected.0.sub_channel_sender.sub_channel_id,
            name,
        ),
        scid == sender.sub_channel_id,
        copy == sender,
{
}

/// A subsender that is put in a message is kept beside it, after those that were
/// put there before, under the UUID of its IPC sender, which the message holds.
/// Preparing for a message forgets the IPC senders of an earlier one, but not
/// its receivers.
pub proof fn law_subsender_is_kept_beside_the_message(
    sender: &SubChannelSender,
    context: &mut TransmissionContext,
    ids: SubChannelSenderIds,
    prepared: &mut TransmissionContext,
)
    requires
        call_ensures(SubChannelSender::serialize, (sender, context), ids),
        call_ensures(SubChannelSender::prepare, (prepared,), ()),
    ensures
        final(context).senders@.len() == old(context).senders@.len() + 1,
        forall|i: int|
            #![trigger final(context).senders@[i]]
            0 <= i < old(context).senders@.len() ==> final(context).senders@[i]
                == old(context).senders@[i],
        final(context).senders@.last().0 == sender.ipc_sender_uuid,
        final(context).senders@.last().1 == sender.ipc_sender,
        final(context).receivers@ == old(context).receivers@,
        ids.sub_channel_id == sender.sub_channel_id,
        ids.ipc_sender_uuid@ == hyphenated(sender.ipc_sender_uuid),
        final(prepared).senders@.len() == 0,
        final(prepared).receivers@ == old(prepared).receivers@,
{
}

/// A message is sent over the channel of its subchannel, with its bytes and all
/// that goes beside it, in order. An IPC receiver that is still here is sent
/// itself and then no longer here, and one that has been sent is named by its
/// UUID. The source remembers the IPC senders that it has sent, and no other
/// source remembers anything new.
pub proof fn law_message_is_sent_with_what_goes_beside_it(
    sender: &SubChannelSender,
    data: Vec<u8>,
    context: &mut TransmissionContext,
    sources: &mut SourceTable,
    outgoing: Outgoing,
)
    requires
        call_ensures(SubChannelSender::send, (sender, data, context, sources), outgoing),
    ensures
        final(sources)@.dom() == old(sources)@.dom(),
        forall|source: SourceId, handle: u64|
            #![trigger final(sources)@[source].contains(handle)]
            old(sources)@.contains_key(source) ==> final(sources)@[source].contains(handle) == (
            old(sources)@[source].contains(handle) || is_sent_by(
                sender.sender_id,
                old(context).senders@,
                source,
                handle,
            )),
        outgoing.to == sender.ipc_sender,
        final(context).receivers@.len() == old(context).receivers@.len(),
        forall|i: int|
            #![trigger final(context).receivers@[i]]
            0 <= i < old(context).receivers@.len() ==> final(context).receivers@[i].1 is None
                && final(context).receivers@[i].0 == old(context).receivers@[i].0,
        outgoing.message matches MultiMessage::Data(scid, bytes, senders, receivers) && {
            &&& scid == sender.sub_channel_id
            &&& bytes == data
            &&& senders@.len() == old(context).senders@.len()
            &&& forall|i: int|
                #![trigger senders@[i]]
                0 <= i < senders@.len() ==> is_name(
                    senders@[i],
                    old(context).senders@[i].1.handle,
                    old(context).senders@[i].0,
                    senders@[i] is IpcSenderId,
                )
            &&& receivers@.len() == old(context).receivers@.len()
            &&& forall|i: int|
                #![trigger receivers@[i]]
                0 <= i < receivers@.len() ==> {
                    let kept = old(context).receivers@[i];
                    &&& receiver_text(receivers@[i]) == hyphenated(kept.0)
                    &&& receivers@[i] is IpcReceiver <==> kept.1 is Some
                    &&& receivers@[i] is IpcReceiver ==> receivers@[i]->IpcReceiver_0
                        == kept.1->0
                }
        },
{
    lemma_sources_after(old(sources)@, sender.sender_id, old(context).senders@);
    let receivers = outgoing.message->Data_3;
    assert forall|i: int| #![trigger receivers@[i]] 0 <= i < receivers@.len() implies {
        let kept = old(context).receivers@[i];
        &&& receiver_text(receivers@[i]) == hyphenated(kept.0)
        &&& receivers@[i] is IpcReceiver <==> kept.1 is Some
        &&& receivers@[i] is IpcReceiver ==> receivers@[i]->IpcReceiver_0 == kept.1->0
    } by {}
}

/// An IPC sender that has not been sent from a source before is sent itself: the
/// first subsender of a channel that a message carries comes with its IPC
/// sender, unless an earlier message from that source held it.
pub proof fn law_unsent_sender_is_sent_itself(
    sender: &SubChannelSender,
    data: Vec<u8>,
    context: &mut TransmissionContext,
    sources: &mut SourceTable,
    outgoing: Outgoing,
    i: int,
)
    requires
        call_ensures(SubChannelSender::send, (sender, data, context, sources), outgoing),
        0 <= i < old(context).senders@.len(),
        old(sources)@.contains_key(sender.sender_id) ==> !old(sources)@[sender.sender_id].contains(
            old(context).senders@[i].1.handle,
        ),
        forall|j: int|
            #![trigger old(context).senders@[j]]
            0 <= j < i ==> old(context).senders@[j].1.handle != old(context).senders@[i].1.handle,
    ensures
        outgoing.message matches MultiMessage::Data(_, _, senders, _) && senders@[i] is IpcSender,
{
    let kept = old(context).senders@;
    let senders = outgoing.message->Data_2;
    let handle = kept[i].1.handle;
    let own = sender.sender_id;
    let first = kept.take(i);
    lemma_sources_after(old(sources)@, own, first);
    let before = sources_after(old(sources)@, own, first);
    assert(senders@[i] == senders@[i]);
    if before.contains_key(own) {
        assert(old(sources)@.dom().contains(own));
        assert(!is_sent_by(own, first, own, handle)) by {
            if is_sent_by(own, first, own, handle) {
                let j = choose|j: int|
                    0 <= j < first.len() && (#[trigger] first[j]).1.handle == handle;
                assert(kept[j] == first[j]);
            }
        }
        assert(!before[own].contains(handle));
    }
}

/// The subsenders in a message are taken from what came beside it in order. Each
/// is for the subchannel and the UUID that the message names, sends over the IPC
/// sender that came for it, and has a source of its own. If none is left, or the
/// text is no UUID, that is an error.
pub proof fn law_subsender_is_received(
    ids: &SubChannelSenderIds,
    context: &mut ReceptionContext,
    sources: &mut SourceTable,
    received: Result<SubChannelSender, MultiplexError>,
)
    requires
        call_ensures(SubChannelSender::deserialize, (ids, context, sources), received),
    ensures
        received is Ok <==> old(context).senders@.len() > 0 && parsed_uuid(ids.ipc_sender_uuid@)
            is Ok,
        final(context).receivers@ == old(context).receivers@,
        received matches Ok(sender) ==> {
            &&& final(context).senders@ == old(context).senders@.skip(1)
            &&& sender.sub_channel_id == ids.sub_channel_id
            &&& sender.ipc_sender == old(context).senders@[0]
            &&& parsed_uuid(ids.ipc_sender_uuid@) == Ok::<Uuid, Seq<char>>(sender.ipc_sender_uuid)
            &&& has_new_source(sender.sender_id, old(sources)@, final(sources)@)
        },
        received matches Err(e) ==> {
            &&& final(sources)@ == old(sources)@
            &&& old(context).senders@.len() == 0 ==> e@ == MultiplexErrorView::InternalError(
                "IpcSender missing from message"@,
            )
            &&& old(context).senders@.len() > 0 ==> (parsed_uuid(ids.ipc_sender_uuid@) matches Err(
                text,
            ) && e@ == MultiplexErrorView::InternalError("invalid UUID: "@ + text))
        },
{
    if received is Ok {
        assert(old(context).senders@.skip(1) =~= old(context).senders@.drop_first());
    }
}

/// A channel is created if and only if both its IPC channels could be. Its ends
/// know each other: the client of the sending end, which is number one, is the
/// only one that the receiving end knows, and that is its only receiving end.
/// The first failure is the one that is told, and changes nothing.
pub proof fn law_new_channel_connects_its_ends(
    forward: Result<(Arc<ForwardSender>, ForwardReceiver), IpcError>,
    response: Result<ResponseSender, IpcError>,
    sources: &mut SourceTable,
    created: Result<Channel, MultiplexError>,
)
    requires
        call_ensures(Channel::new, (forward, response, sources), created) || call_ensures(
            multi_channel,
            (forward, response, sources),
            created,
        ),
    ensures
        created is Ok <==> forward is Ok && response is Ok,
        created matches Ok(channel) ==> {
            let receiver = channel.grid@[channel.multi_receiver];
            let client = channel.multi_sender.client_id;
            &&& forall|other: Uuid| #[trigger]
                channel.grid@.contains_key(other) <==> other == channel.multi_receiver
            &&& receiver.ipc_receiver == Some(forward->Ok_0.1)
            &&& receiver.clients.contains_key(client)
            &&& receiver.clients[client] == response->Ok_0
            &&& forall|id: ClientId| #[trigger] receiver.clients.contains_key(id) ==> id == client
            &&& client == 1
            &&& receiver.next_client_id == 2
            &&& forall|scid: Uuid| !#[trigger] receiver.sub_channels.contains_key(scid)
            &&& forall|uuid: Uuid| !#[trigger] receiver.senders.contains_key(uuid)
            &&& channel.multi_sender.ipc_sender == forward->Ok_0.0
            &&& has_new_source(channel.multi_sender.sender_id, old(sources)@, final(sources)@)
        },
        created is Err ==> final(sources)@ == old(sources)@,
        forward matches Err(e) ==> created == Err::<Channel, MultiplexError>(
            MultiplexError::IpcError(e),
        ),
        forward is Ok ==> (response matches Err(e) ==> created == Err::<Channel, MultiplexError>(
            MultiplexError::IpcError(e),
        )),
{
}

/// Both ends of a new subchannel are for the same subchannel, its subsender
/// sends over the channel, and its messages go to the receiver's mailbox, which
/// is new.
pub proof fn law_new_subchannel_connects_its_ends<T>(
    channel: &mut Channel,
    mailboxes: &mut PayloadMailboxes,
    ends: (SubSender<T>, SubReceiver<T>),
)
    requires
        call_ensures(Channel::sub_channel::<T>, (channel, mailboxes), ends),
    ensures
        ({
            let sender = ends.0.sub_channel_sender;
            let receiver = ends.1.sub_channel_receiver;
            &&& receiver.sub_channel_id == sender.sub_channel_id
            &&& receiver.multi_receiver == old(channel).multi_receiver
            &&& receiver.ipc_receiver_uuid == old(channel).multi_receiver
            &&& sender.ipc_sender == old(channel).multi_sender.ipc_sender
            &&& sender.ipc_sender_uuid == old(channel).multi_sender.uuid
            &&& sender.sender_id == old(channel).multi_sender.sender_id
            &&& final(channel).multi_receiver == old(channel).multi_receiver
            &&& is_attached(
                old(channel).grid@,
                old(mailboxes)@,
                old(channel).multi_receiver,
                sender.sub_channel_id,
                receiver.mailbox,
                final(channel).grid@,
                final(mailboxes)@,
            )
        }),
{
}

/// A server that has begun to accept has a receiving end to which nobody has
/// connected. It has the client that asks for an id registered, and nothing else
/// done, if the client could be answered, and otherwise fails with the reason.
pub proof fn law_accepted_client_is_known(
    ipc_receiver: ForwardReceiver,
    begun: (Uuid, Grid),
    receiver: Uuid,
    grid: Grid,
    sender: ResponseSender,
    answered: Result<(), IpcError>,
    context: &mut ReceptionContext,
    mailboxes: &mut PayloadMailboxes,
    accepted: Result<Grid, MultiplexError>,
)
    requires
        call_ensures(OneShotMultiServer::begin_accept, (ipc_receiver,), begun),
        receiver == begun.0,
        grid == begun.1,
        call_ensures(
            OneShotMultiServer::accept,
            (receiver, grid, MultiMessage::Connect(sender), answered, context, mailboxes),
            accepted,
        ),
    ensures
        forall|other: Uuid| #[trigger] begun.1@.contains_key(other) <==> other == begun.0,
        begun.1@[begun.0].ipc_receiver == Some(ipc_receiver),
        forall|id: ClientId| !#[trigger] begun.1@[begun.0].clients.contains_key(id),
        accepted is Ok <==> answered is Ok,
        accepted matches Ok(grid) ==> {
            &&& forall|other: Uuid| #[trigger] grid@.contains_key(other) <==> other == receiver
            &&& grid@[receiver].clients.contains_key(1)
            &&& grid@[receiver].clients[1] == sender
            &&& forall|id: ClientId| #[trigger] grid@[receiver].clients.contains_key(id) ==> id == 1
            &&& grid@[receiver].ipc_receiver == Some(ipc_receiver)
        },
        answered matches Err(e) ==> accepted == Err::<Grid, MultiplexError>(
            MultiplexError::IpcError(e),
        ),
        final(mailboxes)@ == old(mailboxes)@,
        *final(context) == *old(context),
{
}

/// A one-shot server accepts a subchannel if and only if it was announced under
/// the server's name, which is the one that was handed out for it.
pub proof fn law_server_accepts_its_own_name(
    name: String,
    created: (SubOneShotServer, String),
    server: &SubOneShotServer,
    scid: SubChannelId,
    announced: String,
    accepted: Result<SubChannelId, MultiplexError>,
)
    requires
        call_ensures(SubOneShotServer::new, (name,), created),
        *server == created.0,
        call_ensures(SubOneShotServer::accept, (server, scid, announced), accepted),
    ensures
        created.1@ == name@,
        accepted is Ok <==> announced@ == created.1@,
        accepted matches Ok(id) ==> id == scid,
        accepted matches Err(e) ==> e@ == MultiplexErrorView::InternalError(
            "unexpected sub channel name "@ + announced@,
        ),
{
}

/// A target that has received nothing knows no endpoint. One that was found to
/// know an endpoint under a UUID stays as it is, and otherwise knows the new
/// one, with all others as they were. What it finds under a UUID was received
/// with it.
pub proof fn law_target_knows_what_it_received(
    created: Target,
    target: &mut Target,
    found: bool,
    id: Uuid,
    end_point: &Arc<ForwardSender>,
    searched: &Target,
    looked_up: Option<Arc<ForwardSender>>,
    other: Uuid,
)
    requires
        call_ensures(Target::new, (), created),
        call_ensures(Target::add_given, (target, found, id, end_point), ()),
        call_ensures(Target::look_up, (searched, id), looked_up),
    ensures
        !created@.contains_key(other),
        found ==> final(target)@ == old(target)@,
        !found ==> final(target)@.contains_key(id) && final(target)@[id] == end_point.handle,
        other != id ==> {
            &&& final(target)@.contains_key(other) == old(target)@.contains_key(other)
            &&& old(target)@.contains_key(other) ==> final(target)@[other] == old(target)@[other]
        },
        looked_up matches Some(sender) ==> searched@.contains_key(id) && searched@[id]
            == sender.handle,
{
}

} // verus!
