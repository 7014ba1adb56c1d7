//! The receiving side of multiplexing channels whose senders are counted.

use crate::multiplex::channel_identification::{associates, Target};
use crate::multiplex::counted::error::{multiplex_error, MultiplexError, MultiplexErrorView};
use crate::multiplex::counted::protocol::MultiMessage;
use crate::multiplex::counted::sender::{Outgoing, SubChannelSender};
use crate::multiplex::receiver::{Mail, PayloadMailboxes, PayloadMap};
use crate::multiplex::subchannel_lifecycle::{lost_vias, SubSenderStateMachine, SubSenderView};
use crate::mux::demux::{
    get_disconnector, insert_disconnector, lists_once, no_disconnectors, recorded, unexpected_text,
    Disconnectors,
};
use crate::mux::error::IpcError;
use crate::mux::mailbox::{
    accepts, delivered, left_by_receiver, left_by_sender, MailboxError, MailboxId, MailboxView,
};
use crate::mux::protocol::{
    ClientId, IpcSenderAndOrId, MultiResponse, ResponseSender, SubChannelId, SubChannelSenderIds,
};
use crate::mux::receiver::{concerns, is_concerned};
use crate::mux::sender::{MultiSenderId, SourceId, SourceTable, SubChannelDisconnector};
use crate::mux::sender_id::ForwardSender;
use crate::mux::text::{join, quoted_text};
use crate::mux::uuids::{hyphenated, parse_uuid, parsed_uuid, uuid_text, Uuid};
use std::collections::{HashMap, VecDeque};
use std::sync::Arc;
use vstd::prelude::*;
use vstd::string::*;

verus! {

broadcast use vstd::std_specs::hash::group_hash_axioms;

/// How long to wait for a message from the IPC channel before polling, in
/// microseconds.
pub const POLLING_INTERVAL: u128 = 1_000_000;

type StateMachine = SubSenderStateMachine<MailboxId, Vec<u8>, Vec<u8>, Arc<ForwardSender>>;

/// What a receiving end knows of the senders of one subchannel. A copy in
/// flight is probed by the IPC sender of the channel that carries it.
pub type SubChannelState = SubSenderView<MailboxId, Arc<ForwardSender>>;

/// The receiving end of a multiplexed channel.
pub struct MultiReceiver {
    ipc_receiver_uuid: Uuid,
    ipc_senders: HashMap<Uuid, ResponseSender>,
    sub_channels: HashMap<Uuid, StateMachine>,
    disconnectors: Disconnectors,
    ipc_senders_by_id: Target,
}

/// The mathematical counterpart of [`MultiReceiver`].
#[verifier::ext_equal]
pub struct MultiReceiverView {
    pub uuid: Uuid,
    /// Where each connected client gets its responses.
    pub clients: Map<Uuid, ResponseSender>,
    /// What is known of the senders of each subchannel.
    pub sub_channels: Map<Uuid, SubChannelState>,
    /// The last disconnector for each subchannel that a subsender was received
    /// for.
    pub disconnectors: Map<Uuid, SubChannelDisconnector>,
    /// The handles of the received IPC senders by UUID.
    pub senders: Map<Uuid, u64>,
}

impl View for MultiReceiver {
    type V = MultiReceiverView;

    closed spec fn view(&self) -> MultiReceiverView {
        MultiReceiverView {
            uuid: self.ipc_receiver_uuid,
            clients: self.ipc_senders@,
            sub_channels: self.sub_channels@.map_values(|machine: StateMachine| machine@),
            disconnectors: recorded(self.disconnectors),
            senders: self.ipc_senders_by_id@,
        }
    }
}

impl MultiReceiverView {
    /// A receiving end to which nobody has connected.
    pub open spec fn fresh(uuid: Uuid) -> Self {
        MultiReceiverView {
            uuid,
            clients: Map::empty(),
            sub_channels: Map::empty(),
            disconnectors: Map::empty(),
            senders: Map::empty(),
        }
    }

    /// The stored IPC senders have changed.
    pub open spec fn with_senders(self, senders: Map<Uuid, u64>) -> Self {
        MultiReceiverView { senders, ..self }
    }

    /// What is known of the senders of one subchannel has changed.
    pub open spec fn with_sub_channel(self, scid: SubChannelId, state: SubChannelState) -> Self {
        MultiReceiverView { sub_channels: self.sub_channels.insert(scid.0, state), ..self }
    }
}

/// What came beside the last message that was sorted.
pub struct ReceptionContext {
    /// The connected IPC senders of the subsenders in the message, with their
    /// UUIDs.
    pub senders: VecDeque<(Arc<ForwardSender>, Uuid)>,
    /// The source that the message came from.
    pub from: Uuid,
    /// The subchannel that the message came over.
    pub via: SubChannelId,
}

impl ReceptionContext {
    /// Nothing came.
    pub fn new(origin: Uuid, empty: SubChannelId) -> (context: ReceptionContext)
        ensures
            context.senders@.len() == 0,
            context.from == origin,
            context.via == empty,
    {
        ReceptionContext { senders: VecDeque::new(), from: origin, via: empty }
    }
}

/// What came of connecting an IPC sender.
pub type ConnectOutcome = Result<Arc<ForwardSender>, MultiplexError>;

/// The resolution of one IPC sender that a message names: one that comes with
/// its UUID has been connected with some outcome and is stored, and one that is
/// named by just its UUID is looked up, which fails if it was not stored or has
/// been dropped since.
pub open spec fn sender_resolved(
    before: (Map<Uuid, u64>, Seq<ConnectOutcome>),
    named: IpcSenderAndOrId,
    after: (Map<Uuid, u64>, Seq<ConnectOutcome>),
    found: Result<(Arc<ForwardSender>, Uuid), MultiplexErrorView>,
) -> bool {
    match named {
        IpcSenderAndOrId::IpcSender(_, id) => match parsed_uuid(id@) {
            Ok(uuid) => {
                &&& before.1.len() > 0
                &&& after.1 == before.1.drop_first()
                &&& match before.1[0] {
                    Ok(sender) => {
                        &&& (found == Ok::<(Arc<ForwardSender>, Uuid), MultiplexErrorView>((sender, uuid)))
                        &&& associates(before.0, uuid, sender.handle, after.0)
                    },
                    Err(e) => {
                        &&& (found == Err::<(Arc<ForwardSender>, Uuid), MultiplexErrorView>(e@))
                        &&& after.0 == before.0
                    },
                }
            },
            Err(reason) => {
                &&& (found == Err::<(Arc<ForwardSender>, Uuid), MultiplexErrorView>(
                    MultiplexErrorView::InternalError("invalid UUID: "@ + reason),
                ))
                &&& after == before
            },
        },
        IpcSenderAndOrId::IpcSenderId(id) => {
            &&& after == before
            &&& match parsed_uuid(id@) {
                Ok(uuid) => match found {
                    Ok(sender) => sender.1 == uuid && before.0.contains_pair(
                        uuid,
                        sender.0.handle,
                    ),
                    Err(e) => e == MultiplexErrorView::Disconnected,
                },
                Err(reason) => (found == Err::<(Arc<ForwardSender>, Uuid), MultiplexErrorView>(
                    MultiplexErrorView::InternalError("invalid UUID: "@ + reason),
                )),
            }
        },
    }
}

/// The IPC senders that have to be connected to resolve those that a message
/// names, in order, up to one whose UUID cannot be read.
pub open spec fn to_connect(named: Seq<IpcSenderAndOrId>) -> Seq<(u64, Uuid)>
    decreases named.len(),
{
    if named.len() == 0 {
        Seq::empty()
    } else {
        match named[0] {
            IpcSenderAndOrId::IpcSender(sender, id) => match parsed_uuid(id@) {
                Ok(uuid) => seq![(sender.handle, uuid)] + to_connect(named.drop_first()),
                Err(_) => Seq::empty(),
            },
            IpcSenderAndOrId::IpcSenderId(id) => match parsed_uuid(id@) {
                Ok(_) => to_connect(named.drop_first()),
                Err(_) => Seq::empty(),
            },
        }
    }
}

/// The outcomes are those of connecting the given IPC senders one by one until
/// the first failure.
pub open spec fn outcomes_of(outcomes: Seq<ConnectOutcome>, senders: Seq<(u64, Uuid)>) -> bool {
    &&& outcomes.len() <= senders.len()
    &&& outcomes.len() < senders.len() ==> outcomes.len() > 0 && outcomes.last() is Err
    &&& forall|i: int|
        #![trigger outcomes[i]]
        0 <= i < outcomes.len() && outcomes[i] is Ok ==> outcomes[i]->Ok_0.handle == senders[i].0
}

/// The IPC senders that a message names.
pub open spec fn named_in(message: MultiMessage) -> Seq<IpcSenderAndOrId> {
    match message {
        MultiMessage::Data(_, _, senders, _) => senders@,
        MultiMessage::Sending { scid, from, via, via_chan } => seq![via_chan],
        _ => Seq::empty(),
    }
}

/// The resolution of the IPC senders that a message names one by one until the
/// first failure. `steps` are the stored senders and the unused outcomes
/// before, between and after.
pub open spec fn senders_resolved(
    named: Seq<IpcSenderAndOrId>,
    steps: Seq<(Map<Uuid, u64>, Seq<ConnectOutcome>)>,
    found: Seq<(Arc<ForwardSender>, Uuid)>,
    error: Option<MultiplexErrorView>,
) -> bool {
    &&& found.len() <= named.len()
    &&& forall|i: int|
        #![trigger found[i]]
        0 <= i < found.len() ==> sender_resolved(
            steps[i],
            named[i],
            steps[i + 1],
            Ok::<(Arc<ForwardSender>, Uuid), MultiplexErrorView>(found[i]),
        )
    &&& match error {
        None => found.len() == named.len() && steps.len() == found.len() + 1,
        Some(e) => {
            &&& found.len() < named.len()
            &&& steps.len() == found.len() + 2
            &&& sender_resolved(
                steps[found.len() as int],
                named[found.len() as int],
                steps.last(),
                Err::<(Arc<ForwardSender>, Uuid), MultiplexErrorView>(e),
            )
        },
    }
}

/// The handles and UUIDs of connected IPC senders.
pub open spec fn handles(senders: Seq<(Arc<ForwardSender>, Uuid)>) -> Seq<(u64, Uuid)> {
    senders.map_values(|sender: (Arc<ForwardSender>, Uuid)| (sender.0.handle, sender.1))
}

/// The counterpart of an error that there may be.
pub open spec fn reason(error: Option<MultiplexError>) -> Option<MultiplexErrorView> {
    match error {
        Some(e) => Some(e@),
        None => None,
    }
}

/// The mailboxes after the sender of a subchannel has been handed back, if it
/// has.
pub open spec fn closed_off(boxes: PayloadMap, handed_back: Option<MailboxId>) -> PayloadMap {
    match handed_back {
        Some(id) => left_by_sender(boxes, id),
        None => boxes,
    }
}

/// What came of putting a message in the mailbox of its subchannel.
pub open spec fn payload_sorted(
    sub_channels: Map<Uuid, SubChannelState>,
    boxes: PayloadMap,
    scid: SubChannelId,
    data: Vec<u8>,
    result: Result<(), MultiplexError>,
    boxes_after: PayloadMap,
) -> bool {
    if sub_channels.contains_key(scid.0) {
        match sub_channels[scid.0].sender {
            Some(id) if accepts(boxes, id) => {
                result is Ok && boxes_after == delivered(boxes, id, data)
            },
            _ => {
                result == Err::<(), MultiplexError>(MultiplexError::Disconnected) && boxes_after
                    == boxes
            },
        }
    } else {
        &&& result is Err
        &&& result->Err_0@ == MultiplexErrorView::InternalError(
            "invalid subchannel id "@ + hyphenated(scid.0),
        )
        &&& boxes_after == boxes
    }
}

/// What came of a message for a subchannel.
pub open spec fn data_handled(
    before: MultiReceiverView,
    boxes: PayloadMap,
    context: ReceptionContext,
    scid: SubChannelId,
    data: Vec<u8>,
    senders: Seq<IpcSenderAndOrId>,
    source: Uuid,
    outcomes: Seq<ConnectOutcome>,
    result: Result<(), MultiplexError>,
    after: MultiReceiverView,
    boxes_after: PayloadMap,
    context_after: ReceptionContext,
) -> bool {
    exists|
        steps: Seq<(Map<Uuid, u64>, Seq<ConnectOutcome>)>,
        found: Seq<(Arc<ForwardSender>, Uuid)>,
        error: Option<MultiplexErrorView>,
    |
        {
            &&& #[trigger] senders_resolved(senders, steps, found, error)
            &&& steps[0] == (before.senders, outcomes)
            &&& after == before.with_senders(steps.last().0)
            &&& match error {
                Some(e) => {
                    &&& result is Err
                    &&& result->Err_0@ == e
                    &&& boxes_after == boxes
                    &&& context_after == context
                },
                None => {
                    &&& context_after.senders@ == found
                    &&& context_after.from == source
                    &&& context_after.via == scid
                    &&& payload_sorted(
                        before.sub_channels,
                        boxes,
                        scid,
                        data,
                        result,
                        boxes_after,
                    )
                },
            }
        }
}

/// What came of the news that a subsender is being sent from a source over a
/// subchannel.
pub open spec fn sending_handled(
    before: MultiReceiverView,
    scid: SubChannelId,
    from: Uuid,
    via: SubChannelId,
    via_chan: IpcSenderAndOrId,
    outcomes: Seq<ConnectOutcome>,
    result: Result<(), MultiplexError>,
    after: MultiReceiverView,
) -> bool {
    exists|
        senders: Map<Uuid, u64>,
        left: Seq<ConnectOutcome>,
        found: Result<(Arc<ForwardSender>, Uuid), MultiplexErrorView>,
    |
        {
            let known = before.with_senders(senders);
            &&& #[trigger] sender_resolved(
                (before.senders, outcomes),
                via_chan,
                (senders, left),
                found,
            )
            &&& match found {
                Ok(probe) => {
                    &&& result is Ok
                    &&& after == if before.sub_channels.contains_key(scid.0) {
                        known.with_sub_channel(
                            scid,
                            before.sub_channels[scid.0].sent_via(from, via.0, probe.0),
                        )
                    } else {
                        known
                    }
                },
                Err(e) => {
                    &&& result is Err
                    &&& result->Err_0@ == e
                    &&& after == known
                },
            }
        }
}

/// What came of a message. The IPC senders in it that have to be connected have
/// been, with the given outcomes.
pub open spec fn message_handled(
    before: MultiReceiverView,
    boxes: PayloadMap,
    context: ReceptionContext,
    message: MultiMessage,
    outcomes: Seq<ConnectOutcome>,
    result: Result<(), MultiplexError>,
    after: MultiReceiverView,
    boxes_after: PayloadMap,
    context_after: ReceptionContext,
) -> bool {
    match message {
        MultiMessage::Connect(sender, client_id) => {
            &&& result is Ok
            &&& after == MultiReceiverView {
                clients: before.clients.insert(client_id.0, sender),
                ..before
            }
            &&& boxes_after == boxes
            &&& context_after == context
        },
        MultiMessage::Data(scid, data, senders, source) => data_handled(
            before,
            boxes,
            context,
            scid,
            data,
            senders@,
            source,
            outcomes,
            result,
            after,
            boxes_after,
            context_after,
        ),
        MultiMessage::SubChannelId(scid, name) => {
            &&& result is Err
            &&& result->Err_0@ == MultiplexErrorView::InternalError(unexpected_text(scid, name@))
            &&& after == before
            &&& boxes_after == boxes
            &&& context_after == context
        },
        MultiMessage::Sending { scid, from, via, via_chan } => {
            &&& sending_handled(before, scid, from, via, via_chan, outcomes, result, after)
            &&& boxes_after == boxes
            &&& context_after == context
        },
        MultiMessage::Received { scid, from, via, new_source } => {
            &&& result is Ok
            &&& after == (if before.sub_channels.contains_key(scid.0) {
                before.with_sub_channel(
                    scid,
                    before.sub_channels[scid.0].arrived(from, via.0, new_source).arrived(
                        from,
                        via.0,
                        new_source,
                    ),
                )
            } else {
                before
            })
            &&& boxes_after == boxes
            &&& context_after == context
        },
        MultiMessage::Disconnect(scid, source) => {
            let state = before.sub_channels[scid.0].dropped_at(source);
            &&& result is Ok
            &&& context_after == context
            &&& if before.sub_channels.contains_key(scid.0) {
                &&& after == before.with_sub_channel(scid, state.settled())
                &&& boxes_after == closed_off(boxes, state.handed_back())
            } else {
                after == before && boxes_after == boxes
            }
        },
        MultiMessage::Probe => {
            &&& result is Ok
            &&& after == before
            &&& boxes_after == boxes
            &&& context_after == context
        },
    }
}

/// The state machine of the subchannel that a message says a subsender is in
/// flight for can count one more.
pub open spec fn has_room(state: MultiReceiverView, message: MultiMessage) -> bool {
    match message {
        MultiMessage::Sending { scid, .. } => state.sub_channels.contains_key(scid.0)
            ==> state.sub_channels[scid.0].in_flight.len() < usize::MAX,
        _ => true,
    }
}

/// A message can be handled: it can be counted, and the outcomes are those of
/// connecting the IPC senders in it.
pub open spec fn receivable(
    state: MultiReceiverView,
    message: MultiMessage,
    outcomes: Seq<ConnectOutcome>,
) -> bool {
    &&& has_room(state, message)
    &&& outcomes_of(outcomes, to_connect(named_in(message)))
}

/// The mailboxes after the one that a subchannel used has lost a sender.
pub open spec fn left_by_former(
    state: MultiReceiverView,
    scid: SubChannelId,
    boxes: PayloadMap,
) -> PayloadMap {
    if state.sub_channels.contains_key(scid.0) {
        closed_off(boxes, state.sub_channels[scid.0].sender)
    } else {
        boxes
    }
}

fn close_off(mailboxes: &mut PayloadMailboxes, handed_back: Option<MailboxId>)
    requires
        old(mailboxes).wf(),
    ensures
        final(mailboxes).wf(),
        final(mailboxes).exhausted() == old(mailboxes).exhausted(),
        final(mailboxes)@ == closed_off(old(mailboxes)@, handed_back),
{
    match handed_back {
        Some(id) => {
            mailboxes.drop_sender(id);
        },
        None => {},
    }
}

impl MultiReceiver {
    /// A receiving end to which nobody has connected.
    pub fn new(ipc_receiver_uuid: Uuid) -> (receiver: MultiReceiver)
        ensures
            receiver@ == MultiReceiverView::fresh(ipc_receiver_uuid),
    {
        let receiver = MultiReceiver {
            ipc_receiver_uuid,
            ipc_senders: HashMap::new(),
            sub_channels: HashMap::new(),
            disconnectors: no_disconnectors(),
            ipc_senders_by_id: Target::new(),
        };
        assert(receiver@.sub_channels =~= Map::<Uuid, SubChannelState>::empty());
        receiver
    }

    /// A receiving end with one client.
    pub fn with_client(
        ipc_receiver_uuid: Uuid,
        client_id: ClientId,
        response_sender: ResponseSender,
    ) -> (receiver: MultiReceiver)
        ensures
            receiver@ == (MultiReceiverView {
                clients: map![client_id.0 => response_sender],
                ..MultiReceiverView::fresh(ipc_receiver_uuid)
            }),
    {
        let mut receiver = MultiReceiver::new(ipc_receiver_uuid);
        receiver.ipc_senders.insert(client_id.0, response_sender);
        assert(receiver@.clients =~= map![client_id.0 => response_sender]);
        receiver
    }

    /// The UUID that identifies the receiving end, which is the source of the
    /// subsenders that are received here.
    pub fn uuid(&self) -> (uuid: Uuid)
        ensures
            uuid == self@.uuid,
    {
        self.ipc_receiver_uuid
    }

    /// Starts receiving from a subchannel that was created at the source
    /// `origin`.
    pub fn attach(
        &mut self,
        sub_channel_id: SubChannelId,
        origin: Uuid,
        mailboxes: &mut PayloadMailboxes,
    ) -> (receiver: SubChannelReceiver)
        requires
            old(mailboxes).wf(),
            !old(mailboxes).exhausted(),
        ensures
            receiver.sub_channel_id == sub_channel_id,
            !old(mailboxes)@.contains_key(receiver.mailbox),
            final(mailboxes).wf(),
            final(mailboxes)@ == left_by_former(
                old(self)@,
                sub_channel_id,
                old(mailboxes)@.insert(receiver.mailbox, MailboxView::opened()),
            ),
            final(self)@ == old(self)@.with_sub_channel(
                sub_channel_id,
                SubSenderView::initial(receiver.mailbox, origin),
            ),
    {
        let mailbox: MailboxId = mailboxes.open();
        let former = self.sub_channels.insert(
            sub_channel_id.0,
            SubSenderStateMachine::new(mailbox, origin),
        );
        assert(self@ =~= old(self)@.with_sub_channel(
            sub_channel_id,
            SubSenderView::initial(mailbox, origin),
        ));
        match former {
            Some(machine) => {
                match machine.sender() {
                    Some(id) => {
                        mailboxes.drop_sender(*id);
                    },
                    None => {},
                }
            },
            None => {},
        }
        SubChannelReceiver { sub_channel_id, mailbox }
    }

    /// The IPC senders that have to be connected before the given message is
    /// handled, in order, with their UUIDs.
    pub fn senders_to_connect(message: &MultiMessage) -> (senders: Vec<(Arc<ForwardSender>, Uuid)>)
        ensures
            senders@.map_values(|sender: (Arc<ForwardSender>, Uuid)| (sender.0.handle, sender.1))
                == to_connect(named_in(*message)),
    {
        match message {
            MultiMessage::Data(_, _, senders, _) => all_to_connect(senders),
            MultiMessage::Sending { scid: _, from: _, via: _, via_chan } => {
                let mut senders: Vec<(Arc<ForwardSender>, Uuid)> = Vec::new();
                proof {
                    let named = named_in(*message);
                    reveal_with_fuel(to_connect, 2);
                    assert(named.drop_first() =~= Seq::empty());
                }
                match via_chan {
                    IpcSenderAndOrId::IpcSender(sender, id) => {
                        match parse_uuid(id.as_str()) {
                            Ok(uuid) => {
                                senders.push((Arc::clone(sender), uuid));
                            },
                            Err(_) => {},
                        }
                    },
                    IpcSenderAndOrId::IpcSenderId(_) => {},
                }
                assert(handles(senders@) =~= to_connect(named_in(*message)));
                senders
            },
            _ => {
                let senders: Vec<(Arc<ForwardSender>, Uuid)> = Vec::new();
                assert(handles(senders@) =~= to_connect(named_in(*message)));
                senders
            },
        }
    }

    /// Whether the state machine of the subchannel that a message says a
    /// subsender is in flight for can count one more.
    pub fn can_take(&self, message: &MultiMessage) -> (can: bool)
        ensures
            can == has_room(self@, *message),
    {
        match message {
            MultiMessage::Sending { scid, from: _, via: _, via_chan: _ } => {
                match self.sub_channels.get(&scid.0) {
                    Some(machine) => machine.can_count_more(),
                    None => true,
                }
            },
            _ => true,
        }
    }

    /// Whether a message can be handled with the given outcomes of connecting
    /// the IPC senders in it.
    pub fn can_handle(&self, message: &MultiMessage, outcomes: &VecDeque<ConnectOutcome>) -> (can:
        bool)
        ensures
            can == receivable(self@, *message, outcomes@),
    {
        let senders = MultiReceiver::senders_to_connect(message);
        self.can_take(message) && are_outcomes(outcomes, &senders)
    }

    /// Handles a message as [`MultiReceiver::handle`] does, or returns `None` if
    /// it cannot be handled with the given outcomes.
    pub fn try_handle(
        &mut self,
        message: MultiMessage,
        outcomes: VecDeque<ConnectOutcome>,
        context: &mut ReceptionContext,
        mailboxes: &mut PayloadMailboxes,
    ) -> (result: Option<Result<(), MultiplexError>>)
        requires
            old(mailboxes).wf(),
        ensures
            final(mailboxes).wf(),
            final(mailboxes).exhausted() == old(mailboxes).exhausted(),
            (match result {
                Some(result) => {
                    &&& receivable(old(self)@, message, outcomes@)
                    &&& message_handled(
                        old(self)@,
                        old(mailboxes)@,
                        *old(context),
                        message,
                        outcomes@,
                        result,
                        final(self)@,
                        final(mailboxes)@,
                        *final(context),
                    )
                },
                None => {
                    &&& !receivable(old(self)@, message, outcomes@)
                    &&& final(self)@ == old(self)@
                    &&& final(mailboxes)@ == old(mailboxes)@
                    &&& *final(context) == *old(context)
                },
            }),
    {
        if self.can_handle(&message, &outcomes) {
            Some(self.handle(message, outcomes, context, mailboxes))
        } else {
            None
        }
    }
}

/// Whether the outcomes are those of connecting the given IPC senders one by one
/// until the first failure.
pub(crate) fn are_outcomes(
    outcomes: &VecDeque<ConnectOutcome>,
    senders: &Vec<(Arc<ForwardSender>, Uuid)>,
) -> (are: bool)
    ensures
        are == outcomes_of(outcomes@, handles(senders@)),
{
    if outcomes.len() > senders.len() {
        return false;
    }
    if outcomes.len() < senders.len() {
        if outcomes.len() == 0 {
            return false;
        }
        match &outcomes[outcomes.len() - 1] {
            Ok(_) => {
                return false;
            },
            Err(_) => {},
        }
    }
    let mut i: usize = 0;
    while i < outcomes.len()
        invariant
            i <= outcomes@.len() <= senders@.len(),
            forall|j: int|
                #![trigger outcomes@[j]]
                0 <= j < i && outcomes@[j] is Ok ==> outcomes@[j]->Ok_0.handle == handles(
                    senders@,
                )[j].0,
        decreases outcomes@.len() - i,
    {
        match &outcomes[i] {
            Ok(sender) => {
                if sender.handle != senders[i].0.handle {
                    assert(outcomes@[i as int] is Ok);
                    return false;
                }
            },
            Err(_) => {},
        }
        i += 1;
    }
    true
}

fn all_to_connect(named: &Vec<IpcSenderAndOrId>) -> (senders: Vec<(Arc<ForwardSender>, Uuid)>)
    ensures
        handles(senders@) == to_connect(named@),
{
    let mut senders: Vec<(Arc<ForwardSender>, Uuid)> = Vec::new();
    let ghost goal = to_connect(named@);
    proof {
        assert(named@.skip(0) =~= named@);
        assert(handles(senders@) + to_connect(named@.skip(0)) =~= goal);
    }
    let mut i: usize = 0;
    while i < named.len()
        invariant
            i <= named.len(),
            handles(senders@) + to_connect(named@.skip(i as int)) == goal,
            goal == to_connect(named@),
        decreases named.len() - i,
    {
        let ghost rest = named@.skip(i as int);
        let ghost before = senders@;
        proof {
            assert(rest[0] == named@[i as int]);
            assert(rest.drop_first() =~= named@.skip(i + 1));
        }
        match &named[i] {
            IpcSenderAndOrId::IpcSender(sender, id) => {
                match parse_uuid(id.as_str()) {
                    Ok(uuid) => {
                        senders.push((Arc::clone(sender), uuid));
                        proof {
                            assert(handles(senders@) =~= handles(before).push(
                                (sender.handle, uuid),
                            ));
                            assert(handles(senders@) + to_connect(named@.skip(i + 1)) =~= handles(
                                before,
                            ) + to_connect(rest));
                        }
                    },
                    Err(_) => {
                        assert(handles(senders@) =~= goal);
                        return senders;
                    },
                }
            },
            IpcSenderAndOrId::IpcSenderId(id) => {
                match parse_uuid(id.as_str()) {
                    Ok(_) => {},
                    Err(_) => {
                        assert(handles(senders@) =~= goal);
                        return senders;
                    },
                }
            },
        }
        i += 1;
    }
    assert(handles(senders@) =~= goal);
    senders
}

impl MultiReceiver {
    /// Resolves one IPC sender that a message names.
    fn ipcsender_from_sender_and_or_id(
        &mut self,
        named: &IpcSenderAndOrId,
        outcomes: &mut VecDeque<ConnectOutcome>,
    ) -> (found: Result<(Arc<ForwardSender>, Uuid), MultiplexError>)
        requires
            (match *named {
                IpcSenderAndOrId::IpcSender(_, id) => parsed_uuid(id@) is Ok
                    ==> old(outcomes)@.len() > 0,
                IpcSenderAndOrId::IpcSenderId(_) => true,
            }),
        ensures
            sender_resolved(
                (old(self)@.senders, old(outcomes)@),
                *named,
                (final(self)@.senders, final(outcomes)@),
                match found {
                    Ok(sender) => Ok(sender),
                    Err(e) => Err(e@),
                },
            ),
            final(self)@ == old(self)@.with_senders(final(self)@.senders),
            final(self).sub_channels == old(self).sub_channels,
    {
        match named {
            IpcSenderAndOrId::IpcSender(_, id) => {
                match parse_uuid(id.as_str()) {
                    Ok(uuid) => {
                        let outcome = outcomes.pop_front();
                        assert(outcomes@ =~= old(outcomes)@.drop_first());
                        match outcome {
                            Some(Ok(sender)) => {
                                self.ipc_senders_by_id.add(uuid, &sender);
                                Ok((sender, uuid))
                            },
                            Some(Err(e)) => Err(e),
                            None => {
                                assert(false);
                                Err(MultiplexError::Disconnected)
                            },
                        }
                    },
                    Err(e) => Err(MultiplexError::InternalError(e)),
                }
            },
            IpcSenderAndOrId::IpcSenderId(id) => {
                match parse_uuid(id.as_str()) {
                    Ok(uuid) => {
                        match self.ipc_senders_by_id.look_up(uuid) {
                            Some(sender) => Ok((sender, uuid)),
                            None => Err(MultiplexError::Disconnected),
                        }
                    },
                    Err(e) => Err(MultiplexError::InternalError(e)),
                }
            },
        }
    }

    /// Resolves the IPC senders that a message names.
    fn resolve_senders(
        &mut self,
        named: &Vec<IpcSenderAndOrId>,
        outcomes: VecDeque<ConnectOutcome>,
    ) -> (resolved: (VecDeque<(Arc<ForwardSender>, Uuid)>, Option<MultiplexError>))
        requires
            outcomes_of(outcomes@, to_connect(named@)),
        ensures
            exists|steps: Seq<(Map<Uuid, u64>, Seq<ConnectOutcome>)>|
                {
                    &&& #[trigger] senders_resolved(
                        named@,
                        steps,
                        resolved.0@,
                        reason(resolved.1),
                    )
                    &&& steps[0] == (old(self)@.senders, outcomes@)
                    &&& final(self)@ == old(self)@.with_senders(steps.last().0)
                },
            final(self).sub_channels == old(self).sub_channels,
    {
        let mut found: VecDeque<(Arc<ForwardSender>, Uuid)> = VecDeque::new();
        let mut left = outcomes;
        let ghost mut steps: Seq<(Map<Uuid, u64>, Seq<ConnectOutcome>)> = seq![
            (self@.senders, outcomes@),
        ];
        assert(named@.skip(0) =~= named@);
        let mut i: usize = 0;
        while i < named.len()
            invariant
                i <= named.len(),
                outcomes_of(left@, to_connect(named@.skip(i as int))),
                found@.len() == i,
                steps.len() == i + 1,
                steps[0] == (old(self)@.senders, outcomes@),
                steps.last() == (self@.senders, left@),
                self@ == old(self)@.with_senders(steps.last().0),
                self.sub_channels == old(self).sub_channels,
                forall|j: int|
                    #![trigger found@[j]]
                    0 <= j < i ==> sender_resolved(
                        steps[j],
                        named@[j],
                        steps[j + 1],
                        Ok::<(Arc<ForwardSender>, Uuid), MultiplexErrorView>(found@[j]),
                    ),
            decreases named.len() - i,
        {
            let ghost before = steps;
            let ghost so_far = found@;
            let ghost left_before = left@;
            proof {
                let rest = named@.skip(i as int);
                assert(rest[0] == named@[i as int]);
                assert(rest.drop_first() =~= named@.skip(i + 1));
            }
            match self.ipcsender_from_sender_and_or_id(&named[i], &mut left) {
                Ok(sender) => {
                    found.push_back(sender);
                    proof {
                        steps = steps.push((self@.senders, left@));
                        assert forall|j: int| #![trigger found@[j]] 0 <= j < i + 1 implies sender_resolved(
                            steps[j],
                            named@[j],
                            steps[j + 1],
                            Ok::<(Arc<ForwardSender>, Uuid), MultiplexErrorView>(found@[j]),
                        ) by {
                            if j < i {
                                assert(so_far[j] == found@[j]);
                                assert(steps[j] == before[j]);
                                assert(steps[j + 1] == before[j + 1]);
                            }
                        }
                        let senders_before = to_connect(named@.skip(i as int));
                        let senders_now = to_connect(named@.skip(i + 1));
                        if named@[i as int] is IpcSender {
                            assert(senders_now =~= senders_before.drop_first());
                            assert forall|k: int| #![trigger left@[k]] 0 <= k < left@.len()
                                && left@[k] is Ok implies left@[k]->Ok_0.handle
                                == senders_now[k].0 by {
                                assert(left@[k] == left_before[k + 1]);
                            }
                        }
                    }
                },
                Err(e) => {
                    let ghost failed = steps.push((self@.senders, left@));
                    let resolved = (found, Some(e));
                    proof {
                        assert forall|j: int| #![trigger found@[j]] 0 <= j < i implies sender_resolved(
                            failed[j],
                            named@[j],
                            failed[j + 1],
                            Ok::<(Arc<ForwardSender>, Uuid), MultiplexErrorView>(found@[j]),
                        ) by {
                            assert(failed[j] == before[j]);
                            assert(failed[j + 1] == before[j + 1]);
                        }
                    }
                    assert(senders_resolved(
                        named@,
                        failed,
                        resolved.0@,
                        reason(resolved.1),
                    ));
                    return resolved;
                },
            }
            i += 1;
        }
        let resolved: (VecDeque<(Arc<ForwardSender>, Uuid)>, Option<MultiplexError>) = (
            found,
            None,
        );
        assert(senders_resolved(named@, steps, resolved.0@, reason(resolved.1)));
        resolved
    }

    /// Puts a message in the mailbox of its subchannel.
    fn sort_payload(&self, scid: SubChannelId, data: Vec<u8>, mailboxes: &mut PayloadMailboxes) -> (result:
        Result<(), MultiplexError>)
        requires
            old(mailboxes).wf(),
        ensures
            final(mailboxes).wf(),
            final(mailboxes).exhausted() == old(mailboxes).exhausted(),
            payload_sorted(
                self@.sub_channels,
                old(mailboxes)@,
                scid,
                data,
                result,
                final(mailboxes)@,
            ),
    {
        match self.sub_channels.get(&scid.0) {
            Some(machine) => {
                match machine.sender() {
                    Some(id) => {
                        match mailboxes.send(*id, data) {
                            Ok(()) => Ok(()),
                            Err(_) => Err(MultiplexError::Disconnected),
                        }
                    },
                    None => Err(MultiplexError::Disconnected),
                }
            },
            None => {
                let text = uuid_text(scid.0);
                Err(MultiplexError::InternalError(join("invalid subchannel id ", text.as_str())))
            },
        }
    }

    /// Handles a message for a subchannel.
    fn sort(
        &mut self,
        scid: SubChannelId,
        data: Vec<u8>,
        senders: &Vec<IpcSenderAndOrId>,
        source: Uuid,
        outcomes: VecDeque<ConnectOutcome>,
        context: &mut ReceptionContext,
        mailboxes: &mut PayloadMailboxes,
    ) -> (result: Result<(), MultiplexError>)
        requires
            old(mailboxes).wf(),
            outcomes_of(outcomes@, to_connect(senders@)),
        ensures
            final(mailboxes).wf(),
            final(mailboxes).exhausted() == old(mailboxes).exhausted(),
            data_handled(
                old(self)@,
                old(mailboxes)@,
                *old(context),
                scid,
                data,
                senders@,
                source,
                outcomes@,
                result,
                final(self)@,
                final(mailboxes)@,
                *final(context),
            ),
    {
        let (found, error) = self.resolve_senders(senders, outcomes);
        let ghost why = reason(error);
        let ghost steps = choose|steps: Seq<(Map<Uuid, u64>, Seq<ConnectOutcome>)>|
            {
                &&& #[trigger] senders_resolved(senders@, steps, found@, why)
                &&& steps[0] == (old(self)@.senders, outcomes@)
                &&& self@ == old(self)@.with_senders(steps.last().0)
            };
        assert(senders_resolved(senders@, steps, found@, why));
        match error {
            Some(e) => {
                return Err(e);
            },
            None => {},
        }
        context.senders = found;
        context.from = source;
        context.via = scid;
        self.sort_payload(scid, data, mailboxes)
    }

    /// Handles a message that has arrived. The IPC senders in it that have to be
    /// connected have been, one by one until the first failure, with the given
    /// outcomes.
    pub fn handle(
        &mut self,
        message: MultiMessage,
        outcomes: VecDeque<ConnectOutcome>,
        context: &mut ReceptionContext,
        mailboxes: &mut PayloadMailboxes,
    ) -> (result: Result<(), MultiplexError>)
        requires
            old(mailboxes).wf(),
            receivable(old(self)@, message, outcomes@),
        ensures
            final(mailboxes).wf(),
            final(mailboxes).exhausted() == old(mailboxes).exhausted(),
            message_handled(
                old(self)@,
                old(mailboxes)@,
                *old(context),
                message,
                outcomes@,
                result,
                final(self)@,
                final(mailboxes)@,
                *final(context),
            ),
    {
        match message {
            MultiMessage::Connect(sender, client_id) => {
                self.ipc_senders.insert(client_id.0, sender);
                Ok(())
            },
            MultiMessage::Data(scid, data, senders, source) => self.sort(
                scid,
                data,
                &senders,
                source,
                outcomes,
                context,
                mailboxes,
            ),
            MultiMessage::Disconnect(scid, source) => {
                match self.sub_channels.remove(&scid.0) {
                    Some(machine) => {
                        let mut machine = machine;
                        let handed_back = machine.disconnect(source);
                        self.sub_channels.insert(scid.0, machine);
                        assert(self@ =~= old(self)@.with_sub_channel(scid, machine@));
                        close_off(mailboxes, handed_back);
                    },
                    None => {
                        assert(self@ =~= old(self)@);
                    },
                }
                Ok(())
            },
            MultiMessage::Sending { scid, from, via, via_chan } => {
                proof {
                    let named = named_in(message);
                    assert(named[0] == via_chan);
                    reveal_with_fuel(to_connect, 2);
                }
                let mut left = outcomes;
                match self.ipcsender_from_sender_and_or_id(&via_chan, &mut left) {
                    Ok((sender, uuid)) => {
                        let ghost known = self@;
                        let ghost probe = sender;
                        match self.sub_channels.remove(&scid.0) {
                            Some(machine) => {
                                let mut machine = machine;
                                machine.to_be_sent(from, via.0, sender);
                                self.sub_channels.insert(scid.0, machine);
                                assert(self@ =~= known.with_sub_channel(scid, machine@));
                            },
                            None => {
                                assert(self@ =~= known);
                            },
                        }
                        assert(sender_resolved(
                            (old(self)@.senders, outcomes@),
                            via_chan,
                            (known.senders, left@),
                            Ok((probe, uuid)),
                        ));
                        Ok(())
                    },
                    Err(e) => {
                        assert(sender_resolved(
                            (old(self)@.senders, outcomes@),
                            via_chan,
                            (self@.senders, left@),
                            Err(e@),
                        ));
                        Err(e)
                    },
                }
            },
            MultiMessage::Received { scid, from, via, new_source } => {
                match self.sub_channels.remove(&scid.0) {
                    Some(machine) => {
                        let mut machine = machine;
                        // A subsender is encoded twice, so that its sending is
                        // announced twice. This is balanced here.
                        machine.received(from, via.0, new_source);
                        machine.received(from, via.0, new_source);
                        self.sub_channels.insert(scid.0, machine);
                        assert(self@ =~= old(self)@.with_sub_channel(scid, machine@));
                    },
                    None => {
                        assert(self@ =~= old(self)@);
                    },
                }
                Ok(())
            },
            MultiMessage::Probe => Ok(()),
            MultiMessage::SubChannelId(scid, name) => {
                let id_text = uuid_text(scid.0);
                let name_text = quoted_text(name.as_str());
                let text = join(
                    "unexpected multi message SubChannelId(SubChannelId(",
                    id_text.as_str(),
                );
                let text = join(text.as_str(), "), ");
                let text = join(text.as_str(), name_text.as_str());
                let text = join(text.as_str(), ")");
                Err(MultiplexError::InternalError(text))
            },
        }
    }
}

/// A copy of a subsender of a subchannel, in flight via another one, is probed
/// by the IPC sender with the given handle.
pub open spec fn probes_by(state: MultiReceiverView, scid: Uuid, via: Uuid, handle: u64) -> bool {
    &&& state.sub_channels.contains_key(scid)
    &&& state.sub_channels[scid].probes.contains_key(via)
    &&& state.sub_channels[scid].probes[via].handle == handle
}

/// A copy of some subsender is probed by the IPC sender with the given handle.
pub open spec fn probed_by(state: MultiReceiverView, handle: u64) -> bool {
    exists|scid: Uuid, via: Uuid| #[trigger] probes_by(state, scid, via, handle)
}

/// What comes of polling.
#[verifier::ext_equal]
pub struct Polled {
    pub state: MultiReceiverView,
    pub boxes: PayloadMap,
    /// A probe has failed.
    pub failed: bool,
}

/// Polls the senders of one subchannel: copies of the subsender in flight over
/// channels that are gone are given up, and the mailbox loses its sender if
/// none is left.
pub open spec fn polled_one(before: Polled, scid: Uuid, lost: Seq<u64>) -> Polled {
    let state = before.state.sub_channels[scid];
    let gone = lost_vias(state, lost);
    let after = state.lost_via(gone);
    Polled {
        state: before.state.with_sub_channel(SubChannelId(scid), after.settled()),
        boxes: closed_off(before.boxes, after.handed_back()),
        failed: before.failed || gone != Set::<u128>::empty(),
    }
}

/// Polls the senders of several subchannels one after the other.
pub open spec fn polled_in_order(before: Polled, order: Seq<Uuid>, lost: Seq<u64>) -> Polled
    decreases order.len(),
{
    if order.len() == 0 {
        before
    } else {
        polled_one(polled_in_order(before, order.drop_last(), lost), order.last(), lost)
    }
}

/// Polling does not change which subchannels there are.
proof fn lemma_polled_keys(before: Polled, order: Seq<Uuid>, lost: Seq<u64>)
    requires
        forall|i: int|
            0 <= i < order.len() ==> before.state.sub_channels.contains_key(#[trigger] order[i]),
    ensures
        polled_in_order(before, order, lost).state.sub_channels.dom()
            == before.state.sub_channels.dom(),
    decreases order.len(),
{
    if order.len() > 0 {
        lemma_polled_keys(before, order.drop_last(), lost);
        assert(before.state.sub_channels.contains_key(order[order.len() - 1]));
        let middle = polled_in_order(before, order.drop_last(), lost);
        assert(polled_one(middle, order.last(), lost).state.sub_channels.dom()
            =~= middle.state.sub_channels.dom());
    }
}

impl MultiReceiver {
    /// The ids of the subchannels.
    fn sub_channel_ids(&self) -> (ids: Vec<Uuid>)
        ensures
            lists_once(ids@, self@.sub_channels.dom()),
    {
        let mut ids: Vec<Uuid> = Vec::new();
        for id in keys: self.sub_channels.keys()
            invariant
                keys.seq().no_duplicates(),
                keys.seq().unref().to_set() == self.sub_channels@.dom(),
                ids@.len() == keys.index(),
                forall|k: int|
                    #![trigger ids@[k]]
                    0 <= k < ids@.len() ==> ids@[k] == keys.seq().unref()[k],
                keys.index() == keys.seq().len() ==> ids@ == keys.seq().unref(),
        {
            ids.push(*id);
            proof {
                let n = keys.index() as int;
                assert(keys.seq()[n] == id);
                assert(n + 1 == keys.seq().len() ==> ids@ =~= keys.seq().unref());
            }
        }
        proof {
            assert forall|key: Uuid| #[trigger]
                self@.sub_channels.dom().contains(key) <==> ids@.contains(key) by {
                assert(self.sub_channels@.dom().contains(key) <==> ids@.to_set().contains(key));
            }
        }
        ids
    }

    /// The handles of the IPC senders that have to be sent a probe, to find out
    /// whether the channels that carry copies of subsenders are alive.
    pub fn probes(&self) -> (handles: Vec<u64>)
        ensures
            forall|scid: Uuid, via: Uuid|
                #![trigger self@.sub_channels[scid].probes.contains_key(via)]
                self@.sub_channels.contains_key(scid) && self@.sub_channels[scid].probes.contains_key(
                    via,
                ) ==> handles@.contains(self@.sub_channels[scid].probes[via].handle),
            forall|i: int|
                #![trigger handles@[i]]
                0 <= i < handles@.len() ==> probed_by(self@, handles@[i]),
            forall|handle: u64| #[trigger] handles@.contains(handle) <==> probed_by(self@, handle),
    {
        let ids: Vec<Uuid> = self.sub_channel_ids();
        let mut handles: Vec<u64> = Vec::new();
        let mut i: usize = 0;
        while i < ids.len()
            invariant
                i <= ids.len(),
                lists_once(ids@, self@.sub_channels.dom()),
                forall|k: int, via: Uuid|
                    #![trigger self@.sub_channels[ids@[k]].probes.contains_key(via)]
                    0 <= k < i && self@.sub_channels[ids@[k]].probes.contains_key(via)
                        ==> handles@.contains(self@.sub_channels[ids@[k]].probes[via].handle),
                forall|j: int|
                    #![trigger handles@[j]]
                    0 <= j < handles@.len() ==> probed_by(self@, handles@[j]),
            decreases ids.len() - i,
        {
            let id: Uuid = ids[i];
            proof {
                assert(ids@.contains(id));
                assert(self@.sub_channels.dom().contains(id));
            }
            let ghost state = self@.sub_channels[id];
            let ghost before = handles@;
            match self.sub_channels.get(&id) {
                Some(machine) => {
                    let own: Vec<(u128, u64)> = machine.probes();
                    assert(machine@ == state);
                    let mut j: usize = 0;
                    while j < own.len()
                        invariant
                            j <= own.len(),
                            handles@.len() == before.len() + j,
                            forall|k: int| 0 <= k < before.len() ==> handles@[k] == before[k],
                            forall|k: int|
                                #![trigger own@[k]]
                                0 <= k < j ==> handles@[before.len() + k] == own@[k].1,
                        decreases own.len() - j,
                    {
                        handles.push(own[j].1);
                        j += 1;
                    }
                    proof {
                        assert forall|k: int, via: Uuid|
                            #![trigger self@.sub_channels[ids@[k]].probes.contains_key(via)]
                            0 <= k < i + 1 && self@.sub_channels[ids@[k]].probes.contains_key(via) implies handles@.contains(
                            self@.sub_channels[ids@[k]].probes[via].handle,
                        ) by {
                            let wanted = self@.sub_channels[ids@[k]].probes[via].handle;
                            if k < i {
                                assert(before.contains(wanted));
                                let n = choose|n: int| 0 <= n < before.len() && before[n] == wanted;
                                assert(handles@[n] == wanted);
                            } else {
                                assert(state.probes.contains_key(via));
                                assert(own@.contains((via, wanted)));
                                let n = choose|n: int|
                                    0 <= n < own@.len() && own@[n] == (via, wanted);
                                assert(handles@[before.len() + n] == wanted);
                            }
                        }
                        assert forall|n: int| #![trigger handles@[n]] 0 <= n < handles@.len() implies probed_by(self@, handles@[n]) by {
                            if n < before.len() {
                                assert(handles@[n] == before[n]);
                                let (scid, via) = choose|scid: Uuid, via: Uuid| #[trigger]
                                    probes_by(self@, scid, via, before[n]);
                                assert(probes_by(self@, scid, via, handles@[n]));
                            } else {
                                let pair = own@[n - before.len()];
                                assert(state.probes.contains_key(pair.0));
                                assert(probes_by(self@, id, pair.0, handles@[n]));
                            }
                        }
                    }
                },
                None => {
                    assert(false);
                },
            }
            i += 1;
        }
        proof {
            assert forall|scid: Uuid, via: Uuid|
                #![trigger self@.sub_channels[scid].probes.contains_key(via)]
                self@.sub_channels.contains_key(scid) && self@.sub_channels[scid].probes.contains_key(
                    via,
                ) implies handles@.contains(self@.sub_channels[scid].probes[via].handle) by {
                assert(self@.sub_channels.dom().contains(scid));
                assert(ids@.contains(scid));
                let k = choose|k: int| 0 <= k < ids@.len() && ids@[k] == scid;
                assert(self@.sub_channels[ids@[k]].probes.contains_key(via));
            }
            assert forall|handle: u64| #[trigger]
                handles@.contains(handle) <==> probed_by(self@, handle) by {
                if probed_by(self@, handle) {
                    let (scid, via) = choose|scid: Uuid, via: Uuid| #[trigger]
                        probes_by(self@, scid, via, handle);
                    assert(self@.sub_channels[scid].probes.contains_key(via));
                }
            }
        }
        handles
    }

    /// Polls the senders of all subchannels, given the handles of the IPC
    /// senders that could not be sent a probe. The subchannels are polled in no
    /// particular order.
    ///
    /// Returns whether a probe has failed.
    pub fn poll(&mut self, lost: &Vec<u64>, mailboxes: &mut PayloadMailboxes) -> (failed: bool)
        requires
            old(mailboxes).wf(),
        ensures
            final(mailboxes).wf(),
            final(mailboxes).exhausted() == old(mailboxes).exhausted(),
            exists|order: Seq<Uuid>|
                {
                    &&& #[trigger] lists_once(order, old(self)@.sub_channels.dom())
                    &&& Polled { state: final(self)@, boxes: final(mailboxes)@, failed }
                        == polled_in_order(
                        Polled { state: old(self)@, boxes: old(mailboxes)@, failed: false },
                        order,
                        lost@,
                    )
                },
    {
        let ids: Vec<Uuid> = self.sub_channel_ids();
        let ghost before = Polled { state: self@, boxes: mailboxes@, failed: false };
        let mut failed: bool = false;
        assert(ids@.take(0) =~= Seq::<Uuid>::empty());
        let mut i: usize = 0;
        while i < ids.len()
            invariant
                i <= ids.len(),
                mailboxes.wf(),
                mailboxes.exhausted() == old(mailboxes).exhausted(),
                before == (Polled { state: old(self)@, boxes: old(mailboxes)@, failed: false }),
                lists_once(ids@, before.state.sub_channels.dom()),
                (Polled { state: self@, boxes: mailboxes@, failed }) == polled_in_order(
                    before,
                    ids@.take(i as int),
                    lost@,
                ),
            decreases ids.len() - i,
        {
            let id: Uuid = ids[i];
            let ghost middle = Polled { state: self@, boxes: mailboxes@, failed };
            proof {
                assert forall|k: int| 0 <= k < ids@.take(i as int).len() implies
                    before.state.sub_channels.contains_key(#[trigger] ids@.take(i as int)[k]) by {
                    assert(ids@.contains(ids@[k]));
                    assert(before.state.sub_channels.dom().contains(ids@[k]));
                }
                lemma_polled_keys(before, ids@.take(i as int), lost@);
                assert(ids@.contains(id));
                assert(before.state.sub_channels.dom().contains(id));
                assert(self@.sub_channels.dom().contains(id));
                assert(ids@.take(i + 1).drop_last() =~= ids@.take(i as int));
                assert(ids@.take(i + 1).last() == id);
            }
            match self.sub_channels.remove(&id) {
                Some(machine) => {
                    let mut machine = machine;
                    let ghost state = machine@;
                    let (alive, handed_back) = machine.poll_lost(lost);
                    let ghost polled = machine@;
                    self.sub_channels.insert(id, machine);
                    close_off(mailboxes, handed_back);
                    if !alive {
                        failed = true;
                    }
                    proof {
                        assert(self@ =~= middle.state.with_sub_channel(SubChannelId(id), polled));
                        assert(state == middle.state.sub_channels[id]);
                        assert((Polled { state: self@, boxes: mailboxes@, failed }) =~= polled_one(
                            middle,
                            id,
                            lost@,
                        ));
                    }
                },
                None => {
                    assert(false);
                },
            }
            i += 1;
        }
        assert(ids@.take(ids@.len() as int) =~= ids@);
        failed
    }

    /// What each client is told when the receiver of the given subchannel
    /// disconnects, and where.
    pub fn disconnection_responses(&self, scid: SubChannelId) -> (responses: Vec<
        (ResponseSender, MultiResponse),
    >)
        ensures
            exists|order: Seq<Uuid>|
                {
                    &&& #[trigger] lists_once(order, self@.clients.dom())
                    &&& responses@ == order.map_values(
                        |client: Uuid|
                            (
                                self@.clients[client],
                                MultiResponse::SubReceiverDisconnected(scid),
                            ),
                    )
                },
    {
        let mut responses: Vec<(ResponseSender, MultiResponse)> = Vec::new();
        let ghost mut order: Seq<Uuid> = Seq::empty();
        for entry in entries: self.ipc_senders.iter()
            invariant
                entries.seq().no_duplicates(),
                forall|k: int|
                    #![trigger entries.seq()[k]]
                    0 <= k < entries.seq().len() ==> {
                        &&& self.ipc_senders@.contains_key(*entries.seq()[k].0)
                        &&& self.ipc_senders@[*entries.seq()[k].0] == *entries.seq()[k].1
                    },
                forall|client: Uuid|
                    #![trigger self.ipc_senders@.contains_key(client)]
                    self.ipc_senders@.contains_key(client) ==> entries.seq().contains(
                        (&client, &self.ipc_senders@[client]),
                    ),
                order.len() == entries.index(),
                forall|k: int|
                    #![trigger order[k]]
                    #![trigger entries.seq()[k]]
                    0 <= k < order.len() ==> order[k] == *entries.seq()[k].0,
                responses@ == order.map_values(
                    |client: Uuid|
                        (self@.clients[client], MultiResponse::SubReceiverDisconnected(scid)),
                ),
        {
            let (client, sender) = entry;
            responses.push((*sender, MultiResponse::SubReceiverDisconnected(scid)));
            proof {
                assert(entries.seq()[entries.index() as int] == (client, sender));
                order = order.push(*client);
                assert(responses@ =~= order.map_values(
                    |client: Uuid|
                        (self@.clients[client], MultiResponse::SubReceiverDisconnected(scid)),
                ));
            }
        }
        proof {
            assert forall|client: Uuid| #[trigger]
                self@.clients.dom().contains(client) <==> order.contains(client) by {
                if self@.clients.dom().contains(client) {
                    assert(self.ipc_senders@.contains_key(client));
                }
                if order.contains(client) {
                    let k = choose|k: int| 0 <= k < order.len() && order[k] == client;
                    assert(order[k] == client);
                }
            }
            assert(lists_once(order, self@.clients.dom()));
        }
        responses
    }

    /// The subchannel that was announced to a one-shot server, and under which
    /// name, given what was received and, if it was something else, its
    /// description.
    pub fn receive_sub_channel(received: Result<MultiMessage, IpcError>, described: String) -> (announced:
        Result<(SubChannelId, String), MultiplexError>)
        ensures
            (match received {
                Ok(MultiMessage::SubChannelId(scid, name)) => announced == Ok::<
                    (SubChannelId, String),
                    MultiplexError,
                >((scid, name)),
                Ok(_) => announced is Err && announced->Err_0@ == MultiplexErrorView::InternalError(
                    "unexpected multi message "@ + described@,
                ),
                Err(e) => announced == Err::<(SubChannelId, String), MultiplexError>(
                    multiplex_error(e),
                ),
            }),
    {
        match received {
            Ok(MultiMessage::SubChannelId(scid, name)) => Ok((scid, name)),
            Ok(_) => Err(
                MultiplexError::InternalError(
                    join("unexpected multi message ", described.as_str()),
                ),
            ),
            Err(e) => Err(MultiplexError::from(e)),
        }
    }

    /// The disconnector for a subsender that has just been received, given the
    /// one that copies of it received before still hold, if any does. The copies
    /// share that one, so that the receiver is told of the last drop only; if
    /// there is none, a new one is put on record.
    pub fn disconnector_given(
        &mut self,
        found: Option<Arc<SubChannelDisconnector>>,
        scid: SubChannelId,
        ipc_sender: &Arc<ForwardSender>,
    ) -> (disconnector: Arc<SubChannelDisconnector>)
        ensures
            (match found {
                Some(shared) => disconnector == shared && final(self)@ == old(self)@,
                None => {
                    &&& *disconnector == fresh_disconnector(scid, *ipc_sender, old(self)@.uuid)
                    &&& final(self)@ == MultiReceiverView {
                        disconnectors: old(self)@.disconnectors.insert(scid.0, *disconnector),
                        ..old(self)@
                    }
                },
            }),
    {
        match found {
            Some(shared) => shared,
            None => {
                let disconnector = Arc::new(
                    SubChannelDisconnector::new(
                        scid,
                        Arc::clone(ipc_sender),
                        self.ipc_receiver_uuid,
                        ipc_sender.handle,
                    ),
                );
                insert_disconnector(&mut self.disconnectors, scid.0, Arc::clone(&disconnector));
                disconnector
            },
        }
    }

    /// The disconnector for a subsender that has just been received.
    fn disconnector_for(&mut self, scid: SubChannelId, ipc_sender: &Arc<ForwardSender>) -> (disconnector:
        Arc<SubChannelDisconnector>)
        ensures
            final(self)@ == (MultiReceiverView {
                disconnectors: old(self)@.disconnectors.insert(scid.0, *disconnector),
                ..old(self)@
            }),
            *disconnector == fresh_disconnector(scid, *ipc_sender, old(self)@.uuid)
                || old(self)@.disconnectors.contains_pair(scid.0, *disconnector),
    {
        let found = get_disconnector(&self.disconnectors, scid.0);
        let disconnector = self.disconnector_given(found, scid, ipc_sender);
        assert(self@.disconnectors =~= old(self)@.disconnectors.insert(scid.0, *disconnector));
        disconnector
    }
}

/// The disconnector for a subsender that has just been received at a source.
/// The channel is known by the handle of its IPC sender.
pub open spec fn fresh_disconnector(
    scid: SubChannelId,
    ipc_sender: Arc<ForwardSender>,
    source: Uuid,
) -> SubChannelDisconnector {
    SubChannelDisconnector {
        sub_channel_id: scid,
        ipc_sender,
        source,
        multi_sender: ipc_sender.handle,
    }
}

impl SubChannelSender {
    /// A sender from what a message holds of it and the next IPC sender that
    /// came beside the message, which was received at the given receiving end.
    /// It uses a source of its own, and shares a disconnector with the copies
    /// of it that were received there before, if any is left. The message that
    /// tells its receiver of the arrival is returned too.
    pub fn deserialize(
        ids: &SubChannelSenderIds,
        receiver: &mut MultiReceiver,
        context: &mut ReceptionContext,
        sources: &mut SourceTable,
    ) -> (received: Result<(Outgoing, SubChannelSender), MultiplexError>)
        requires
            old(sources).wf(),
            !old(sources).exhausted(),
        ensures
            final(sources).wf(),
            final(context).from == old(context).from,
            final(context).via == old(context).via,
            (match received {
                Ok((notification, sender)) => {
                    let came = old(context).senders@[0];
                    &&& old(context).senders@.len() > 0
                    &&& final(context).senders@ == old(context).senders@.drop_first()
                    &&& notification == Outgoing {
                        to: came.0,
                        message: MultiMessage::Received {
                            scid: ids.sub_channel_id,
                            from: old(context).from,
                            via: old(context).via,
                            new_source: old(receiver)@.uuid,
                        },
                    }
                    &&& sender == SubChannelSender {
                        sub_channel_id: ids.sub_channel_id,
                        ipc_sender: came.0,
                        disconnector: sender.disconnector,
                        ipc_sender_uuid: came.1,
                        sender_id: sender.sender_id,
                        multi_sender: came.0.handle,
                    }
                    &&& *sender.disconnector == fresh_disconnector(
                        ids.sub_channel_id,
                        came.0,
                        old(receiver)@.uuid,
                    ) || old(receiver)@.disconnectors.contains_pair(
                        ids.sub_channel_id.0,
                        *sender.disconnector,
                    )
                    &&& final(receiver)@ == MultiReceiverView {
                        disconnectors: old(receiver)@.disconnectors.insert(
                            ids.sub_channel_id.0,
                            *sender.disconnector,
                        ),
                        ..old(receiver)@
                    }
                    &&& !old(sources)@.contains_key(sender.sender_id)
                    &&& final(sources)@ == old(sources)@.insert(sender.sender_id, Set::empty())
                },
                Err(e) => {
                    &&& old(context).senders@.len() == 0
                    &&& e@ == MultiplexErrorView::InternalError("IpcSender missing from message"@)
                    &&& final(receiver)@ == old(receiver)@
                    &&& final(sources)@ == old(sources)@
                },
            }),
    {
        let (ipc_sender, ipc_sender_uuid) = match context.senders.pop_front() {
            Some(sender) => sender,
            None => {
                return Err(
                    MultiplexError::InternalError(
                        String::from_str("IpcSender missing from message"),
                    ),
                );
            },
        };
        assert(context.senders@ =~= old(context).senders@.drop_first());
        let notification = Outgoing {
            to: Arc::clone(&ipc_sender),
            message: MultiMessage::Received {
                scid: ids.sub_channel_id,
                from: context.from,
                via: context.via,
                new_source: receiver.ipc_receiver_uuid,
            },
        };
        let disconnector = receiver.disconnector_for(ids.sub_channel_id, &ipc_sender);
        let sender_id: SourceId = sources.open();
        let multi_sender: MultiSenderId = ipc_sender.handle;
        Ok(
            (
                notification,
                SubChannelSender {
                    sub_channel_id: ids.sub_channel_id,
                    ipc_sender,
                    disconnector,
                    ipc_sender_uuid,
                    sender_id,
                    multi_sender,
                },
            ),
        )
    }
}

/// The receiving end of a subchannel.
#[derive(Debug)]
pub struct SubChannelReceiver {
    pub sub_channel_id: SubChannelId,
    pub mailbox: MailboxId,
}

/// What to do next in order to receive a message of a subchannel.
#[derive(Debug)]
pub enum RecvStep {
    /// Look in the mailbox.
    TryLocal,
    /// Receive from the IPC channel, waiting for up to the given time.
    Receive(u128),
    /// Poll the senders of all subchannels.
    Poll,
    /// Return to the caller.
    Return(Result<Vec<u8>, MultiplexError>),
}

/// What came of the last step.
#[derive(Debug)]
pub enum RecvOutcome {
    /// What was found in the mailbox.
    Local(Mail),
    /// A message was received from the IPC channel and handled with the given
    /// result, which concerns the given subchannel, if it concerns only one.
    Handled(Option<SubChannelId>, Result<(), MultiplexError>),
    /// Nothing was received from the IPC channel.
    Empty,
    /// Receiving from the IPC channel failed.
    IpcError(IpcError),
    /// Whether a probe has failed.
    Polled(bool),
}

/// How a receive goes on: a message that is in the mailbox is returned, and
/// while there is none, messages are received from the IPC channel, which may
/// be for other subchannels. A message that could not be handled is no reason to
/// stop if it concerns another subchannel. Each time that none arrives, the
/// senders are polled.
pub open spec fn recv_next(own: SubChannelId, outcome: RecvOutcome) -> RecvStep {
    match outcome {
        RecvOutcome::Local(Mail::Payload(payload)) => RecvStep::Return(Ok(payload)),
        RecvOutcome::Local(Mail::Empty) => RecvStep::Receive(POLLING_INTERVAL),
        RecvOutcome::Local(Mail::Disconnected) => RecvStep::Return(
            Err(MultiplexError::Disconnected),
        ),
        RecvOutcome::Handled(_, Ok(())) => RecvStep::TryLocal,
        RecvOutcome::Handled(about, Err(e)) => if concerns(about, own) {
            RecvStep::Return(Err(e))
        } else {
            RecvStep::TryLocal
        },
        RecvOutcome::Empty => RecvStep::Poll,
        RecvOutcome::IpcError(e) => RecvStep::Return(Err(MultiplexError::IpcError(e))),
        RecvOutcome::Polled(failed) => if failed {
            RecvStep::TryLocal
        } else {
            RecvStep::Receive(POLLING_INTERVAL)
        },
    }
}

impl SubChannelReceiver {
    /// Takes the next message from the mailbox.
    pub fn local(&self, mailboxes: &mut PayloadMailboxes) -> (found: Mail)
        requires
            old(mailboxes).wf(),
        ensures
            final(mailboxes).wf(),
            final(mailboxes).exhausted() == old(mailboxes).exhausted(),
            ({
                let known = old(mailboxes)@.contains_key(self.mailbox);
                let before = old(mailboxes)@[self.mailbox];
                if known && before.messages.len() > 0 {
                    &&& final(mailboxes)@ == old(mailboxes)@.insert(
                        self.mailbox,
                        MailboxView { messages: before.messages.drop_first(), ..before },
                    )
                    &&& found == Mail::Payload(before.messages[0])
                } else {
                    &&& final(mailboxes)@ == old(mailboxes)@
                    &&& found == if known && before.senders > 0 {
                        Mail::Empty
                    } else {
                        Mail::Disconnected
                    }
                }
            }),
    {
        match mailboxes.try_recv(self.mailbox) {
            Ok(payload) => Mail::Payload(payload),
            Err(MailboxError::Empty) => Mail::Empty,
            Err(MailboxError::Disconnected) => Mail::Disconnected,
        }
    }

    /// How a receive, which starts by looking in the mailbox, goes on.
    pub fn recv(&self, outcome: RecvOutcome) -> (step: RecvStep)
        ensures
            step == recv_next(self.sub_channel_id, outcome),
    {
        match outcome {
            RecvOutcome::Local(Mail::Payload(payload)) => RecvStep::Return(Ok(payload)),
            RecvOutcome::Local(Mail::Empty) => RecvStep::Receive(POLLING_INTERVAL),
            RecvOutcome::Local(Mail::Disconnected) => RecvStep::Return(
                Err(MultiplexError::Disconnected),
            ),
            RecvOutcome::Handled(_, Ok(())) => RecvStep::TryLocal,
            RecvOutcome::Handled(about, Err(e)) => if is_concerned(about, self.sub_channel_id) {
                RecvStep::Return(Err(e))
            } else {
                RecvStep::TryLocal
            },
            RecvOutcome::Empty => RecvStep::Poll,
            RecvOutcome::IpcError(e) => RecvStep::Return(Err(MultiplexError::IpcError(e))),
            RecvOutcome::Polled(failed) => if failed {
                RecvStep::TryLocal
            } else {
                RecvStep::Receive(POLLING_INTERVAL)
            },
        }
    }

    /// Forgets the IPC senders that came beside a message, once the message has
    /// been decoded.
    pub fn decoded(context: &mut ReceptionContext)
        ensures
            final(context).senders@.len() == 0,
            final(context).from == old(context).from,
            final(context).via == old(context).via,
    {
        context.senders = VecDeque::new();
    }

    /// Stops receiving. The messages that were not received are returned, so
    /// that the subsenders in them can be received and dropped.
    pub fn close(self, mailboxes: &mut PayloadMailboxes) -> (unreceived: VecDeque<Vec<u8>>)
        requires
            old(mailboxes).wf(),
        ensures
            final(mailboxes).wf(),
            final(mailboxes).exhausted() == old(mailboxes).exhausted(),
            final(mailboxes)@ == left_by_receiver(old(mailboxes)@, self.mailbox),
            unreceived@ == (if old(mailboxes)@.contains_key(self.mailbox) {
                old(mailboxes)@[self.mailbox].messages
            } else {
                Seq::empty()
            }),
    {
        mailboxes.drop_receiver(self.mailbox)
    }
}

/// The receiver of a subchannel learns that the last copy of its subsender has
/// been dropped: its mailbox loses its sender, after every message that arrived
/// before.
pub proof fn law_last_drop_reaches_the_receiver(
    before: MultiReceiverView,
    boxes: PayloadMap,
    context: ReceptionContext,
    scid: SubChannelId,
    source: Uuid,
    result: Result<(), MultiplexError>,
    after: MultiReceiverView,
    boxes_after: PayloadMap,
    context_after: ReceptionContext,
    id: MailboxId,
)
    requires
        before.sub_channels.contains_key(scid.0),
        before.sub_channels[scid.0].sender == Some(id),
        before.sub_channels[scid.0].dropped_at(source).unreachable(),
        accepts(boxes, id),
        boxes[id].senders == 1,
        message_handled(
            before,
            boxes,
            context,
            MultiMessage::Disconnect(scid, source),
            Seq::empty(),
            result,
            after,
            boxes_after,
            context_after,
        ),
    ensures
        after.sub_channels[scid.0].sender is None,
        boxes_after.contains_key(id),
        boxes_after[id].senders == 0,
        boxes_after[id].messages == boxes[id].messages,
{
}

/// A message that is put in the mailbox of its subchannel ends up at the end,
/// byte for byte, and no other mailbox changes.
pub proof fn law_payload_reaches_its_mailbox(
    sub_channels: Map<Uuid, SubChannelState>,
    boxes: PayloadMap,
    scid: SubChannelId,
    data: Vec<u8>,
    result: Result<(), MultiplexError>,
    boxes_after: PayloadMap,
    id: MailboxId,
    other: MailboxId,
)
    requires
        payload_sorted(sub_channels, boxes, scid, data, result, boxes_after),
        sub_channels.contains_key(scid.0),
        sub_channels[scid.0].sender == Some(id),
        accepts(boxes, id),
    ensures
        result is Ok,
        boxes_after[id].messages == boxes[id].messages.push(data),
        other != id ==> boxes_after.contains_key(other) == boxes.contains_key(other),
        other != id && boxes.contains_key(other) ==> boxes_after[other] == boxes[other],
{
}

} // verus!
