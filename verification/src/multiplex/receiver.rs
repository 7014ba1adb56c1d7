//! The receiving side of multiplexing channels whose receivers can be sent.

use crate::multiplex::channel_identification::{associates, Target};
use crate::multiplex::error::{MultiplexError, MultiplexErrorView};
use crate::multiplex::protocol::{
    ClientId, ForwardReceiver, IpcReceiverAndOrId, IpcReceiverAndOrIdView, MultiMessage,
    MultiResponse, SubChannelReceiverIds,
};
use crate::multiplex::sender::TransmissionContext;
use crate::mux::demux::unexpected_text;
use crate::mux::error::IpcError;
use crate::mux::mailbox::{
    accepts, delivered, left_by_receiver, left_by_sender, MailboxError, MailboxId, MailboxView, Mailboxes,
};
use crate::mux::protocol::{IpcSenderAndOrId, ResponseSender, SubChannelId};
use crate::mux::sender_id::ForwardSender;
use crate::mux::text::{join, quoted_text};
use crate::mux::uuids::{hyphenated, parse_uuid, parsed_uuid, uuid_text, Uuid};
use std::collections::{HashMap, VecDeque};
use std::sync::Arc;
use vstd::prelude::*;
use vstd::string::*;

verus! {

broadcast use vstd::std_specs::hash::group_hash_axioms;

/// The mailboxes of the subchannels of a process.
pub type PayloadMailboxes = Mailboxes<Vec<u8>>;

/// The contents of the mailboxes of the subchannels of a process.
pub type PayloadMap = Map<MailboxId, MailboxView<Vec<u8>>>;

/// The receiving end of a multiplexed channel.
pub struct MultiReceiver {
    ipc_receiver: Option<ForwardReceiver>,
    ipc_senders: HashMap<ClientId, ResponseSender>,
    next_client_id: ClientId,
    sub_channels: HashMap<Uuid, MailboxId>,
    ipc_senders_by_id: Target,
}

/// The mathematical counterpart of [`MultiReceiver`].
#[verifier::ext_equal]
pub struct MultiReceiverView {
    /// The IPC receiver, until it is sent elsewhere.
    pub ipc_receiver: Option<ForwardReceiver>,
    /// Where each connected client gets its responses.
    pub clients: Map<ClientId, ResponseSender>,
    /// The id that was last given to a client.
    pub next_client_id: ClientId,
    /// The mailbox of each subchannel.
    pub sub_channels: Map<Uuid, MailboxId>,
    /// The handles of the received IPC senders by UUID.
    pub senders: Map<Uuid, u64>,
}

impl View for MultiReceiver {
    type V = MultiReceiverView;

    closed spec fn view(&self) -> MultiReceiverView {
        MultiReceiverView {
            ipc_receiver: self.ipc_receiver,
            clients: self.ipc_senders@,
            next_client_id: self.next_client_id,
            sub_channels: self.sub_channels@,
            senders: self.ipc_senders_by_id@,
        }
    }
}

impl MultiReceiverView {
    /// A receiving end to which nobody has connected.
    pub open spec fn fresh(ipc_receiver: ForwardReceiver) -> Self {
        MultiReceiverView {
            ipc_receiver: Some(ipc_receiver),
            clients: Map::empty(),
            next_client_id: 0,
            sub_channels: Map::empty(),
            senders: Map::empty(),
        }
    }

    /// The stored IPC senders have changed.
    pub open spec fn with_senders(self, senders: Map<Uuid, u64>) -> Self {
        MultiReceiverView { senders, ..self }
    }

    /// The id of the next client to connect.
    pub open spec fn next_client(self) -> ClientId {
        (self.next_client_id + 1) as ClientId
    }
}

impl MultiReceiver {
    /// A receiving end to which nobody has connected.
    pub fn new(ipc_receiver: ForwardReceiver) -> (receiver: MultiReceiver)
        ensures
            receiver@ == MultiReceiverView::fresh(ipc_receiver),
    {
        MultiReceiver {
            ipc_receiver: Some(ipc_receiver),
            ipc_senders: HashMap::new(),
            next_client_id: 0,
            sub_channels: HashMap::new(),
            ipc_senders_by_id: Target::new(),
        }
    }

    /// A receiving end with one client, whose id is given. The ids of later
    /// clients come after that of the client and the one that follows it.
    pub fn with_client(
        ipc_receiver: ForwardReceiver,
        client_id: ClientId,
        response_sender: ResponseSender,
    ) -> (receiver: MultiReceiver)
        requires
            client_id < ClientId::MAX,
        ensures
            receiver@ == (MultiReceiverView {
                clients: map![client_id => response_sender],
                next_client_id: (client_id + 1) as ClientId,
                ..MultiReceiverView::fresh(ipc_receiver)
            }),
    {
        let mut receiver = MultiReceiver::new(ipc_receiver);
        receiver.ipc_senders.insert(client_id, response_sender);
        receiver.next_client_id = client_id + 1;
        assert(receiver@.clients =~= map![client_id => response_sender]);
        receiver
    }
}

/// What came beside the last message that was sorted.
pub struct ReceptionContext {
    /// The IPC senders of the subsenders in the message.
    pub senders: VecDeque<Arc<ForwardSender>>,
    /// The receiving ends of the subreceivers in the message, by UUID.
    pub receivers: VecDeque<Uuid>,
}

impl ReceptionContext {
    /// Nothing came.
    pub fn new() -> (context: ReceptionContext)
        ensures
            context.senders@.len() == 0,
            context.receivers@.len() == 0,
    {
        ReceptionContext { senders: VecDeque::new(), receivers: VecDeque::new() }
    }
}

/// The resolution of one IPC sender that a message names: one that comes with
/// its UUID is stored, and one that is named by just its UUID is looked up,
/// which fails if it was not stored or has been dropped since.
pub open spec fn sender_resolved(
    before: Map<Uuid, u64>,
    named: IpcSenderAndOrId,
    after: Map<Uuid, u64>,
    found: Result<u64, MultiplexErrorView>,
) -> bool {
    match named {
        IpcSenderAndOrId::IpcSender(sender, id) => match parsed_uuid(id@) {
            Ok(uuid) => {
                &&& found == Ok::<u64, MultiplexErrorView>(sender.handle)
                &&& associates(before, uuid, sender.handle, after)
            },
            Err(reason) => {
                &&& found == Err::<u64, MultiplexErrorView>(
                    MultiplexErrorView::InternalError("invalid UUID: "@ + reason),
                )
                &&& after == before
            },
        },
        IpcSenderAndOrId::IpcSenderId(id) => {
            &&& after == before
            &&& match parsed_uuid(id@) {
                Ok(uuid) => match found {
                    Ok(handle) => before.contains_pair(uuid, handle),
                    Err(e) => e == MultiplexErrorView::Disconnected,
                },
                Err(reason) => found == Err::<u64, MultiplexErrorView>(
                    MultiplexErrorView::InternalError("invalid UUID: "@ + reason),
                ),
            }
        },
    }
}

/// The resolution of the IPC senders that a message names one by one until the
/// first failure. `steps` are the stored senders before, between and after.
pub open spec fn senders_resolved(
    named: Seq<IpcSenderAndOrId>,
    steps: Seq<Map<Uuid, u64>>,
    found: Seq<u64>,
    error: Option<MultiplexErrorView>,
) -> bool {
    &&& steps.len() == found.len() + 1
    &&& found.len() <= named.len()
    &&& forall|i: int|
        #![trigger found[i]]
        0 <= i < found.len() ==> sender_resolved(
            steps[i],
            named[i],
            steps[i + 1],
            Ok::<u64, MultiplexErrorView>(found[i]),
        )
    &&& match error {
        None => found.len() == named.len(),
        Some(e) => found.len() < named.len() && sender_resolved(
            steps.last(),
            named[found.len() as int],
            steps.last(),
            Err::<u64, MultiplexErrorView>(e),
        ),
    }
}

/// What comes of resolving the IPC receivers that a message names.
#[verifier::ext_equal]
pub struct ResolvedReceivers {
    /// All receiving ends by UUID.
    pub grid: Map<Uuid, MultiReceiverView>,
    /// The UUIDs of the receivers resolved so far.
    pub found: Seq<Uuid>,
    /// The reason for which resolving stopped, if it did.
    pub error: Option<MultiplexErrorView>,
}

/// Resolves the IPC receivers that a message names one by one until the first
/// failure: one that comes with its UUID becomes a new receiving end, and one
/// that is named by just its UUID has to be there.
pub open spec fn receivers_resolved(
    grid: Map<Uuid, MultiReceiverView>,
    named: Seq<IpcReceiverAndOrId>,
) -> ResolvedReceivers
    decreases named.len(),
{
    if named.len() == 0 {
        ResolvedReceivers { grid, found: Seq::empty(), error: None }
    } else {
        let before = receivers_resolved(grid, named.drop_last());
        if before.error is Some {
            before
        } else {
            match named.last() {
                IpcReceiverAndOrId::IpcReceiver(receiver, id) => match parsed_uuid(id@) {
                    Ok(uuid) => ResolvedReceivers {
                        grid: before.grid.insert(uuid, MultiReceiverView::fresh(receiver)),
                        found: before.found.push(uuid),
                        error: None,
                    },
                    Err(reason) => ResolvedReceivers {
                        error: Some(
                            MultiplexErrorView::InternalError("invalid UUID: "@ + reason),
                        ),
                        ..before
                    },
                },
                IpcReceiverAndOrId::IpcReceiverId(id) => match parsed_uuid(id@) {
                    Ok(uuid) => if before.grid.contains_key(uuid) {
                        ResolvedReceivers { found: before.found.push(uuid), ..before }
                    } else {
                        ResolvedReceivers {
                            error: Some(MultiplexErrorView::Disconnected),
                            ..before
                        }
                    },
                    Err(reason) => ResolvedReceivers {
                        error: Some(
                            MultiplexErrorView::InternalError("invalid UUID: "@ + reason),
                        ),
                        ..before
                    },
                },
            }
        }
    }
}

/// A failure to resolve one IPC receiver ends the resolution of all that
/// follow.
proof fn lemma_failure_ends_resolution(
    grid: Map<Uuid, MultiReceiverView>,
    named: Seq<IpcReceiverAndOrId>,
    n: int,
)
    requires
        0 <= n <= named.len(),
        receivers_resolved(grid, named.take(n)).error is Some,
    ensures
        receivers_resolved(grid, named) == receivers_resolved(grid, named.take(n)),
    decreases named.len(),
{
    if n == named.len() {
        assert(named.take(n) =~= named);
    } else {
        assert(named.drop_last().take(n) =~= named.take(n));
        lemma_failure_ends_resolution(grid, named.drop_last(), n);
    }
}

/// The counterpart of an error that there may be.
pub open spec fn reason(error: Option<MultiplexError>) -> Option<MultiplexErrorView> {
    match error {
        Some(e) => Some(e@),
        None => None,
    }
}

/// The handles of IPC senders.
pub open spec fn handles(senders: Seq<Arc<ForwardSender>>) -> Seq<u64> {
    senders.map_values(|sender: Arc<ForwardSender>| sender.handle)
}

/// What came of putting a message in the mailbox of its subchannel.
pub open spec fn payload_sorted(
    sub_channels: Map<Uuid, MailboxId>,
    boxes: PayloadMap,
    scid: SubChannelId,
    data: Vec<u8>,
    result: Result<(), MultiplexError>,
    boxes_after: PayloadMap,
) -> bool {
    if sub_channels.contains_key(scid.0) {
        let id = sub_channels[scid.0];
        if accepts(boxes, id) {
            result is Ok && boxes_after == delivered(boxes, id, data)
        } else {
            result == Err::<(), MultiplexError>(MultiplexError::MpmcSendError) && boxes_after
                == boxes
        }
    } else {
        &&& result is Err
        &&& result->Err_0@ == MultiplexErrorView::InternalError(
            "invalid subchannel id "@ + hyphenated(scid.0),
        )
        &&& boxes_after == boxes
    }
}

/// What came of a message for a subchannel at a receiving end.
pub open spec fn data_handled(
    grid: Map<Uuid, MultiReceiverView>,
    boxes: PayloadMap,
    context: ReceptionContext,
    receiver: Uuid,
    scid: SubChannelId,
    data: Vec<u8>,
    senders: Seq<IpcSenderAndOrId>,
    receivers: Seq<IpcReceiverAndOrId>,
    result: Result<(), MultiplexError>,
    grid_after: Map<Uuid, MultiReceiverView>,
    boxes_after: PayloadMap,
    context_after: ReceptionContext,
) -> bool {
    let state = grid[receiver];
    exists|steps: Seq<Map<Uuid, u64>>, found: Seq<u64>, error: Option<MultiplexErrorView>|
        {
            let known = grid.insert(receiver, state.with_senders(steps.last()));
            let resolved = receivers_resolved(known, receivers);
            &&& #[trigger] senders_resolved(senders, steps, found, error)
            &&& steps[0] == state.senders
            &&& match error {
                Some(e) => {
                    &&& result is Err
                    &&& result->Err_0@ == e
                    &&& grid_after == known
                    &&& boxes_after == boxes
                    &&& context_after == context
                },
                None => {
                    &&& grid_after == resolved.grid
                    &&& match resolved.error {
                        Some(e) => {
                            &&& result is Err
                            &&& result->Err_0@ == e
                            &&& boxes_after == boxes
                            &&& context_after == context
                        },
                        None => {
                            &&& handles(context_after.senders@) == found
                            &&& context_after.receivers@ == resolved.found
                            &&& payload_sorted(
                                state.sub_channels,
                                boxes,
                                scid,
                                data,
                                result,
                                boxes_after,
                            )
                        },
                    }
                },
            }
        }
}

/// If a message asks for a client id, there is one left.
pub open spec fn countable(state: MultiReceiverView, message: MultiMessage) -> bool {
    message is Connect ==> state.next_client_id < ClientId::MAX
}

/// What came of a message at a receiving end. If the message asked for a client
/// id, the answer was sent with the given outcome.
pub open spec fn message_handled(
    grid: Map<Uuid, MultiReceiverView>,
    boxes: PayloadMap,
    context: ReceptionContext,
    receiver: Uuid,
    message: MultiMessage,
    answered: Result<(), IpcError>,
    result: Result<(), MultiplexError>,
    grid_after: Map<Uuid, MultiReceiverView>,
    boxes_after: PayloadMap,
    context_after: ReceptionContext,
) -> bool {
    let state = grid[receiver];
    match message {
        MultiMessage::Connect(sender) => {
            let counted = MultiReceiverView { next_client_id: state.next_client(), ..state };
            &&& boxes_after == boxes
            &&& context_after == context
            &&& match answered {
                Ok(()) => {
                    &&& result is Ok
                    &&& grid_after == grid.insert(
                        receiver,
                        MultiReceiverView {
                            clients: state.clients.insert(state.next_client(), sender),
                            ..counted
                        },
                    )
                },
                Err(e) => {
                    &&& result == Err::<(), MultiplexError>(MultiplexError::IpcError(e))
                    &&& grid_after == grid.insert(receiver, counted)
                },
            }
        },
        MultiMessage::Data(scid, data, senders, receivers) => data_handled(
            grid,
            boxes,
            context,
            receiver,
            scid,
            data,
            senders@,
            receivers@,
            result,
            grid_after,
            boxes_after,
            context_after,
        ),
        MultiMessage::SubChannelId(scid, name) => {
            &&& result is Err
            &&& result->Err_0@ == MultiplexErrorView::InternalError(unexpected_text(scid, name@))
            &&& grid_after == grid
            &&& boxes_after == boxes
            &&& context_after == context
        },
        MultiMessage::Disconnect(scid) => {
            &&& result is Ok
            &&& context_after == context
            &&& grid_after == grid.insert(
                receiver,
                MultiReceiverView { sub_channels: state.sub_channels.remove(scid.0), ..state },
            )
            &&& boxes_after == left_by_former(state.sub_channels, scid, boxes)
        },
    }
}

/// The mailboxes after the one that a subchannel used has lost a sender.
pub open spec fn left_by_former(
    sub_channels: Map<Uuid, MailboxId>,
    scid: SubChannelId,
    boxes: PayloadMap,
) -> PayloadMap {
    if sub_channels.contains_key(scid.0) {
        left_by_sender(boxes, sub_channels[scid.0])
    } else {
        boxes
    }
}

/// Receiving ends that know each other by their UUIDs: one that was created or
/// accepted here, and those that were received in messages.
pub struct Grid {
    receivers: HashMap<Uuid, MultiReceiver>,
}

impl View for Grid {
    type V = Map<Uuid, MultiReceiverView>;

    closed spec fn view(&self) -> Map<Uuid, MultiReceiverView> {
        self.receivers@.map_values(|receiver: MultiReceiver| receiver@)
    }
}

impl Grid {
    /// A grid of one receiving end.
    pub fn new(uuid: Uuid, receiver: MultiReceiver) -> (grid: Grid)
        ensures
            grid@ == map![uuid => receiver@],
    {
        let mut receivers: HashMap<Uuid, MultiReceiver> = HashMap::new();
        receivers.insert(uuid, receiver);
        let grid = Grid { receivers };
        assert(grid@ =~= map![uuid => receiver@]);
        grid
    }

    /// Where the messages for a receiving end arrive. There is no such place
    /// once the receiver has been sent elsewhere.
    pub fn ipc_receiver(&self, receiver: Uuid) -> (handle: Option<u64>)
        ensures
            handle == (if self@.contains_key(receiver) && self@[receiver].ipc_receiver is Some {
                Some(self@[receiver].ipc_receiver->0.handle)
            } else {
                None
            }),
    {
        match self.receivers.get(&receiver) {
            Some(state) => match &state.ipc_receiver {
                Some(ipc_receiver) => Some(ipc_receiver.handle),
                None => None,
            },
            None => None,
        }
    }

    /// Whether a receiving end is here and has an id for the client that a
    /// message asks one for, if it does.
    pub fn can_take(&self, receiver: Uuid, message: &MultiMessage) -> (can: bool)
        ensures
            can == (self@.contains_key(receiver) && countable(self@[receiver], *message)),
    {
        match self.receivers.get(&receiver) {
            Some(state) => match message {
                MultiMessage::Connect(_) => state.next_client_id < ClientId::MAX,
                _ => true,
            },
            None => false,
        }
    }

    /// Directs the messages for a subchannel at a receiving end to a mailbox.
    fn direct(
        &mut self,
        receiver: Uuid,
        scid: SubChannelId,
        mailbox: MailboxId,
        mailboxes: &mut PayloadMailboxes,
    )
        requires
            old(self)@.contains_key(receiver),
            old(mailboxes).wf(),
        ensures
            final(self)@ == old(self)@.insert(
                receiver,
                MultiReceiverView {
                    sub_channels: old(self)@[receiver].sub_channels.insert(scid.0, mailbox),
                    ..old(self)@[receiver]
                },
            ),
            final(mailboxes).wf(),
            final(mailboxes).exhausted() == old(mailboxes).exhausted(),
            final(mailboxes)@ == left_by_former(
                old(self)@[receiver].sub_channels,
                scid,
                old(mailboxes)@,
            ),
    {
        match self.receivers.remove(&receiver) {
            Some(state) => {
                let mut state = state;
                let former: Option<MailboxId> = state.sub_channels.insert(scid.0, mailbox);
                self.receivers.insert(receiver, state);
                assert(self@ =~= old(self)@.insert(receiver, state@));
                match former {
                    Some(id) => {
                        mailboxes.drop_sender(id);
                    },
                    None => {},
                }
            },
            None => {},
        }
    }

    /// Starts receiving from a subchannel at a receiving end.
    pub fn attach(
        &mut self,
        receiver: Uuid,
        sub_channel_id: SubChannelId,
        mailboxes: &mut PayloadMailboxes,
    ) -> (attached: SubChannelReceiver)
        requires
            old(self)@.contains_key(receiver),
            old(mailboxes).wf(),
            !old(mailboxes).exhausted(),
        ensures
            attached.multi_receiver == receiver,
            attached.ipc_receiver_uuid == receiver,
            attached.sub_channel_id == sub_channel_id,
            !old(mailboxes)@.contains_key(attached.mailbox),
            final(mailboxes).wf(),
            final(mailboxes)@ == left_by_former(
                old(self)@[receiver].sub_channels,
                sub_channel_id,
                old(mailboxes)@.insert(attached.mailbox, MailboxView::opened()),
            ),
            final(self)@ == old(self)@.insert(
                receiver,
                MultiReceiverView {
                    sub_channels: old(self)@[receiver].sub_channels.insert(
                        sub_channel_id.0,
                        attached.mailbox,
                    ),
                    ..old(self)@[receiver]
                },
            ),
    {
        let mailbox: MailboxId = mailboxes.open();
        self.direct(receiver, sub_channel_id, mailbox, mailboxes);
        SubChannelReceiver {
            multi_receiver: receiver,
            sub_channel_id,
            ipc_receiver_uuid: receiver,
            mailbox,
        }
    }

    /// What a message is to be answered by, and where, before it is handled.
    pub fn answer(&self, receiver: Uuid, message: &MultiMessage) -> (answer: Option<
        (ResponseSender, MultiResponse),
    >)
        requires
            self@.contains_key(receiver),
            countable(self@[receiver], *message),
        ensures
            answer == (match *message {
                MultiMessage::Connect(sender) => Some(
                    (sender, MultiResponse::ClientId(self@[receiver].next_client())),
                ),
                _ => None,
            }),
    {
        match message {
            MultiMessage::Connect(sender) => {
                match self.receivers.get(&receiver) {
                    Some(state) => Some(
                        (*sender, MultiResponse::ClientId(state.next_client_id + 1)),
                    ),
                    None => None,
                }
            },
            _ => None,
        }
    }
}

/// Resolves one IPC sender that a message names.
fn resolve_sender(named: &IpcSenderAndOrId, known: &mut Target) -> (found: Result<
    Arc<ForwardSender>,
    MultiplexError,
>)
    ensures
        sender_resolved(
            old(known)@,
            *named,
            final(known)@,
            match found {
                Ok(sender) => Ok::<u64, MultiplexErrorView>(sender.handle),
                Err(e) => Err::<u64, MultiplexErrorView>(e@),
            },
        ),
        found is Err ==> final(known)@ == old(known)@,
{
    match named {
        IpcSenderAndOrId::IpcSender(sender, id) => {
            match parse_uuid(id.as_str()) {
                Ok(uuid) => {
                    let received = Arc::new(ForwardSender { handle: sender.handle });
                    known.add(uuid, &received);
                    Ok(received)
                },
                Err(e) => Err(MultiplexError::InternalError(e)),
            }
        },
        IpcSenderAndOrId::IpcSenderId(id) => {
            match parse_uuid(id.as_str()) {
                Ok(uuid) => {
                    match known.look_up(uuid) {
                        Some(sender) => Ok(sender),
                        None => Err(MultiplexError::Disconnected),
                    }
                },
                Err(e) => Err(MultiplexError::InternalError(e)),
            }
        },
    }
}

impl MultiReceiver {
    /// Resolves the IPC senders that a message names.
    fn resolve_senders(&mut self, named: &Vec<IpcSenderAndOrId>) -> (resolved: (
        VecDeque<Arc<ForwardSender>>,
        Option<MultiplexError>,
    ))
        ensures
            exists|steps: Seq<Map<Uuid, u64>>|
                {
                    &&& #[trigger] senders_resolved(
                        named@,
                        steps,
                        handles(resolved.0@),
                        reason(resolved.1),
                    )
                    &&& steps[0] == old(self)@.senders
                    &&& final(self)@ == old(self)@.with_senders(steps.last())
                },
    {
        let mut found: VecDeque<Arc<ForwardSender>> = VecDeque::new();
        let ghost mut steps: Seq<Map<Uuid, u64>> = seq![self@.senders];
        let mut i: usize = 0;
        while i < named.len()
            invariant
                i <= named.len(),
                found@.len() == i,
                steps.len() == i + 1,
                steps[0] == old(self)@.senders,
                self@ == old(self)@.with_senders(steps.last()),
                forall|j: int|
                    #![trigger handles(found@)[j]]
                    0 <= j < i ==> sender_resolved(
                        steps[j],
                        named@[j],
                        steps[j + 1],
                        Ok::<u64, MultiplexErrorView>(handles(found@)[j]),
                    ),
            decreases named.len() - i,
        {
            let ghost before = steps;
            let ghost so_far = found@;
            match resolve_sender(&named[i], &mut self.ipc_senders_by_id) {
                Ok(sender) => {
                    let ghost handle = sender.handle;
                    found.push_back(sender);
                    proof {
                        steps = steps.push(self@.senders);
                        assert(handles(found@) =~= handles(so_far).push(handle));
                        assert forall|j: int| #![trigger handles(found@)[j]] 0 <= j < i + 1 implies sender_resolved(
                            steps[j],
                            named@[j],
                            steps[j + 1],
                            Ok::<u64, MultiplexErrorView>(handles(found@)[j]),
                        ) by {
                            if j < i {
                                assert(handles(so_far)[j] == handles(found@)[j]);
                                assert(steps[j] == before[j]);
                                assert(steps[j + 1] == before[j + 1]);
                            }
                        }
                    }
                },
                Err(e) => {
                    assert(self@.senders == steps.last());
                    let resolved = (found, Some(e));
                    assert(senders_resolved(named@, steps, handles(resolved.0@), reason(resolved.1)));
                    return resolved;
                },
            }
            i += 1;
        }
        let resolved: (VecDeque<Arc<ForwardSender>>, Option<MultiplexError>) = (found, None);
        assert(senders_resolved(named@, steps, handles(resolved.0@), reason(resolved.1)));
        resolved
    }
}

impl Grid {
    /// Resolves the IPC receivers that a message names.
    fn resolve_receivers(&mut self, named: &Vec<IpcReceiverAndOrId>) -> (resolved: (
        VecDeque<Uuid>,
        Option<MultiplexError>,
    ))
        ensures
            ({
                let all = receivers_resolved(old(self)@, named@);
                &&& final(self)@ == all.grid
                &&& resolved.0@ == all.found
                &&& match resolved.1 {
                    Some(e) => all.error == Some(e@),
                    None => all.error is None,
                }
            }),
    {
        let mut found: VecDeque<Uuid> = VecDeque::new();
        assert(named@.take(0) =~= Seq::empty());
        let mut i: usize = 0;
        while i < named.len()
            invariant
                i <= named.len(),
                ({
                    let so_far = receivers_resolved(old(self)@, named@.take(i as int));
                    &&& self@ == so_far.grid
                    &&& found@ == so_far.found
                    &&& so_far.error is None
                }),
            decreases named.len() - i,
        {
            let ghost before = self@;
            proof {
                assert(named@.take(i + 1).drop_last() =~= named@.take(i as int));
                assert(named@.take(i + 1).last() == named@[i as int]);
                if receivers_resolved(old(self)@, named@.take(i + 1)).error is Some {
                    lemma_failure_ends_resolution(old(self)@, named@, i + 1);
                }
            }
            match &named[i] {
                IpcReceiverAndOrId::IpcReceiver(ipc_receiver, id) => {
                    match parse_uuid(id.as_str()) {
                        Ok(uuid) => {
                            let state = MultiReceiver::new(
                                ForwardReceiver { handle: ipc_receiver.handle },
                            );
                            self.receivers.insert(uuid, state);
                            assert(self@ =~= before.insert(uuid, state@));
                            found.push_back(uuid);
                        },
                        Err(e) => {
                            return (found, Some(MultiplexError::InternalError(e)));
                        },
                    }
                },
                IpcReceiverAndOrId::IpcReceiverId(id) => {
                    match parse_uuid(id.as_str()) {
                        Ok(uuid) => {
                            if !self.receivers.contains_key(&uuid) {
                                return (found, Some(MultiplexError::Disconnected));
                            }
                            found.push_back(uuid);
                        },
                        Err(e) => {
                            return (found, Some(MultiplexError::InternalError(e)));
                        },
                    }
                },
            }
            i += 1;
        }
        assert(named@.take(named@.len() as int) =~= named@);
        (found, None)
    }
}

/// Puts a message in the mailbox of its subchannel.
fn sort_payload(
    mailbox: Option<MailboxId>,
    scid: SubChannelId,
    data: Vec<u8>,
    mailboxes: &mut PayloadMailboxes,
    Ghost(sub_channels): Ghost<Map<Uuid, MailboxId>>,
) -> (result: Result<(), MultiplexError>)
    requires
        old(mailboxes).wf(),
        mailbox == (if sub_channels.contains_key(scid.0) {
            Some(sub_channels[scid.0])
        } else {
            None
        }),
    ensures
        final(mailboxes).wf(),
        final(mailboxes).exhausted() == old(mailboxes).exhausted(),
        payload_sorted(
            sub_channels,
            old(mailboxes)@,
            scid,
            data,
            result,
            final(mailboxes)@,
        ),
{
    match mailbox {
        Some(id) => {
            match mailboxes.send(id, data) {
                Ok(()) => Ok(()),
                Err(_) => Err(MultiplexError::MpmcSendError),
            }
        },
        None => {
            let text = uuid_text(scid.0);
            Err(MultiplexError::InternalError(join("invalid subchannel id ", text.as_str())))
        },
    }
}

impl Grid {
    /// Handles a message for a subchannel.
    fn sort(
        &mut self,
        receiver: Uuid,
        scid: SubChannelId,
        data: Vec<u8>,
        senders: Vec<IpcSenderAndOrId>,
        receivers: Vec<IpcReceiverAndOrId>,
        context: &mut ReceptionContext,
        mailboxes: &mut PayloadMailboxes,
    ) -> (result: Result<(), MultiplexError>)
        requires
            old(self)@.contains_key(receiver),
            old(mailboxes).wf(),
        ensures
            final(mailboxes).wf(),
            final(mailboxes).exhausted() == old(mailboxes).exhausted(),
            data_handled(
                old(self)@,
                old(mailboxes)@,
                *old(context),
                receiver,
                scid,
                data,
                senders@,
                receivers@,
                result,
                final(self)@,
                final(mailboxes)@,
                *final(context),
            ),
    {
        let ghost state = self@[receiver];
        let mut current = match self.receivers.remove(&receiver) {
            Some(current) => current,
            None => {
                assert(false);
                return Err(MultiplexError::Disconnected);
            },
        };
        assert(current@ == state);
        let mailbox: Option<MailboxId> = match current.sub_channels.get(&scid.0) {
            Some(id) => Some(*id),
            None => None,
        };
        let (found_senders, sender_error) = current.resolve_senders(&senders);
        let ghost known = current@;
        let ghost error = reason(sender_error);
        let ghost steps = choose|steps: Seq<Map<Uuid, u64>>|
            {
                &&& #[trigger] senders_resolved(senders@, steps, handles(found_senders@), error)
                &&& steps[0] == state.senders
                &&& known == state.with_senders(steps.last())
            };
        self.receivers.insert(receiver, current);
        assert(self@ =~= old(self)@.insert(receiver, known));
        assert(senders_resolved(senders@, steps, handles(found_senders@), error));
        match sender_error {
            Some(e) => {
                return Err(e);
            },
            None => {},
        }
        let (found_receivers, receiver_error) = self.resolve_receivers(&receivers);
        match receiver_error {
            Some(e) => {
                return Err(e);
            },
            None => {},
        }
        context.senders = found_senders;
        context.receivers = found_receivers;
        sort_payload(mailbox, scid, data, mailboxes, Ghost(state.sub_channels))
    }

    /// Handles a message that has arrived at a receiving end. If the message is
    /// to be answered, the answer has been sent with the given outcome.
    pub fn handle(
        &mut self,
        receiver: Uuid,
        message: MultiMessage,
        answered: Result<(), IpcError>,
        context: &mut ReceptionContext,
        mailboxes: &mut PayloadMailboxes,
    ) -> (result: Result<(), MultiplexError>)
        requires
            old(self)@.contains_key(receiver),
            countable(old(self)@[receiver], message),
            old(mailboxes).wf(),
        ensures
            final(mailboxes).wf(),
            final(mailboxes).exhausted() == old(mailboxes).exhausted(),
            message_handled(
                old(self)@,
                old(mailboxes)@,
                *old(context),
                receiver,
                message,
                answered,
                result,
                final(self)@,
                final(mailboxes)@,
                *final(context),
            ),
    {
        let ghost state = self@[receiver];
        match message {
            MultiMessage::Connect(sender) => {
                match self.receivers.remove(&receiver) {
                    Some(current) => {
                        let mut current = current;
                        current.next_client_id = current.next_client_id + 1;
                        let client_id: ClientId = current.next_client_id;
                        let result: Result<(), MultiplexError> = match answered {
                            Ok(()) => {
                                current.ipc_senders.insert(client_id, sender);
                                Ok(())
                            },
                            Err(e) => Err(MultiplexError::from(e)),
                        };
                        self.receivers.insert(receiver, current);
                        assert(self@ =~= old(self)@.insert(receiver, current@));
                        result
                    },
                    None => {
                        assert(false);
                        Ok(())
                    },
                }
            },
            MultiMessage::Data(scid, data, senders, receivers) => self.sort(
                receiver,
                scid,
                data,
                senders,
                receivers,
                context,
                mailboxes,
            ),
            MultiMessage::Disconnect(scid) => {
                match self.receivers.remove(&receiver) {
                    Some(current) => {
                        let mut current = current;
                        let former: Option<MailboxId> = current.sub_channels.remove(&scid.0);
                        self.receivers.insert(receiver, current);
                        assert(self@ =~= old(self)@.insert(receiver, current@));
                        match former {
                            Some(id) => {
                                mailboxes.drop_sender(id);
                            },
                            None => {},
                        }
                        assert(current@ =~= MultiReceiverView {
                            sub_channels: state.sub_channels.remove(scid.0),
                            ..state
                        });
                    },
                    None => {
                        assert(false);
                    },
                }
                Ok(())
            },
            MultiMessage::SubChannelId(scid, name) => {
                let id_text = uuid_text(scid.0);
                let name_text = quoted_text(name.as_str());
                let text = join(
                    "unexpected multi message SubChannelId(SubChannelId(",
                    id_text.as_str(),
                );
                let text = join(text.as_str(), "), ");
                let text = join(text.as_str(), name_text.as_str());
                let text = join(text.as_str(), ")");
                Err(MultiplexError::InternalError(text))
            },
        }
    }
}

impl Grid {
    /// Handles what was received at a receiving end.
    pub fn receive(
        &mut self,
        receiver: Uuid,
        received: Result<MultiMessage, IpcError>,
        answered: Result<(), IpcError>,
        context: &mut ReceptionContext,
        mailboxes: &mut PayloadMailboxes,
    ) -> (result: Result<(), MultiplexError>)
        requires
            old(self)@.contains_key(receiver),
            received matches Ok(message) ==> countable(old(self)@[receiver], message),
            old(mailboxes).wf(),
        ensures
            final(mailboxes).wf(),
            final(mailboxes).exhausted() == old(mailboxes).exhausted(),
            (match received {
                Ok(message) => message_handled(
                    old(self)@,
                    old(mailboxes)@,
                    *old(context),
                    receiver,
                    message,
                    answered,
                    result,
                    final(self)@,
                    final(mailboxes)@,
                    *final(context),
                ),
                Err(e) => {
                    &&& result == Err::<(), MultiplexError>(MultiplexError::IpcError(e))
                    &&& final(self)@ == old(self)@
                    &&& final(mailboxes)@ == old(mailboxes)@
                    &&& *final(context) == *old(context)
                },
            }),
    {
        match received {
            Ok(message) => self.handle(receiver, message, answered, context, mailboxes),
            Err(e) => Err(MultiplexError::from(e)),
        }
    }

    /// The subchannel that was announced to a one-shot server, and under which
    /// name, given what was received and, if it was something else, its
    /// description.
    pub fn receive_sub_channel(received: Result<MultiMessage, IpcError>, described: String) -> (announced:
        Result<(SubChannelId, String), MultiplexError>)
        ensures
            (match received {
                Ok(MultiMessage::SubChannelId(scid, name)) => announced == Ok::<
                    (SubChannelId, String),
                    MultiplexError,
                >((scid, name)),
                Ok(_) => announced is Err && announced->Err_0@ == MultiplexErrorView::InternalError(
                    "unexpected multi message "@ + described@,
                ),
                Err(e) => announced == Err::<(SubChannelId, String), MultiplexError>(
                    MultiplexError::IpcError(e),
                ),
            }),
    {
        match received {
            Ok(MultiMessage::SubChannelId(scid, name)) => Ok((scid, name)),
            Ok(_) => Err(
                MultiplexError::InternalError(
                    join("unexpected multi message ", described.as_str()),
                ),
            ),
            Err(e) => Err(MultiplexError::from(e)),
        }
    }
}

/// The receiving end of a subchannel.
#[derive(Debug)]
pub struct SubChannelReceiver {
    /// The receiving end that the messages come through.
    pub multi_receiver: Uuid,
    pub sub_channel_id: SubChannelId,
    /// The UUID that identifies the IPC receiver.
    pub ipc_receiver_uuid: Uuid,
    pub mailbox: MailboxId,
}

/// What the receiver of a subchannel finds in its mailbox.
#[derive(Debug)]
pub enum Mail {
    /// The bytes of a message.
    Payload(Vec<u8>),
    /// Nothing yet.
    Empty,
    /// All senders are gone.
    Disconnected,
}

/// What to do next in order to receive a message of a subchannel.
#[derive(Debug)]
pub enum RecvStep {
    /// Look in the mailbox.
    TryLocal,
    /// Receive from the IPC channel.
    Receive,
    /// Return to the caller.
    Return(Result<Vec<u8>, MultiplexError>),
}

/// What came of the last step.
#[derive(Debug)]
pub enum RecvOutcome {
    /// What was found in the mailbox.
    Local(Mail),
    /// What came of receiving from the IPC channel.
    Received(Result<(), MultiplexError>),
}

/// How a receive goes on: a message that is in the mailbox is returned, and
/// while there is none, messages are received from the IPC channel, which may
/// be for other subchannels.
pub open spec fn recv_next(outcome: RecvOutcome) -> RecvStep {
    match outcome {
        RecvOutcome::Local(Mail::Payload(payload)) => RecvStep::Return(Ok(payload)),
        RecvOutcome::Local(Mail::Empty) => RecvStep::Receive,
        RecvOutcome::Local(Mail::Disconnected) => RecvStep::Return(
            Err(MultiplexError::Disconnected),
        ),
        RecvOutcome::Received(Ok(())) => RecvStep::TryLocal,
        RecvOutcome::Received(Err(e)) => RecvStep::Return(Err(e)),
    }
}

impl SubChannelReceiver {
    /// Takes the next message from the mailbox.
    pub fn local(&self, mailboxes: &mut PayloadMailboxes) -> (found: Mail)
        requires
            old(mailboxes).wf(),
        ensures
            final(mailboxes).wf(),
            final(mailboxes).exhausted() == old(mailboxes).exhausted(),
            ({
                let known = old(mailboxes)@.contains_key(self.mailbox);
                let before = old(mailboxes)@[self.mailbox];
                if known && before.messages.len() > 0 {
                    &&& final(mailboxes)@ == old(mailboxes)@.insert(
                        self.mailbox,
                        MailboxView { messages: before.messages.drop_first(), ..before },
                    )
                    &&& found == Mail::Payload(before.messages[0])
                } else {
                    &&& final(mailboxes)@ == old(mailboxes)@
                    &&& found == if known && before.senders > 0 {
                        Mail::Empty
                    } else {
                        Mail::Disconnected
                    }
                }
            }),
    {
        match mailboxes.try_recv(self.mailbox) {
            Ok(payload) => Mail::Payload(payload),
            Err(MailboxError::Empty) => Mail::Empty,
            Err(MailboxError::Disconnected) => Mail::Disconnected,
        }
    }

    /// How a receive, which starts by looking in the mailbox, goes on.
    pub fn recv(outcome: RecvOutcome) -> (step: RecvStep)
        ensures
            step == recv_next(outcome),
    {
        match outcome {
            RecvOutcome::Local(Mail::Payload(payload)) => RecvStep::Return(Ok(payload)),
            RecvOutcome::Local(Mail::Empty) => RecvStep::Receive,
            RecvOutcome::Local(Mail::Disconnected) => RecvStep::Return(
                Err(MultiplexError::Disconnected),
            ),
            RecvOutcome::Received(Ok(())) => RecvStep::TryLocal,
            RecvOutcome::Received(Err(e)) => RecvStep::Return(Err(e)),
        }
    }

    /// Forgets the IPC senders that came beside a message, once the message has
    /// been decoded.
    pub fn decoded(context: &mut ReceptionContext)
        ensures
            final(context).senders@.len() == 0,
            final(context).receivers == old(context).receivers,
    {
        context.senders = VecDeque::new();
    }

    /// Stops receiving.
    pub fn close(self, mailboxes: &mut PayloadMailboxes)
        requires
            old(mailboxes).wf(),
        ensures
            final(mailboxes).wf(),
            final(mailboxes).exhausted() == old(mailboxes).exhausted(),
            final(mailboxes)@ == left_by_receiver(old(mailboxes)@, self.mailbox),
    {
        let _ = mailboxes.drop_receiver(self.mailbox);
    }

    /// Puts this receiver in the message that is being encoded: the IPC
    /// receiver leaves its receiving end. What the message itself gets is
    /// returned.
    pub fn serialize(&self, grid: &mut Grid, context: &mut TransmissionContext) -> (ids:
        SubChannelReceiverIds)
        requires
            old(grid)@.contains_key(self.multi_receiver),
        ensures
            ids.sub_channel_id == self.sub_channel_id,
            ids.ipc_receiver_uuid@ == hyphenated(self.ipc_receiver_uuid),
            final(grid)@ == old(grid)@.insert(
                self.multi_receiver,
                MultiReceiverView { ipc_receiver: None, ..old(grid)@[self.multi_receiver] },
            ),
            final(context).senders == old(context).senders,
            final(context).receivers@ == old(context).receivers@.push(
                (self.ipc_receiver_uuid, old(grid)@[self.multi_receiver].ipc_receiver),
            ),
    {
        match grid.receivers.remove(&self.multi_receiver) {
            Some(state) => {
                let mut state = state;
                let ipc_receiver: Option<ForwardReceiver> = state.ipc_receiver.take();
                context.receivers.push((self.ipc_receiver_uuid, ipc_receiver));
                grid.receivers.insert(self.multi_receiver, state);
                assert(grid@ =~= old(grid)@.insert(self.multi_receiver, state@));
            },
            None => {
                assert(false);
            },
        }
        SubChannelReceiverIds {
            sub_channel_id: self.sub_channel_id,
            ipc_receiver_uuid: uuid_text(self.ipc_receiver_uuid),
        }
    }

    /// A receiver from what a message holds of it and the next IPC receiver
    /// that came beside the message.
    pub fn deserialize(
        ids: &SubChannelReceiverIds,
        grid: &mut Grid,
        context: &mut ReceptionContext,
        mailboxes: &mut PayloadMailboxes,
    ) -> (receiver: Result<SubChannelReceiver, MultiplexError>)
        requires
            old(mailboxes).wf(),
            !old(mailboxes).exhausted(),
        ensures
            final(mailboxes).wf(),
            final(context).senders == old(context).senders,
            ({
                let came = old(context).receivers@.len() > 0 && old(grid)@.contains_key(
                    old(context).receivers@[0],
                );
                let from = old(context).receivers@[0];
                let state = old(grid)@[from];
                match receiver {
                    Ok(receiver) => {
                        &&& came
                        &&& final(context).receivers@ == old(context).receivers@.drop_first()
                        &&& receiver.multi_receiver == from
                        &&& parsed_uuid(ids.ipc_receiver_uuid@) == Ok::<Uuid, Seq<char>>(
                            receiver.ipc_receiver_uuid,
                        )
                        &&& receiver.sub_channel_id == ids.sub_channel_id
                        &&& !old(mailboxes)@.contains_key(receiver.mailbox)
                        &&& final(mailboxes)@ == left_by_former(
                            state.sub_channels,
                            ids.sub_channel_id,
                            old(mailboxes)@.insert(receiver.mailbox, MailboxView::opened()),
                        )
                        &&& final(grid)@ == old(grid)@.insert(
                            from,
                            MultiReceiverView {
                                sub_channels: state.sub_channels.insert(
                                    ids.sub_channel_id.0,
                                    receiver.mailbox,
                                ),
                                ..state
                            },
                        )
                    },
                    Err(e) => {
                        &&& final(grid)@ == old(grid)@
                        &&& final(mailboxes)@ == old(mailboxes)@
                        &&& match parsed_uuid(ids.ipc_receiver_uuid@) {
                            Ok(_) => !came && e@ == MultiplexErrorView::InternalError(
                                "IpcReceiver missing from message"@,
                            ),
                            Err(reason) => e@ == MultiplexErrorView::InternalError(
                                "invalid UUID: "@ + reason,
                            ),
                        }
                    },
                }
            }),
    {
        let ipc_receiver_uuid: Uuid = match parse_uuid(ids.ipc_receiver_uuid.as_str()) {
            Ok(uuid) => uuid,
            Err(e) => {
                return Err(MultiplexError::InternalError(e));
            },
        };
        match context.receivers.pop_front() {
            Some(from) => {
                assert(context.receivers@ =~= old(context).receivers@.drop_first());
                if grid.receivers.contains_key(&from) {
                    let mut receiver = grid.attach(from, ids.sub_channel_id, mailboxes);
                    receiver.ipc_receiver_uuid = ipc_receiver_uuid;
                    Ok(receiver)
                } else {
                    Err(
                        MultiplexError::InternalError(
                            String::from_str("IpcReceiver missing from message"),
                        ),
                    )
                }
            },
            None => Err(
                MultiplexError::InternalError(String::from_str("IpcReceiver missing from message")),
            ),
        }
    }
}

/// A receiver is at one place at a time: a subreceiver that is put in a message
/// takes the IPC receiver away from where it was, and the place where the
/// message is received has it.
pub proof fn law_sent_receiver_moves(
    here: Map<Uuid, MultiReceiverView>,
    receiver: Uuid,
    ipc_receiver: ForwardReceiver,
    left: Map<Uuid, MultiReceiverView>,
    there: Map<Uuid, MultiReceiverView>,
    named: IpcReceiverAndOrId,
)
    requires
        here.contains_key(receiver),
        here[receiver].ipc_receiver == Some(ipc_receiver),
        left == here.insert(
            receiver,
            MultiReceiverView { ipc_receiver: None, ..here[receiver] },
        ),
        named@ == IpcReceiverAndOrIdView::IpcReceiver(
            ipc_receiver,
            hyphenated(receiver),
        ),
        (parsed_uuid(hyphenated(receiver)) == Ok::<Uuid, Seq<char>>(receiver)),
    ensures
        left[receiver].ipc_receiver is None,
        ({
            let resolved = receivers_resolved(there, seq![named]);
            &&& resolved.error is None
            &&& resolved.found == seq![receiver]
            &&& resolved.grid == there.insert(receiver, MultiReceiverView::fresh(ipc_receiver))
        }),
{
    reveal_with_fuel(receivers_resolved, 2);
    let all = seq![named];
    assert(all.drop_last() =~= Seq::empty());
    assert(all.last() == named);
    assert(receivers_resolved(there, all).found =~= seq![receiver]);
}

/// A message that is put in the mailbox of its subchannel ends up at the end,
/// byte for byte, and no other mailbox changes.
pub proof fn law_payload_reaches_its_mailbox(
    sub_channels: Map<Uuid, MailboxId>,
    boxes: PayloadMap,
    scid: SubChannelId,
    data: Vec<u8>,
    result: Result<(), MultiplexError>,
    boxes_after: PayloadMap,
    other: MailboxId,
)
    requires
        payload_sorted(sub_channels, boxes, scid, data, result, boxes_after),
        sub_channels.contains_key(scid.0),
        accepts(boxes, sub_channels[scid.0]),
    ensures
        result is Ok,
        boxes_after[sub_channels[scid.0]].messages == boxes[sub_channels[scid.0]].messages.push(
            data,
        ),
        other != sub_channels[scid.0] ==> boxes_after.contains_key(other) == boxes.contains_key(
            other,
        ),
        other != sub_channels[scid.0] && boxes.contains_key(other) ==> boxes_after[other]
            == boxes[other],
{
}

} // verus!
