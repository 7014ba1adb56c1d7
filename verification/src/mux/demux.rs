//! Sorting of the messages that arrive over an IPC channel by subchannel.

use crate::mux::error::{MuxError, MuxErrorView};
use crate::mux::mailbox::{accepts, delivered, left_by_sender, MailboxId, MailboxView, Mailboxes};
use crate::mux::protocol::{
    Attachments, ClientId, IpcSenderAndOrId, MultiMessage, MultiResponse, ResponseSender,
    SubChannelId, EMPTY_SUBCHANNEL_ID, ORIGIN,
};
use crate::mux::sender::{MultiSenderId, Outgoing, SubChannelDisconnector};
use crate::mux::sender_id::{associated, ForwardSender, Target};
use crate::mux::subchannel_lifecycle::{SubSenderStateMachine, SubSenderView};
use crate::mux::text::{join, quoted, quoted_text};
use crate::mux::uuids::{hyphenated, parse_uuid, parsed_uuid, uuid_text, Uuid};
use std::collections::{HashMap, VecDeque};
use std::sync::{Arc, Weak};
use vstd::prelude::*;
use weak_table::WeakValueHashMap;

verus! {

broadcast use vstd::std_specs::hash::group_hash_axioms;

/// The sending end of an IPC channel whose sender was received in a message.
#[derive(Debug)]
pub struct Connection {
    pub multi_sender: MultiSenderId,
    pub ipc_sender: Arc<ForwardSender>,
    pub uuid: Uuid,
}

impl Clone for Connection {
    fn clone(&self) -> (same: Connection)
        ensures
            same == *self,
    {
        Connection {
            multi_sender: self.multi_sender,
            ipc_sender: Arc::clone(&self.ipc_sender),
            uuid: self.uuid,
        }
    }
}

/// A subsender in a message that has been sorted but not yet decoded.
#[derive(Debug)]
pub struct ProtoSender {
    pub scid: SubChannelId,
    pub connection: Connection,
    pub source: Uuid,
    pub disconnector: Arc<SubChannelDisconnector>,
}

/// A message for a subchannel, with what came beside it.
#[derive(Debug)]
pub struct ResolvedMessage {
    pub scid: SubChannelId,
    pub payload: Vec<u8>,
    pub senders: VecDeque<ProtoSender>,
    pub attachments: Attachments,
}

/// What the receiver of a subchannel finds in its mailbox.
#[derive(Debug)]
pub enum ResolvedMessageOrDisconnect {
    ResolvedMessage(ResolvedMessage),
    Disconnect(SubChannelId),
}

/// The mailboxes of the subchannels of a process.
pub type SubChannelMailboxes = Mailboxes<ResolvedMessageOrDisconnect>;

/// The contents of the mailboxes of the subchannels of a process.
pub type MailboxMap = Map<MailboxId, MailboxView<ResolvedMessageOrDisconnect>>;

/// How to find out whether the channel that carries a subsender is alive.
#[derive(Clone, Copy, PartialEq, Eq, Structural, Debug)]
pub enum Probe {
    /// By the response channel of the given sender.
    MultiSender(MultiSenderId),
    /// By the keepalive receiver with the given handle.
    Keepalive(u64),
    /// It is already known to be gone.
    Lost,
}

/// What is to be done outside after a message has been handled.
#[derive(Debug)]
pub enum Effect {
    /// Send a message. Nothing depends on its success.
    Send(Outgoing),
    /// Let go of a subsender that nobody will receive.
    Release(Arc<SubChannelDisconnector>),
}

/// What came of handling a message.
#[derive(Debug)]
pub struct Handled {
    pub result: Result<(), MuxError>,
    pub effects: Vec<Effect>,
}

/// `weak_table::WeakValueHashMap` of disconnectors: from subchannels to
/// disconnectors held by weak pointers.
#[verifier::external_body]
pub struct Disconnectors {
    disconnectors: WeakValueHashMap<Uuid, Weak<SubChannelDisconnector>>,
}

/// The name of what has been put in the map: the last disconnector for each
/// subchannel, dropped or not.
pub uninterp spec fn recorded(disconnectors: Disconnectors) -> Map<Uuid, SubChannelDisconnector>;

/// `WeakValueHashMap::new`: a map in which nothing has been put.
#[verifier::external_body]
pub(crate) fn no_disconnectors() -> (disconnectors: Disconnectors)
    ensures
        (recorded(disconnectors) == Map::<Uuid, SubChannelDisconnector>::empty()),
{
    Disconnectors { disconnectors: WeakValueHashMap::new() }
}

/// `WeakValueHashMap::get`: the disconnector that was last put in for a
/// subchannel, unless all its holders have let go of it. Whether they have is
/// not said.
#[verifier::external_body]
pub(crate) fn get_disconnector(disconnectors: &Disconnectors, scid: Uuid) -> (found: Option<
    Arc<SubChannelDisconnector>,
>)
    ensures
        found is Some ==> recorded(*disconnectors).contains_pair(scid, *found->0),
{
    disconnectors.disconnectors.get(&scid)
}

/// `WeakValueHashMap::insert`: puts a disconnector in for a subchannel, in
/// place of any earlier one.
#[verifier::external_body]
pub(crate) fn insert_disconnector(
    disconnectors: &mut Disconnectors,
    scid: Uuid,
    disconnector: Arc<SubChannelDisconnector>,
)
    ensures
        recorded(*final(disconnectors)) == recorded(*old(disconnectors)).insert(
            scid,
            *disconnector,
        ),
{
    disconnectors.disconnectors.insert(scid, disconnector);
}

type StateMachine = SubSenderStateMachine<
    MailboxId,
    ResolvedMessageOrDisconnect,
    ResolvedMessageOrDisconnect,
    Probe,
>;

/// Sorts the messages that arrive over one IPC channel.
pub struct Demuxer {
    ipc_senders: HashMap<Uuid, ResponseSender>,
    sub_channels: HashMap<Uuid, StateMachine>,
    disconnectors: Disconnectors,
    ipc_senders_by_id: Target<Connection>,
}

/// The mathematical counterpart of [`Demuxer`].
#[verifier::ext_equal]
pub struct DemuxerView {
    /// Where each connected client gets its responses.
    pub clients: Map<Uuid, ResponseSender>,
    /// What is known of the senders of each subchannel.
    pub sub_channels: Map<Uuid, SubSenderView<MailboxId, Probe>>,
    /// The last disconnector for each subchannel that a subsender was received
    /// for.
    pub disconnectors: Map<Uuid, SubChannelDisconnector>,
    /// The received IPC senders by UUID.
    pub senders: Map<Uuid, Connection>,
}

impl View for Demuxer {
    type V = DemuxerView;

    closed spec fn view(&self) -> DemuxerView {
        DemuxerView {
            clients: self.ipc_senders@,
            sub_channels: self.sub_channels@.map_values(|machine: StateMachine| machine@),
            disconnectors: recorded(self.disconnectors),
            senders: self.ipc_senders_by_id@,
        }
    }
}

/// The result of resolving one IPC sender that a message names.
pub struct Resolution {
    pub connection: Result<Connection, MuxErrorView>,
    /// The received IPC senders by UUID.
    pub senders: Map<Uuid, Connection>,
    /// The outcomes of connecting that have not been used.
    pub outcomes: Seq<Result<Connection, MuxError>>,
}

/// Resolves one IPC sender that a message names: a sender that comes with its
/// UUID has been connected with some outcome and is stored under the UUID; one
/// that is named by just its UUID is looked up.
pub open spec fn resolved(
    senders: Map<Uuid, Connection>,
    named: IpcSenderAndOrId,
    outcomes: Seq<Result<Connection, MuxError>>,
) -> Resolution {
    match named {
        IpcSenderAndOrId::IpcSender(_, id) => match parsed_uuid(id@) {
            Ok(uuid) => match outcomes[0] {
                Ok(connection) => Resolution {
                    connection: Ok(connection),
                    senders: associated(senders, uuid, connection),
                    outcomes: outcomes.drop_first(),
                },
                Err(e) => Resolution {
                    connection: Err(e@),
                    senders,
                    outcomes: outcomes.drop_first(),
                },
            },
            Err(reason) => Resolution {
                connection: Err(MuxErrorView::InternalError("invalid UUID: "@ + reason)),
                senders,
                outcomes,
            },
        },
        IpcSenderAndOrId::IpcSenderId(id) => Resolution {
            connection: match parsed_uuid(id@) {
                Ok(uuid) => if senders.contains_key(uuid) {
                    Ok(senders[uuid])
                } else {
                    Err(MuxErrorView::Disconnected)
                },
                Err(reason) => Err(MuxErrorView::InternalError("invalid UUID: "@ + reason)),
            },
            senders,
            outcomes,
        },
    }
}

/// The IPC senders that have to be connected to resolve those that a message
/// names, in order, up to one that cannot be resolved.
pub open spec fn to_connect(known: Set<Uuid>, named: Seq<IpcSenderAndOrId>) -> Seq<
    (ForwardSender, Uuid),
>
    decreases named.len(),
{
    if named.len() == 0 {
        Seq::empty()
    } else {
        match named[0] {
            IpcSenderAndOrId::IpcSender(sender, id) => match parsed_uuid(id@) {
                Ok(uuid) => seq![(*sender, uuid)] + to_connect(
                    known.insert(uuid),
                    named.drop_first(),
                ),
                Err(_) => Seq::empty(),
            },
            IpcSenderAndOrId::IpcSenderId(id) => match parsed_uuid(id@) {
                Ok(uuid) => if known.contains(uuid) {
                    to_connect(known, named.drop_first())
                } else {
                    Seq::empty()
                },
                Err(_) => Seq::empty(),
            },
        }
    }
}

/// The outcomes are those of connecting the given IPC senders one by one until
/// the first failure.
pub open spec fn outcomes_of(
    outcomes: Seq<Result<Connection, MuxError>>,
    senders: Seq<(ForwardSender, Uuid)>,
) -> bool {
    &&& outcomes.len() <= senders.len()
    &&& outcomes.len() < senders.len() ==> outcomes.len() > 0 && outcomes.last() is Err
    &&& forall|i: int|
        #![trigger outcomes[i]]
        0 <= i < outcomes.len() && outcomes[i] is Ok ==> {
            &&& *outcomes[i]->Ok_0.ipc_sender == senders[i].0
            &&& outcomes[i]->Ok_0.uuid == senders[i].1
        }
}

/// The IPC senders that a message names.
pub open spec fn named_in(message: MultiMessage) -> Seq<IpcSenderAndOrId> {
    match message {
        MultiMessage::Data(_, _, senders, _) => names_of(senders@),
        MultiMessage::Sending { scid, via, via_chan } => seq![via_chan],
        _ => Seq::empty(),
    }
}

/// The IPC senders of the subsenders in a message.
pub open spec fn names_of(senders: Seq<(SubChannelId, IpcSenderAndOrId)>) -> Seq<
    IpcSenderAndOrId,
> {
    senders.map_values(|sender: (SubChannelId, IpcSenderAndOrId)| sender.1)
}

impl Demuxer {
    /// A demuxer without clients.
    pub fn empty() -> (demuxer: Demuxer)
        ensures
            demuxer@ == (DemuxerView {
                clients: Map::empty(),
                sub_channels: Map::empty(),
                disconnectors: Map::empty(),
                senders: Map::empty(),
            }),
    {
        let demuxer = Demuxer {
            ipc_senders: HashMap::new(),
            sub_channels: HashMap::new(),
            disconnectors: no_disconnectors(),
            ipc_senders_by_id: Target::new(),
        };
        assert(demuxer@.sub_channels =~= Map::<Uuid, SubSenderView<MailboxId, Probe>>::empty());
        demuxer
    }

    /// A demuxer with one client.
    pub fn with_sender(client_id: ClientId, sender: ResponseSender) -> (demuxer: Demuxer)
        ensures
            demuxer@ == (DemuxerView {
                clients: map![client_id.0 => sender],
                sub_channels: Map::empty(),
                disconnectors: Map::empty(),
                senders: Map::empty(),
            }),
    {
        let mut demuxer = Demuxer::empty();
        demuxer.ipc_senders.insert(client_id.0, sender);
        assert(demuxer@.clients =~= map![client_id.0 => sender]);
        demuxer
    }

    /// The IPC senders that have to be connected before the given message is
    /// handled, in order, with their UUIDs.
    pub fn senders_to_connect(&self, message: &MultiMessage) -> (senders: Vec<
        (Arc<ForwardSender>, Uuid),
    >)
        ensures
            senders@.map_values(|sender: (Arc<ForwardSender>, Uuid)| (*sender.0, sender.1))
                == to_connect(self@.senders.dom(), named_in(*message)),
    {
        match message {
            MultiMessage::Data(_, _, senders, _) => self.all_to_connect(senders),
            MultiMessage::Sending { scid: _, via: _, via_chan } => {
                let mut senders: Vec<(Arc<ForwardSender>, Uuid)> = Vec::new();
                proof {
                    let named = named_in(*message);
                    reveal_with_fuel(to_connect, 2);
                    assert(named.drop_first() =~= Seq::empty());
                }
                match via_chan {
                    IpcSenderAndOrId::IpcSender(sender, id) => {
                        match parse_uuid(id.as_str()) {
                            Ok(uuid) => {
                                senders.push((Arc::clone(sender), uuid));
                            },
                            Err(_) => {},
                        }
                    },
                    IpcSenderAndOrId::IpcSenderId(_) => {},
                }
                assert(senders@.map_values(
                    |sender: (Arc<ForwardSender>, Uuid)| (*sender.0, sender.1),
                ) =~= to_connect(self@.senders.dom(), named_in(*message)));
                senders
            },
            _ => {
                let senders: Vec<(Arc<ForwardSender>, Uuid)> = Vec::new();
                assert(senders@.map_values(
                    |sender: (Arc<ForwardSender>, Uuid)| (*sender.0, sender.1),
                ) =~= to_connect(self@.senders.dom(), named_in(*message)));
                senders
            },
        }
    }

    fn all_to_connect(&self, named: &Vec<(SubChannelId, IpcSenderAndOrId)>) -> (senders: Vec<
        (Arc<ForwardSender>, Uuid),
    >)
        ensures
            senders@.map_values(|sender: (Arc<ForwardSender>, Uuid)| (*sender.0, sender.1))
                == to_connect(self@.senders.dom(), names_of(named@)),
    {
        let mut senders: Vec<(Arc<ForwardSender>, Uuid)> = Vec::new();
        let ghost plain = |sender: (Arc<ForwardSender>, Uuid)| (*sender.0, sender.1);
        let ghost names = names_of(named@);
        let ghost mut known = self@.senders.dom();
        let ghost goal = to_connect(known, names);
        proof {
            assert(names.skip(0) =~= names);
            assert(senders@.map_values(plain) + to_connect(known, names.skip(0)) =~= goal);
        }
        let mut i: usize = 0;
        while i < named.len()
            invariant
                i <= named.len(),
                names == names_of(named@),
                plain == (|sender: (Arc<ForwardSender>, Uuid)| (*sender.0, sender.1)),
                forall|uuid: Uuid|
                    #![trigger known.contains(uuid)]
                    known.contains(uuid) <==> self@.senders.contains_key(uuid) || exists|j: int|
                        0 <= j < senders@.len() && (#[trigger] senders@[j]).1 == uuid,
                senders@.map_values(plain) + to_connect(known, names.skip(i as int)) == goal,
                goal == to_connect(self@.senders.dom(), names),
            decreases named.len() - i,
        {
            let ghost rest = names.skip(i as int);
            let ghost before = senders@;
            proof {
                assert(rest[0] == named@[i as int].1);
                assert(rest.drop_first() =~= names.skip(i + 1));
            }
            match &named[i].1 {
                IpcSenderAndOrId::IpcSender(sender, id) => {
                    match parse_uuid(id.as_str()) {
                        Ok(uuid) => {
                            senders.push((Arc::clone(sender), uuid));
                            proof {
                                let known_before = known;
                                known = known.insert(uuid);
                                assert(senders@.map_values(plain) =~= before.map_values(plain).push(
                                    (**sender, uuid),
                                ));
                                assert(senders@.map_values(plain) + to_connect(
                                    known,
                                    names.skip(i + 1),
                                ) =~= before.map_values(plain) + to_connect(known_before, rest));
                                assert forall|u: Uuid| #![trigger known.contains(u)]
                                    known.contains(u) <==> self@.senders.contains_key(u)
                                        || exists|j: int|
                                        0 <= j < senders@.len() && (#[trigger] senders@[j]).1 == u by {
                                    if known_before.contains(u) && !self@.senders.contains_key(u) {
                                        let j = choose|j: int|
                                            0 <= j < before.len() && (#[trigger] before[j]).1 == u;
                                        assert(senders@[j].1 == u);
                                    }
                                    if u == uuid {
                                        assert(senders@[before.len() as int].1 == u);
                                    }
                                    if exists|j: int|
                                        0 <= j < senders@.len() && (#[trigger] senders@[j]).1 == u {
                                        let j = choose|j: int|
                                            0 <= j < senders@.len() && (#[trigger] senders@[j]).1 == u;
                                        if j < before.len() {
                                            assert(before[j].1 == u);
                                            assert(known_before.contains(u));
                                        }
                                    }
                                }
                            }
                        },
                        Err(_) => {
                            assert(senders@.map_values(plain) =~= goal);
                            return senders;
                        },
                    }
                },
                IpcSenderAndOrId::IpcSenderId(id) => {
                    match parse_uuid(id.as_str()) {
                        Ok(uuid) => {
                            let found: bool = self.ipc_senders_by_id.look_up(uuid).is_some()
                                || connects(&senders, uuid);
                            assert(found == known.contains(uuid));
                            if !found {
                                assert(senders@.map_values(plain) =~= goal);
                                return senders;
                            }
                        },
                        Err(_) => {
                            assert(senders@.map_values(plain) =~= goal);
                            return senders;
                        },
                    }
                },
            }
            i += 1;
        }
        assert(senders@.map_values(plain) =~= goal);
        senders
    }
}

/// Whether a sender with the given UUID is among those to be connected.
fn connects(senders: &Vec<(Arc<ForwardSender>, Uuid)>, uuid: Uuid) -> (found: bool)
    ensures
        found == exists|j: int| 0 <= j < senders@.len() && (#[trigger] senders@[j]).1 == uuid,
{
    let mut i: usize = 0;
    while i < senders.len()
        invariant
            i <= senders.len(),
            forall|j: int| 0 <= j < i ==> (#[trigger] senders@[j]).1 != uuid,
        decreases senders.len() - i,
    {
        if senders[i].1 == uuid {
            return true;
        }
        i += 1;
    }
    false
}

/// The result of resolving the IPC senders that a message names one by one.
pub struct Resolutions {
    /// The senders resolved so far.
    pub connections: Seq<Connection>,
    /// The reason for which resolving stopped, if it did.
    pub error: Option<MuxErrorView>,
    /// The received IPC senders by UUID.
    pub senders: Map<Uuid, Connection>,
    /// The outcomes of connecting that have not been used.
    pub outcomes: Seq<Result<Connection, MuxError>>,
}

/// Resolves the IPC senders that a message names one by one until the first
/// failure.
pub open spec fn resolved_all(
    senders: Map<Uuid, Connection>,
    named: Seq<IpcSenderAndOrId>,
    outcomes: Seq<Result<Connection, MuxError>>,
) -> Resolutions
    decreases named.len(),
{
    if named.len() == 0 {
        Resolutions { connections: Seq::empty(), error: None, senders, outcomes }
    } else {
        let before = resolved_all(senders, named.drop_last(), outcomes);
        if before.error is Some {
            before
        } else {
            let last = resolved(before.senders, named.last(), before.outcomes);
            match last.connection {
                Ok(connection) => Resolutions {
                    connections: before.connections.push(connection),
                    error: None,
                    senders: last.senders,
                    outcomes: last.outcomes,
                },
                Err(e) => Resolutions {
                    connections: before.connections,
                    error: Some(e),
                    senders: last.senders,
                    outcomes: last.outcomes,
                },
            }
        }
    }
}

/// A failure to resolve one IPC sender ends the resolution of all that follow.
proof fn lemma_failure_ends_resolution(
    senders: Map<Uuid, Connection>,
    named: Seq<IpcSenderAndOrId>,
    outcomes: Seq<Result<Connection, MuxError>>,
    n: int,
)
    requires
        0 <= n <= named.len(),
        resolved_all(senders, named.take(n), outcomes).error is Some,
    ensures
        resolved_all(senders, named, outcomes) == resolved_all(senders, named.take(n), outcomes),
    decreases named.len(),
{
    if n == named.len() {
        assert(named.take(n) =~= named);
    } else {
        assert(named.drop_last().take(n) =~= named.take(n));
        lemma_failure_ends_resolution(senders, named.drop_last(), outcomes, n);
    }
}

/// The disconnector for a subsender that has just been received.
pub open spec fn fresh_disconnector(
    scid: SubChannelId,
    connection: Connection,
    source: Uuid,
) -> SubChannelDisconnector {
    SubChannelDisconnector {
        sub_channel_id: scid,
        ipc_sender: connection.ipc_sender,
        source,
        multi_sender: connection.multi_sender,
    }
}

/// The disconnectors on record after the given subsenders have been received.
pub open spec fn recorded_after(
    disconnectors: Map<Uuid, SubChannelDisconnector>,
    protos: Seq<ProtoSender>,
) -> Map<Uuid, SubChannelDisconnector>
    decreases protos.len(),
{
    if protos.len() == 0 {
        disconnectors
    } else {
        recorded_after(disconnectors, protos.drop_last()).insert(
            protos.last().scid.0,
            *protos.last().disconnector,
        )
    }
}

/// What becomes of the subsenders in a message: each gets its connection and
/// shares a disconnector with the copies of it that were received before, if
/// any is left, or gets a new one.
pub open spec fn protos_of(
    protos: Seq<ProtoSender>,
    senders: Seq<(SubChannelId, IpcSenderAndOrId)>,
    connections: Seq<Connection>,
    source: Uuid,
    disconnectors: Map<Uuid, SubChannelDisconnector>,
) -> bool {
    &&& protos.len() == connections.len()
    &&& protos.len() <= senders.len()
    &&& forall|i: int|
        #![trigger protos[i]]
        0 <= i < protos.len() ==> {
            &&& protos[i].scid == senders[i].0
            &&& protos[i].connection == connections[i]
            &&& protos[i].source == source
            &&& {
                ||| *protos[i].disconnector == fresh_disconnector(
                    senders[i].0,
                    connections[i],
                    source,
                )
                ||| recorded_after(disconnectors, protos.take(i)).contains_pair(
                    senders[i].0.0,
                    *protos[i].disconnector,
                )
            }
        }
}

impl Demuxer {
    /// Resolves one IPC sender that a message names.
    fn ipcsender_from_sender_and_or_id(
        &mut self,
        named: &IpcSenderAndOrId,
        outcomes: &mut VecDeque<Result<Connection, MuxError>>,
    ) -> (connection: Result<Connection, MuxError>)
        requires
            (match *named {
                IpcSenderAndOrId::IpcSender(_, id) => parsed_uuid(id@) is Ok
                    ==> old(outcomes)@.len() > 0,
                IpcSenderAndOrId::IpcSenderId(_) => true,
            }),
        ensures
            ({
                let resolution = resolved(old(self)@.senders, *named, old(outcomes)@);
                &&& final(self)@ == DemuxerView { senders: resolution.senders, ..old(self)@ }
                &&& final(self).sub_channels == old(self).sub_channels
                &&& final(self).disconnectors == old(self).disconnectors
                &&& final(outcomes)@ == resolution.outcomes
                &&& match connection {
                    Ok(connection) => resolution.connection == Ok::<Connection, MuxErrorView>(
                        connection,
                    ),
                    Err(e) => resolution.connection == Err::<Connection, MuxErrorView>(e@),
                }
            }),
    {
        match named {
            IpcSenderAndOrId::IpcSender(_, id) => {
                match parse_uuid(id.as_str()) {
                    Ok(uuid) => {
                        let outcome = outcomes.pop_front();
                        assert(outcomes@ =~= old(outcomes)@.drop_first());
                        match outcome {
                            Some(Ok(connection)) => {
                                self.ipc_senders_by_id.add(uuid, &connection);
                                Ok(connection)
                            },
                            Some(Err(e)) => Err(e),
                            None => {
                                assert(false);
                                Err(MuxError::Disconnected)
                            },
                        }
                    },
                    Err(e) => Err(MuxError::InternalError(e)),
                }
            },
            IpcSenderAndOrId::IpcSenderId(id) => {
                match parse_uuid(id.as_str()) {
                    Ok(uuid) => {
                        match self.ipc_senders_by_id.look_up(uuid) {
                            Some(connection) => Ok(connection),
                            None => Err(MuxError::Disconnected),
                        }
                    },
                    Err(e) => Err(MuxError::InternalError(e)),
                }
            },
        }
    }

    /// The disconnector for a subsender that has just been received, given the
    /// one that copies of it received before still hold, if any does. The copies
    /// share that one, so that the receiver is told of the last drop only; if
    /// there is none, a new one is put on record.
    pub fn disconnector_given(
        &mut self,
        found: Option<Arc<SubChannelDisconnector>>,
        scid: SubChannelId,
        connection: &Connection,
        source: Uuid,
    ) -> (disconnector: Arc<SubChannelDisconnector>)
        ensures
            (match found {
                Some(shared) => disconnector == shared && final(self)@ == old(self)@,
                None => {
                    &&& *disconnector == fresh_disconnector(scid, *connection, source)
                    &&& final(self)@ == DemuxerView {
                        disconnectors: old(self)@.disconnectors.insert(scid.0, *disconnector),
                        ..old(self)@
                    }
                },
            }),
    {
        match found {
            Some(shared) => shared,
            None => {
                let disconnector = Arc::new(
                    SubChannelDisconnector::new(
                        scid,
                        Arc::clone(&connection.ipc_sender),
                        source,
                        connection.multi_sender,
                    ),
                );
                insert_disconnector(&mut self.disconnectors, scid.0, Arc::clone(&disconnector));
                disconnector
            },
        }
    }

    /// The disconnector for a subsender that has just been received.
    fn disconnector_for(&mut self, scid: SubChannelId, connection: &Connection, source: Uuid) -> (disconnector:
        Arc<SubChannelDisconnector>)
        ensures
            final(self)@ == (DemuxerView {
                disconnectors: old(self)@.disconnectors.insert(scid.0, *disconnector),
                ..old(self)@
            }),
            *disconnector == fresh_disconnector(scid, *connection, source)
                || old(self)@.disconnectors.contains_pair(scid.0, *disconnector),
    {
        let found = get_disconnector(&self.disconnectors, scid.0);
        let disconnector = self.disconnector_given(found, scid, connection, source);
        assert(self@.disconnectors =~= old(self)@.disconnectors.insert(scid.0, *disconnector));
        disconnector
    }

    /// Resolves the subsenders in a message. After a failure, those that were
    /// resolved before it are handed back with the reason.
    fn resolve(
        &mut self,
        senders: &Vec<(SubChannelId, IpcSenderAndOrId)>,
        source: Uuid,
        outcomes: VecDeque<Result<Connection, MuxError>>,
    ) -> (protos: (VecDeque<ProtoSender>, Option<MuxError>))
        requires
            outcomes_of(outcomes@, to_connect(old(self)@.senders.dom(), names_of(senders@))),
        ensures
            ({
                let resolutions = resolved_all(
                    old(self)@.senders,
                    names_of(senders@),
                    outcomes@,
                );
                &&& match protos.1 {
                    None => resolutions.error is None && protos.0@.len() == senders@.len(),
                    Some(e) => resolutions.error == Some(e@),
                }
                &&& protos_of(
                    protos.0@,
                    senders@,
                    resolutions.connections,
                    source,
                    old(self)@.disconnectors,
                )
                &&& final(self)@ == DemuxerView {
                    senders: resolutions.senders,
                    disconnectors: recorded_after(old(self)@.disconnectors, protos.0@),
                    ..old(self)@
                }
            }),
    {
        let mut left = outcomes;
        let ghost names = names_of(senders@);
        let mut protos: VecDeque<ProtoSender> = VecDeque::new();
        proof {
            assert(names.skip(0) =~= names);
            assert(names.take(0) =~= Seq::empty());
        }
        let mut i: usize = 0;
        while i < senders.len()
            invariant
                i <= senders.len(),
                names == names_of(senders@),
                outcomes_of(left@, to_connect(self@.senders.dom(), names.skip(i as int))),
                ({
                    let resolutions = resolved_all(
                        old(self)@.senders,
                        names.take(i as int),
                        outcomes@,
                    );
                    &&& resolutions.error is None
                    &&& resolutions.outcomes == left@
                    &&& protos_of(
                        protos@,
                        senders@,
                        resolutions.connections,
                        source,
                        old(self)@.disconnectors,
                    )
                    &&& protos@.len() == i
                    &&& self@ == DemuxerView {
                        senders: resolutions.senders,
                        disconnectors: recorded_after(old(self)@.disconnectors, protos@),
                        ..old(self)@
                    }
                }),
            decreases senders.len() - i,
        {
            let scid = senders[i].0;
            let ghost known = self@.senders.dom();
            let ghost rest = names.skip(i as int);
            let ghost left_before = left@;
            let ghost senders_before = self@.senders;
            let ghost protos_before = protos@;
            proof {
                assert(rest[0] == senders@[i as int].1);
                assert(rest.drop_first() =~= names.skip(i + 1));
                assert(names.take(i + 1).drop_last() =~= names.take(i as int));
                assert(names.take(i + 1).last() == senders@[i as int].1);
            }
            match self.ipcsender_from_sender_and_or_id(&senders[i].1, &mut left) {
                Ok(connection) => {
                    proof {
                        let need = to_connect(known, rest);
                        let need_after = to_connect(self@.senders.dom(), names.skip(i + 1));
                        match senders@[i as int].1 {
                            IpcSenderAndOrId::IpcSender(_, id) => {
                                let uuid = parsed_uuid(id@)->Ok_0;
                                assert(self@.senders.dom() =~= known.insert(uuid));
                                assert(need.drop_first() =~= need_after);
                                assert(left@ =~= left_before.drop_first());
                                assert forall|k: int| #![trigger left@[k]]
                                    0 <= k < left@.len() && left@[k] is Ok implies {
                                    &&& *left@[k]->Ok_0.ipc_sender == need_after[k].0
                                    &&& left@[k]->Ok_0.uuid == need_after[k].1
                                } by {
                                    assert(left@[k] == left_before[k + 1]);
                                    assert(need_after[k] == need[k + 1]);
                                }
                            },
                            IpcSenderAndOrId::IpcSenderId(id) => {
                                assert(self@.senders.dom() =~= known);
                                assert(need =~= need_after);
                            },
                        }
                    }
                    let disconnector = self.disconnector_for(scid, &connection, source);
                    let proto = ProtoSender { scid, connection, source, disconnector };
                    protos.push_back(proto);
                    proof {
                        assert(protos@ =~= protos_before.push(proto));
                        assert(protos@.drop_last() =~= protos_before);
                        assert forall|k: int| #![trigger protos@[k]]
                            0 <= k < protos@.len() implies protos@.take(k) =~= (if k < i {
                            protos_before.take(k)
                        } else {
                            protos_before
                        }) by {}
                        assert forall|k: int| #![trigger protos@[k]]
                            0 <= k < i implies protos@[k] == protos_before[k] by {}
                    }
                },
                Err(e) => {
                    proof {
                        assert(resolved_all(
                            old(self)@.senders,
                            names.take(i + 1),
                            outcomes@,
                        ).error is Some);
                        lemma_failure_ends_resolution(
                            old(self)@.senders,
                            names,
                            outcomes@,
                            i + 1,
                        );
                    }
                    return (protos, Some(e));
                },
            }
            i += 1;
        }
        assert(names.take(names.len() as int) =~= names);
        (protos, None)
    }
}

/// Nobody will receive the given subsenders.
pub open spec fn releases(protos: Seq<ProtoSender>) -> Seq<Effect> {
    protos.map_values(|proto: ProtoSender| Effect::Release(proto.disconnector))
}

/// The receivers of the subchannels that the given subsenders are for are told
/// that the subsenders, which were sent over the subchannel `via`, were lost,
/// and nobody will receive them.
pub open spec fn failures(protos: Seq<ProtoSender>, via: SubChannelId) -> Seq<Effect>
    decreases protos.len(),
{
    if protos.len() == 0 {
        Seq::empty()
    } else {
        let last = protos.last();
        failures(protos.drop_last(), via).push(
            Effect::Send(
                Outgoing {
                    to: last.connection.ipc_sender,
                    message: MultiMessage::ReceiveFailed { scid: last.scid, via },
                },
            ),
        ).push(Effect::Release(last.disconnector))
    }
}

pub(crate) fn release_all(protos: VecDeque<ProtoSender>) -> (effects: Vec<Effect>)
    ensures
        effects@ == releases(protos@),
{
    let mut left = protos;
    let mut effects: Vec<Effect> = Vec::new();
    while left.len() > 0
        invariant
            left@.len() <= protos@.len(),
            left@ == protos@.skip(protos@.len() - left@.len()),
            effects@ == releases(protos@.take(protos@.len() - left@.len())),
        decreases left.len(),
    {
        let ghost n = protos@.len() - left@.len();
        match left.pop_front() {
            Some(proto) => {
                assert(proto == protos@[n]);
                effects.push(Effect::Release(proto.disconnector));
                assert(protos@.take(n + 1) =~= protos@.take(n).push(proto));
                assert(effects@ =~= releases(protos@.take(n + 1)));
            },
            None => {},
        }
    }
    assert(protos@.take(protos@.len() as int) =~= protos@);
    effects
}

pub(crate) fn fail_all(protos: VecDeque<ProtoSender>, via: SubChannelId) -> (effects: Vec<Effect>)
    ensures
        effects@ == failures(protos@, via),
{
    let mut left = protos;
    let mut effects: Vec<Effect> = Vec::new();
    while left.len() > 0
        invariant
            left@.len() <= protos@.len(),
            left@ == protos@.skip(protos@.len() - left@.len()),
            effects@ == failures(protos@.take(protos@.len() - left@.len()), via),
        decreases left.len(),
    {
        let ghost n = protos@.len() - left@.len();
        match left.pop_front() {
            Some(proto) => {
                assert(proto == protos@[n]);
                effects.push(
                    Effect::Send(
                        Outgoing {
                            to: Arc::clone(&proto.connection.ipc_sender),
                            message: MultiMessage::ReceiveFailed { scid: proto.scid, via },
                        },
                    ),
                );
                effects.push(Effect::Release(proto.disconnector));
                assert(protos@.take(n + 1).drop_last() =~= protos@.take(n));
                assert(protos@.take(n + 1).last() == proto);
            },
            None => {},
        }
    }
    assert(protos@.take(protos@.len() as int) =~= protos@);
    effects
}

/// The mailboxes after a subchannel has been disconnected: the sender that the
/// state machine handed back, if it did, delivers the news and is gone.
pub open spec fn closed_off(
    boxes: MailboxMap,
    handed_back: Option<MailboxId>,
    scid: SubChannelId,
) -> MailboxMap {
    match handed_back {
        Some(id) => left_by_sender(
            delivered(boxes, id, ResolvedMessageOrDisconnect::Disconnect(scid)),
            id,
        ),
        None => boxes,
    }
}

fn close_off(mailboxes: &mut SubChannelMailboxes, handed_back: Option<MailboxId>, scid: SubChannelId)
    requires
        old(mailboxes).wf(),
    ensures
        final(mailboxes).wf(),
        final(mailboxes).exhausted() == old(mailboxes).exhausted(),
        final(mailboxes)@ == closed_off(old(mailboxes)@, handed_back, scid),
{
    match handed_back {
        Some(id) => {
            let _ = mailboxes.send(id, ResolvedMessageOrDisconnect::Disconnect(scid));
            mailboxes.drop_sender(id);
        },
        None => {},
    }
}

/// How a message for a subchannel that cannot take it is answered.
pub enum Strictness {
    /// An unknown subchannel is an internal error, and a mailbox that nobody
    /// receives from means disconnection.
    Strict,
    /// An unknown subchannel means disconnection, and a mailbox that nobody
    /// receives from may be about to be replaced: the message is dropped.
    Lenient,
}

/// A message has been put in a mailbox.
pub open spec fn message_delivered(
    boxes: MailboxMap,
    id: MailboxId,
    scid: SubChannelId,
    payload: Vec<u8>,
    protos: Seq<ProtoSender>,
    attachments: Attachments,
    boxes_after: MailboxMap,
) -> bool {
    exists|message: ResolvedMessage|
        {
            &&& message.scid == scid
            &&& message.payload == payload
            &&& message.senders@ == protos
            &&& message.attachments == attachments
            &&& boxes_after == #[trigger] delivered(
                boxes,
                id,
                ResolvedMessageOrDisconnect::ResolvedMessage(message),
            )
        }
}

/// What came of a message for a subchannel whose subsenders have become the
/// given ones.
pub open spec fn data_sorted(
    before: DemuxerView,
    boxes: MailboxMap,
    scid: SubChannelId,
    payload: Vec<u8>,
    protos: Seq<ProtoSender>,
    attachments: Attachments,
    strictness: Strictness,
    outcome: Handled,
    boxes_after: MailboxMap,
) -> bool {
    if before.sub_channels.contains_key(scid.0) {
        match before.sub_channels[scid.0].sender {
            Some(id) => if accepts(boxes, id) {
                &&& outcome.result is Ok
                &&& outcome.effects@ == Seq::<Effect>::empty()
                &&& message_delivered(boxes, id, scid, payload, protos, attachments, boxes_after)
            } else {
                &&& match strictness {
                    Strictness::Strict => outcome.result == Err::<(), MuxError>(
                        MuxError::Disconnected,
                    ),
                    Strictness::Lenient => outcome.result is Ok,
                }
                &&& outcome.effects@ == releases(protos)
                &&& boxes_after == boxes
            },
            None => {
                &&& outcome.result == Err::<(), MuxError>(MuxError::Disconnected)
                &&& outcome.effects@ == releases(protos)
                &&& boxes_after == boxes
            },
        }
    } else {
        &&& outcome.result is Err
        &&& outcome.result->Err_0@ == match strictness {
            Strictness::Strict => MuxErrorView::InternalError(
                "invalid subchannel id "@ + hyphenated(scid.0),
            ),
            Strictness::Lenient => MuxErrorView::Disconnected,
        }
        &&& outcome.effects@ == failures(protos, scid)
        &&& boxes_after == boxes
    }
}

/// What came of a message for a subchannel.
pub open spec fn data_handled(
    before: DemuxerView,
    boxes: MailboxMap,
    scid: SubChannelId,
    payload: Vec<u8>,
    senders: Seq<(SubChannelId, IpcSenderAndOrId)>,
    attachments: Attachments,
    receiver: Uuid,
    outcomes: Seq<Result<Connection, MuxError>>,
    strictness: Strictness,
    outcome: Handled,
    after: DemuxerView,
    boxes_after: MailboxMap,
) -> bool {
    let resolutions = resolved_all(before.senders, names_of(senders), outcomes);
    exists|protos: Seq<ProtoSender>|
        {
            &&& #[trigger] protos_of(
                protos,
                senders,
                resolutions.connections,
                receiver,
                before.disconnectors,
            )
            &&& after == DemuxerView {
                senders: resolutions.senders,
                disconnectors: recorded_after(before.disconnectors, protos),
                ..before
            }
            &&& match resolutions.error {
                Some(e) => {
                    &&& outcome.result is Err
                    &&& outcome.result->Err_0@ == e
                    &&& outcome.effects@ == releases(protos)
                    &&& boxes_after == boxes
                },
                None => data_sorted(
                    before,
                    boxes,
                    scid,
                    payload,
                    protos,
                    attachments,
                    strictness,
                    outcome,
                    boxes_after,
                ),
            }
        }
}

impl Demuxer {
    /// Sorts a message for a subchannel.
    fn sort(
        &mut self,
        scid: SubChannelId,
        payload: Vec<u8>,
        senders: &Vec<(SubChannelId, IpcSenderAndOrId)>,
        attachments: Attachments,
        receiver: Uuid,
        outcomes: VecDeque<Result<Connection, MuxError>>,
        strictness: Strictness,
        mailboxes: &mut SubChannelMailboxes,
    ) -> (outcome: Handled)
        requires
            old(mailboxes).wf(),
            outcomes_of(outcomes@, to_connect(old(self)@.senders.dom(), names_of(senders@))),
        ensures
            final(mailboxes).wf(),
            final(mailboxes).exhausted() == old(mailboxes).exhausted(),
            data_handled(
                old(self)@,
                old(mailboxes)@,
                scid,
                payload,
                senders@,
                attachments,
                receiver,
                outcomes@,
                strictness,
                outcome,
                final(self)@,
                final(mailboxes)@,
            ),
    {
        let (protos, error) = self.resolve(senders, receiver, outcomes);
        match error {
            Some(e) => Handled { result: Err(e), effects: release_all(protos) },
            None => {
                let sender: Option<Option<MailboxId>> = match self.sub_channels.get(&scid.0) {
                    Some(machine) => {
                        match machine.sender() {
                            Some(id) => Some(Some(*id)),
                            None => Some(None),
                        }
                    },
                    None => None,
                };
                match sender {
                    Some(Some(id)) => {
                        let message = ResolvedMessage { scid, payload, senders: protos, attachments };
                        let ghost delivered_message = message;
                        match mailboxes.send(
                            id,
                            ResolvedMessageOrDisconnect::ResolvedMessage(message),
                        ) {
                            Ok(()) => {
                                assert(mailboxes@ == delivered(
                                    old(mailboxes)@,
                                    id,
                                    ResolvedMessageOrDisconnect::ResolvedMessage(
                                        delivered_message,
                                    ),
                                ));
                                Handled { result: Ok(()), effects: Vec::new() }
                            },
                            Err(ResolvedMessageOrDisconnect::ResolvedMessage(message)) => Handled {
                                result: match strictness {
                                    Strictness::Strict => Err(MuxError::Disconnected),
                                    Strictness::Lenient => Ok(()),
                                },
                                effects: release_all(message.senders),
                            },
                            Err(ResolvedMessageOrDisconnect::Disconnect(_)) => {
                                assert(false);
                                Handled { result: Ok(()), effects: Vec::new() }
                            },
                        }
                    },
                    Some(None) => Handled {
                        result: Err(MuxError::Disconnected),
                        effects: release_all(protos),
                    },
                    None => {
                        let e = match strictness {
                            Strictness::Strict => {
                                let text = uuid_text(scid.0);
                                MuxError::InternalError(
                                    join("invalid subchannel id ", text.as_str()),
                                )
                            },
                            Strictness::Lenient => MuxError::Disconnected,
                        };
                        Handled { result: Err(e), effects: fail_all(protos, scid) }
                    },
                }
            },
        }
    }
}

impl DemuxerView {
    /// What is known of the senders of one subchannel has changed.
    pub open spec fn with_sub_channel(
        self,
        scid: SubChannelId,
        state: SubSenderView<MailboxId, Probe>,
    ) -> Self {
        DemuxerView { sub_channels: self.sub_channels.insert(scid.0, state), ..self }
    }
}

/// What came of the news that a subsender is being sent over a subchannel whose
/// IPC sender has been resolved (or not).
pub open spec fn sending_handled(
    before: DemuxerView,
    boxes: MailboxMap,
    scid: SubChannelId,
    via: SubChannelId,
    resolution: Resolution,
    after: DemuxerView,
    boxes_after: MailboxMap,
) -> bool {
    let known = DemuxerView { senders: resolution.senders, ..before };
    if before.sub_channels.contains_key(scid.0) {
        let state = before.sub_channels[scid.0];
        match resolution.connection {
            Ok(connection) => {
                &&& after == known.with_sub_channel(
                    scid,
                    state.sent_via(via.0, Probe::MultiSender(connection.multi_sender)),
                )
                &&& boxes_after == boxes
            },
            Err(_) => {
                let lost = state.sent_via(via.0, Probe::Lost).failed_via(via.0);
                &&& after == known.with_sub_channel(scid, lost.settled())
                &&& boxes_after == closed_off(boxes, lost.handed_back(), scid)
            },
        }
    } else {
        after == known && boxes_after == boxes
    }
}

/// The reason why a message that announces a subchannel was unexpected.
pub open spec fn unexpected_text(scid: SubChannelId, name: Seq<char>) -> Seq<char> {
    "unexpected multi message SubChannelId(SubChannelId("@ + hyphenated(scid.0) + "), "@ + quoted(
        name,
    ) + ")"@
}

/// What came of a message.
pub open spec fn message_handled(
    before: DemuxerView,
    boxes: MailboxMap,
    message: MultiMessage,
    receiver: Uuid,
    outcomes: Seq<Result<Connection, MuxError>>,
    outcome: Handled,
    after: DemuxerView,
    boxes_after: MailboxMap,
) -> bool {
    let quiet = outcome.result is Ok && outcome.effects@ == Seq::<Effect>::empty();
    match message {
        MultiMessage::Connect(sender, client_id) => {
            &&& quiet
            &&& after == DemuxerView {
                clients: before.clients.insert(client_id.0, sender),
                ..before
            }
            &&& boxes_after == boxes
        },
        MultiMessage::Data(scid, payload, senders, attachments) => data_handled(
            before,
            boxes,
            scid,
            payload,
            senders@,
            attachments,
            receiver,
            outcomes,
            Strictness::Strict,
            outcome,
            after,
            boxes_after,
        ),
        MultiMessage::SubChannelId(scid, name) => {
            &&& outcome.result is Err
            &&& outcome.result->Err_0@ == MuxErrorView::InternalError(unexpected_text(scid, name@))
            &&& outcome.effects@ == Seq::<Effect>::empty()
            &&& after == before
            &&& boxes_after == boxes
        },
        MultiMessage::Sending { scid, via, via_chan } => {
            &&& quiet
            &&& sending_handled(
                before,
                boxes,
                scid,
                via,
                resolved(before.senders, via_chan, outcomes),
                after,
                boxes_after,
            )
        },
        MultiMessage::SendingViaIpcChannel { scid, keepalive } => {
            &&& quiet
            &&& after == (if before.sub_channels.contains_key(scid.0) {
                before.with_sub_channel(
                    scid,
                    before.sub_channels[scid.0].sent_via(
                        EMPTY_SUBCHANNEL_ID,
                        Probe::Keepalive(keepalive.handle),
                    ),
                )
            } else {
                before
            })
            &&& boxes_after == boxes
        },
        MultiMessage::ReceiveFailed { scid, via } => {
            let state = before.sub_channels[scid.0].failed_via(via.0);
            &&& quiet
            &&& if before.sub_channels.contains_key(scid.0) {
                &&& after == before.with_sub_channel(scid, state.settled())
                &&& boxes_after == closed_off(boxes, state.handed_back(), scid)
            } else {
                after == before && boxes_after == boxes
            }
        },
        MultiMessage::Received { scid, via, new_source } => {
            &&& quiet
            &&& after == (if before.sub_channels.contains_key(scid.0) {
                before.with_sub_channel(
                    scid,
                    before.sub_channels[scid.0].arrived(via.0, new_source),
                )
            } else {
                before
            })
            &&& boxes_after == boxes
        },
        MultiMessage::Disconnect(scid, source) => {
            let state = before.sub_channels[scid.0].dropped_at(source);
            &&& quiet
            &&& if before.sub_channels.contains_key(scid.0) {
                &&& after == before.with_sub_channel(scid, state.settled())
                &&& boxes_after == closed_off(boxes, state.handed_back(), scid)
            } else {
                after == before && boxes_after == boxes
            }
        },
    }
}

/// The state machine of the subchannel that a message says a subsender is in
/// flight for can count one more.
pub open spec fn has_room(state: DemuxerView, message: MultiMessage) -> bool {
    match message {
        MultiMessage::Sending { scid, .. } => state.sub_channels.contains_key(scid.0)
            ==> state.sub_channels[scid.0].in_flight.len() < usize::MAX,
        MultiMessage::SendingViaIpcChannel { scid, .. } => state.sub_channels.contains_key(scid.0)
            ==> state.sub_channels[scid.0].in_flight.len() < usize::MAX,
        _ => true,
    }
}

/// A message can be handled: it can be counted, and the outcomes are those of
/// connecting the IPC senders in it.
pub open spec fn receivable(
    state: DemuxerView,
    message: MultiMessage,
    outcomes: Seq<Result<Connection, MuxError>>,
) -> bool {
    &&& has_room(state, message)
    &&& outcomes_of(outcomes, to_connect(state.senders.dom(), named_in(message)))
}

/// Whether the outcomes are those of connecting the given IPC senders one by one
/// until the first failure.
fn are_outcomes(
    outcomes: &VecDeque<Result<Connection, MuxError>>,
    senders: &Vec<(Arc<ForwardSender>, Uuid)>,
) -> (are: bool)
    ensures
        are == outcomes_of(
            outcomes@,
            senders@.map_values(|sender: (Arc<ForwardSender>, Uuid)| (*sender.0, sender.1)),
        ),
{
    let ghost plain = senders@.map_values(
        |sender: (Arc<ForwardSender>, Uuid)| (*sender.0, sender.1),
    );
    if outcomes.len() > senders.len() {
        return false;
    }
    if outcomes.len() < senders.len() {
        if outcomes.len() == 0 {
            return false;
        }
        match &outcomes[outcomes.len() - 1] {
            Ok(_) => {
                return false;
            },
            Err(_) => {},
        }
    }
    let mut i: usize = 0;
    while i < outcomes.len()
        invariant
            i <= outcomes@.len() <= senders@.len(),
            plain == senders@.map_values(
                |sender: (Arc<ForwardSender>, Uuid)| (*sender.0, sender.1),
            ),
            forall|j: int|
                #![trigger outcomes@[j]]
                0 <= j < i && outcomes@[j] is Ok ==> {
                    &&& *outcomes@[j]->Ok_0.ipc_sender == plain[j].0
                    &&& outcomes@[j]->Ok_0.uuid == plain[j].1
                },
        decreases outcomes@.len() - i,
    {
        match &outcomes[i] {
            Ok(connection) => {
                if connection.ipc_sender.handle != senders[i].0.handle || connection.uuid
                    != senders[i].1 {
                    assert(outcomes@[i as int] is Ok);
                    return false;
                }
            },
            Err(_) => {},
        }
        i += 1;
    }
    true
}

impl Demuxer {
    /// Whether a message can be handled with the given outcomes of connecting
    /// the IPC senders in it.
    pub fn can_handle(
        &self,
        message: &MultiMessage,
        outcomes: &VecDeque<Result<Connection, MuxError>>,
    ) -> (can: bool)
        ensures
            can == receivable(self@, *message, outcomes@),
    {
        let senders = self.senders_to_connect(message);
        self.can_take(message) && are_outcomes(outcomes, &senders)
    }

    /// Handles a message as [`Demuxer::handle`] does, or returns `None` if it
    /// cannot be handled with the given outcomes.
    pub fn try_handle(
        &mut self,
        message: MultiMessage,
        receiver: Uuid,
        outcomes: VecDeque<Result<Connection, MuxError>>,
        mailboxes: &mut SubChannelMailboxes,
    ) -> (outcome: Option<Handled>)
        requires
            old(mailboxes).wf(),
        ensures
            final(mailboxes).wf(),
            final(mailboxes).exhausted() == old(mailboxes).exhausted(),
            (match outcome {
                Some(outcome) => {
                    &&& receivable(old(self)@, message, outcomes@)
                    &&& message_handled(
                        old(self)@,
                        old(mailboxes)@,
                        message,
                        receiver,
                        outcomes@,
                        outcome,
                        final(self)@,
                        final(mailboxes)@,
                    )
                },
                None => {
                    &&& !receivable(old(self)@, message, outcomes@)
                    &&& final(self)@ == old(self)@
                    &&& final(mailboxes)@ == old(mailboxes)@
                },
            }),
    {
        if self.can_handle(&message, &outcomes) {
            Some(self.handle(message, receiver, outcomes, mailboxes))
        } else {
            None
        }
    }

    fn disconnect(&mut self, scid: SubChannelId, source: Uuid, mailboxes: &mut SubChannelMailboxes)
        requires
            old(mailboxes).wf(),
        ensures
            final(mailboxes).wf(),
            final(mailboxes).exhausted() == old(mailboxes).exhausted(),
            ({
                let state = old(self)@.sub_channels[scid.0].dropped_at(source);
                if old(self)@.sub_channels.contains_key(scid.0) {
                    &&& final(self)@ == old(self)@.with_sub_channel(scid, state.settled())
                    &&& final(mailboxes)@ == closed_off(
                        old(mailboxes)@,
                        state.handed_back(),
                        scid,
                    )
                } else {
                    final(self)@ == old(self)@ && final(mailboxes)@ == old(mailboxes)@
                }
            }),
    {
        match self.sub_channels.remove(&scid.0) {
            Some(machine) => {
                let mut machine = machine;
                let handed_back: Option<MailboxId> = machine.disconnect(source);
                let ghost state = machine@;
                self.sub_channels.insert(scid.0, machine);
                assert(self@ =~= old(self)@.with_sub_channel(scid, state));
                close_off(mailboxes, handed_back, scid);
            },
            None => {
                assert(self@ =~= old(self)@);
            },
        }
    }

    fn receive_failed(
        &mut self,
        scid: SubChannelId,
        via: SubChannelId,
        mailboxes: &mut SubChannelMailboxes,
    )
        requires
            old(mailboxes).wf(),
        ensures
            final(mailboxes).wf(),
            final(mailboxes).exhausted() == old(mailboxes).exhausted(),
            ({
                let state = old(self)@.sub_channels[scid.0].failed_via(via.0);
                if old(self)@.sub_channels.contains_key(scid.0) {
                    &&& final(self)@ == old(self)@.with_sub_channel(scid, state.settled())
                    &&& final(mailboxes)@ == closed_off(
                        old(mailboxes)@,
                        state.handed_back(),
                        scid,
                    )
                } else {
                    final(self)@ == old(self)@ && final(mailboxes)@ == old(mailboxes)@
                }
            }),
    {
        match self.sub_channels.remove(&scid.0) {
            Some(machine) => {
                let mut machine = machine;
                let handed_back: Option<MailboxId> = machine.receive_failed(&via.0);
                let ghost state = machine@;
                self.sub_channels.insert(scid.0, machine);
                assert(self@ =~= old(self)@.with_sub_channel(scid, state));
                close_off(mailboxes, handed_back, scid);
            },
            None => {
                assert(self@ =~= old(self)@);
            },
        }
    }

    fn to_be_sent(&mut self, scid: SubChannelId, via: Uuid, probe: Probe)
        requires
            old(self)@.sub_channels.contains_key(scid.0)
                ==> old(self)@.sub_channels[scid.0].in_flight.len() < usize::MAX,
        ensures
            final(self)@ == (if old(self)@.sub_channels.contains_key(scid.0) {
                old(self)@.with_sub_channel(
                    scid,
                    old(self)@.sub_channels[scid.0].sent_via(via, probe),
                )
            } else {
                old(self)@
            }),
    {
        match self.sub_channels.remove(&scid.0) {
            Some(machine) => {
                let mut machine = machine;
                machine.to_be_sent(via, probe);
                let ghost state = machine@;
                self.sub_channels.insert(scid.0, machine);
                assert(self@ =~= old(self)@.with_sub_channel(scid, state));
            },
            None => {
                assert(self@ =~= old(self)@);
            },
        }
    }

    fn received(&mut self, scid: SubChannelId, via: SubChannelId, new_source: Uuid)
        ensures
            final(self)@ == (if old(self)@.sub_channels.contains_key(scid.0) {
                old(self)@.with_sub_channel(
                    scid,
                    old(self)@.sub_channels[scid.0].arrived(via.0, new_source),
                )
            } else {
                old(self)@
            }),
    {
        match self.sub_channels.remove(&scid.0) {
            Some(machine) => {
                let mut machine = machine;
                machine.received(&via.0, new_source);
                let ghost state = machine@;
                self.sub_channels.insert(scid.0, machine);
                assert(self@ =~= old(self)@.with_sub_channel(scid, state));
            },
            None => {
                assert(self@ =~= old(self)@);
            },
        }
    }

    /// Handles a message that has arrived at the receiver with the given UUID.
    /// The IPC senders that have to be connected first have been, one by one
    /// until the first failure, with the given outcomes.
    pub fn handle(
        &mut self,
        message: MultiMessage,
        receiver: Uuid,
        outcomes: VecDeque<Result<Connection, MuxError>>,
        mailboxes: &mut SubChannelMailboxes,
    ) -> (outcome: Handled)
        requires
            old(mailboxes).wf(),
            has_room(old(self)@, message),
            outcomes_of(outcomes@, to_connect(old(self)@.senders.dom(), named_in(message))),
        ensures
            final(mailboxes).wf(),
            final(mailboxes).exhausted() == old(mailboxes).exhausted(),
            message_handled(
                old(self)@,
                old(mailboxes)@,
                message,
                receiver,
                outcomes@,
                outcome,
                final(self)@,
                final(mailboxes)@,
            ),
    {
        match message {
            MultiMessage::Connect(sender, client_id) => {
                self.ipc_senders.insert(client_id.0, sender);
                Handled { result: Ok(()), effects: Vec::new() }
            },
            MultiMessage::Data(scid, payload, senders, attachments) => self.sort(
                scid,
                payload,
                &senders,
                attachments,
                receiver,
                outcomes,
                Strictness::Strict,
                mailboxes,
            ),
            MultiMessage::Disconnect(scid, source) => {
                self.disconnect(scid, source, mailboxes);
                Handled { result: Ok(()), effects: Vec::new() }
            },
            MultiMessage::Sending { scid, via, via_chan } => {
                let ghost named = named_in(message);
                proof {
                    assert(named[0] == via_chan);
                    reveal_with_fuel(to_connect, 2);
                }
                let mut left = outcomes;
                match self.ipcsender_from_sender_and_or_id(&via_chan, &mut left) {
                    Ok(connection) => {
                        self.to_be_sent(
                            scid,
                            via.0,
                            Probe::MultiSender(connection.multi_sender),
                        );
                    },
                    Err(_) => {
                        self.to_be_sent(scid, via.0, Probe::Lost);
                        self.receive_failed(scid, via, mailboxes);
                        proof {
                            let known = DemuxerView {
                                senders: resolved(old(self)@.senders, via_chan, outcomes@).senders,
                                ..old(self)@
                            };
                            if old(self)@.sub_channels.contains_key(scid.0) {
                                let lost = old(self)@.sub_channels[scid.0].sent_via(
                                    via.0,
                                    Probe::Lost,
                                ).failed_via(via.0);
                                assert(self@ =~= known.with_sub_channel(scid, lost.settled()));
                            }
                        }
                    },
                }
                Handled { result: Ok(()), effects: Vec::new() }
            },
            MultiMessage::SendingViaIpcChannel { scid, keepalive } => {
                self.to_be_sent(scid, EMPTY_SUBCHANNEL_ID, Probe::Keepalive(keepalive.handle));
                Handled { result: Ok(()), effects: Vec::new() }
            },
            MultiMessage::ReceiveFailed { scid, via } => {
                self.receive_failed(scid, via, mailboxes);
                Handled { result: Ok(()), effects: Vec::new() }
            },
            MultiMessage::Received { scid, via, new_source } => {
                self.received(scid, via, new_source);
                Handled { result: Ok(()), effects: Vec::new() }
            },
            MultiMessage::SubChannelId(scid, name) => {
                let id_text = uuid_text(scid.0);
                let name_text = quoted_text(name.as_str());
                let text = join(
                    "unexpected multi message SubChannelId(SubChannelId(",
                    id_text.as_str(),
                );
                let text = join(text.as_str(), "), ");
                let text = join(text.as_str(), name_text.as_str());
                let text = join(text.as_str(), ")");
                Handled { result: Err(MuxError::InternalError(text)), effects: Vec::new() }
            },
        }
    }

    /// Sorts a message for a subchannel that is received from through a set of
    /// receivers.
    pub fn send(
        &mut self,
        scid: SubChannelId,
        payload: Vec<u8>,
        senders: &Vec<(SubChannelId, IpcSenderAndOrId)>,
        receiver: Uuid,
        attachments: Attachments,
        outcomes: VecDeque<Result<Connection, MuxError>>,
        mailboxes: &mut SubChannelMailboxes,
    ) -> (outcome: Handled)
        requires
            old(mailboxes).wf(),
            outcomes_of(outcomes@, to_connect(old(self)@.senders.dom(), names_of(senders@))),
        ensures
            final(mailboxes).wf(),
            final(mailboxes).exhausted() == old(mailboxes).exhausted(),
            data_handled(
                old(self)@,
                old(mailboxes)@,
                scid,
                payload,
                senders@,
                attachments,
                receiver,
                outcomes@,
                Strictness::Lenient,
                outcome,
                final(self)@,
                final(mailboxes)@,
            ),
    {
        self.sort(
            scid,
            payload,
            senders,
            attachments,
            receiver,
            outcomes,
            Strictness::Lenient,
            mailboxes,
        )
    }

    /// Whether the state machine of the subchannel that a message says a
    /// subsender is in flight for can count one more.
    pub fn can_take(&self, message: &MultiMessage) -> (can: bool)
        ensures
            can == has_room(self@, *message),
    {
        let scid = match message {
            MultiMessage::Sending { scid, via: _, via_chan: _ } => *scid,
            MultiMessage::SendingViaIpcChannel { scid, keepalive: _ } => *scid,
            _ => {
                return true;
            },
        };
        match self.sub_channels.get(&scid.0) {
            Some(machine) => machine.can_count_more(),
            None => true,
        }
    }

    /// Starts watching over the senders of a subchannel, whose messages go to
    /// the given mailbox. If the subchannel was already there, its former
    /// mailbox loses a sender.
    pub fn insert_state_machine(
        &mut self,
        scid: SubChannelId,
        mailbox: MailboxId,
        mailboxes: &mut SubChannelMailboxes,
    )
        requires
            old(mailboxes).wf(),
        ensures
            final(mailboxes).wf(),
            final(mailboxes).exhausted() == old(mailboxes).exhausted(),
            final(self)@ == old(self)@.with_sub_channel(
                scid,
                SubSenderView::initial(mailbox, ORIGIN),
            ),
            final(mailboxes)@ == left_by_former(old(self)@, scid, old(mailboxes)@),
    {
        let former = self.sub_channels.insert(scid.0, SubSenderStateMachine::new(mailbox, ORIGIN));
        assert(self@ =~= old(self)@.with_sub_channel(
            scid,
            SubSenderView::initial(mailbox, ORIGIN),
        ));
        match former {
            Some(machine) => {
                match machine.sender() {
                    Some(id) => {
                        mailboxes.drop_sender(*id);
                    },
                    None => {},
                }
            },
            None => {},
        }
    }

    /// Directs the messages for a subchannel to another mailbox. The former one
    /// loses a sender.
    pub fn switch_sub_channel_sender(
        &mut self,
        scid: SubChannelId,
        mailbox: MailboxId,
        mailboxes: &mut SubChannelMailboxes,
    ) -> (switched: Result<(), MuxError>)
        requires
            old(mailboxes).wf(),
        ensures
            final(mailboxes).wf(),
            final(mailboxes).exhausted() == old(mailboxes).exhausted(),
            (match switched {
                Ok(()) => {
                    &&& old(self)@.sub_channels.contains_key(scid.0)
                    &&& final(self)@ == old(self)@.with_sub_channel(
                        scid,
                        SubSenderView { sender: Some(mailbox), ..old(self)@.sub_channels[scid.0] },
                    )
                    &&& final(mailboxes)@ == left_by_former(old(self)@, scid, old(mailboxes)@)
                },
                Err(e) => {
                    &&& !old(self)@.sub_channels.contains_key(scid.0)
                    &&& e@ == MuxErrorView::InternalError(
                        "missing sub_channel for "@ + hyphenated(scid.0),
                    )
                    &&& final(self)@ == old(self)@
                    &&& final(mailboxes)@ == old(mailboxes)@
                },
            }),
    {
        match self.sub_channels.remove(&scid.0) {
            Some(machine) => {
                let mut machine = machine;
                match machine.sender() {
                    Some(id) => {
                        mailboxes.drop_sender(*id);
                    },
                    None => {},
                }
                machine.switch_sender(mailbox);
                let ghost state = machine@;
                self.sub_channels.insert(scid.0, machine);
                assert(self@ =~= old(self)@.with_sub_channel(scid, state));
                Ok(())
            },
            None => {
                assert(self@ =~= old(self)@);
                let text = uuid_text(scid.0);
                Err(MuxError::InternalError(join("missing sub_channel for ", text.as_str())))
            },
        }
    }

    /// Forgets all clients, which closes their response channels.
    pub fn clear_ipc_senders(&mut self)
        ensures
            final(self)@ == (DemuxerView { clients: Map::empty(), ..old(self)@ }),
    {
        self.ipc_senders.clear();
    }
}

/// The mailboxes after the one that a subchannel used has lost a sender.
pub open spec fn left_by_former(
    state: DemuxerView,
    scid: SubChannelId,
    boxes: MailboxMap,
) -> MailboxMap {
    if state.sub_channels.contains_key(scid.0) && state.sub_channels[scid.0].sender is Some {
        left_by_sender(boxes, state.sub_channels[scid.0].sender->0)
    } else {
        boxes
    }
}

/// The channels that have been found to be gone by probing.
#[derive(Debug)]
pub struct LostChannels {
    pub multi_senders: Vec<MultiSenderId>,
    pub keepalives: Vec<u64>,
}

impl LostChannels {
    /// Whether a probe reports that its channel is gone.
    pub open spec fn reports(&self, probe: Probe) -> bool {
        match probe {
            Probe::MultiSender(id) => self.multi_senders@.contains(id),
            Probe::Keepalive(handle) => self.keepalives@.contains(handle),
            Probe::Lost => true,
        }
    }

    /// Whether a probe reports that its channel is gone.
    fn report(&self, probe: Probe) -> (lost: bool)
        ensures
            lost == self.reports(probe),
    {
        match probe {
            Probe::MultiSender(id) => contains(&self.multi_senders, id),
            Probe::Keepalive(handle) => contains(&self.keepalives, handle),
            Probe::Lost => true,
        }
    }
}

pub(crate) fn contains(items: &Vec<u64>, item: u64) -> (found: bool)
    ensures
        found == items@.contains(item),
{
    let mut i: usize = 0;
    while i < items.len()
        invariant
            i <= items.len(),
            forall|j: int| 0 <= j < i ==> items@[j] != item,
        decreases items.len() - i,
    {
        if items[i] == item {
            return true;
        }
        i += 1;
    }
    false
}

/// The subchannels that carry copies of a subsender over channels that are
/// gone.
pub open spec fn lost_vias(
    state: SubSenderView<MailboxId, Probe>,
    lost: LostChannels,
) -> Set<Uuid> {
    state.probes.dom().filter(|via: Uuid| lost.reports(state.probes[via]))
}

/// What comes of polling.
#[verifier::ext_equal]
pub struct Polled {
    pub state: DemuxerView,
    pub boxes: MailboxMap,
    /// A probe has failed.
    pub failed: bool,
}

/// Polls the senders of one subchannel: copies of the subsender in flight over
/// channels that are gone are given up, and the receiver is told if none is
/// left. Nothing is probed for a subchannel that is already disconnected.
pub open spec fn polled_one(before: Polled, scid: Uuid, lost: LostChannels) -> Polled {
    let state = before.state.sub_channels[scid];
    let gone = lost_vias(state, lost);
    let after = state.lost_via(gone);
    if state.sender is None {
        before
    } else {
        Polled {
            state: before.state.with_sub_channel(SubChannelId(scid), after.settled()),
            boxes: closed_off(before.boxes, after.handed_back(), SubChannelId(scid)),
            failed: before.failed || gone != Set::<u128>::empty(),
        }
    }
}

/// Polls the senders of several subchannels one after the other.
pub open spec fn polled_in_order(before: Polled, order: Seq<Uuid>, lost: LostChannels) -> Polled
    decreases order.len(),
{
    if order.len() == 0 {
        before
    } else {
        polled_one(polled_in_order(before, order.drop_last(), lost), order.last(), lost)
    }
}

/// Each of the given keys occurs once in the sequence and nothing else does.
pub open spec fn lists_once(order: Seq<Uuid>, keys: Set<Uuid>) -> bool {
    &&& order.no_duplicates()
    &&& forall|key: Uuid| #[trigger] keys.contains(key) <==> order.contains(key)
}

/// Polling does not change which subchannels there are.
proof fn lemma_polled_keys(before: Polled, order: Seq<Uuid>, lost: LostChannels)
    requires
        forall|i: int|
            0 <= i < order.len() ==> before.state.sub_channels.contains_key(#[trigger] order[i]),
    ensures
        polled_in_order(before, order, lost).state.sub_channels.dom()
            == before.state.sub_channels.dom(),
        polled_in_order(before, order, lost).state.clients == before.state.clients,
        polled_in_order(before, order, lost).state.disconnectors == before.state.disconnectors,
        polled_in_order(before, order, lost).state.senders == before.state.senders,
    decreases order.len(),
{
    if order.len() > 0 {
        lemma_polled_keys(before, order.drop_last(), lost);
        assert(before.state.sub_channels.contains_key(order[order.len() - 1]));
        let middle = polled_in_order(before, order.drop_last(), lost);
        assert(polled_one(middle, order.last(), lost).state.sub_channels.dom()
            =~= middle.state.sub_channels.dom());
    }
}

proof fn lemma_poll_of_some(before: Polled, order: Seq<Uuid>, lost: LostChannels)
    requires
        order.no_duplicates(),
        forall|i: int|
            0 <= i < order.len() ==> before.state.sub_channels.contains_key(#[trigger] order[i]),
    ensures
        polled_in_order(before, order, lost).failed == (before.failed || exists|i: int|
            0 <= i < order.len() && probe_fails(before.state, #[trigger] order[i], lost)),
        forall|scid: Uuid| #[trigger]
            before.state.sub_channels.contains_key(scid) && !order.contains(scid)
                ==> polled_in_order(before, order, lost).state.sub_channels[scid]
                == before.state.sub_channels[scid],
    decreases order.len(),
{
    if order.len() > 0 {
        let earlier = order.drop_last();
        lemma_poll_of_some(before, earlier, lost);
        let middle = polled_in_order(before, earlier, lost);
        let last = order[order.len() - 1];
        assert(before.state.sub_channels.contains_key(last));
        assert(!earlier.contains(last));
        assert(middle.state.sub_channels[last] == before.state.sub_channels[last]);
        assert forall|scid: Uuid| #[trigger]
            before.state.sub_channels.contains_key(scid) && !order.contains(scid) implies
            polled_in_order(before, order, lost).state.sub_channels[scid]
            == before.state.sub_channels[scid] by {
            assert(order.contains(last));
            if earlier.contains(scid) {
                let i = choose|i: int| 0 <= i < earlier.len() && earlier[i] == scid;
                assert(order[i] == scid);
            }
        }
        if exists|i: int|
            0 <= i < earlier.len() && probe_fails(before.state, #[trigger] earlier[i], lost) {
            let i = choose|i: int|
                0 <= i < earlier.len() && probe_fails(before.state, #[trigger] earlier[i], lost);
            assert(order[i] == earlier[i]);
        }
        if exists|i: int|
            0 <= i < order.len() && probe_fails(before.state, #[trigger] order[i], lost) {
            let i = choose|i: int|
                0 <= i < order.len() && probe_fails(before.state, #[trigger] order[i], lost);
            if i < earlier.len() {
                assert(earlier[i] == order[i]);
            }
        }
    }
}

/// A probe of a subchannel that is not disconnected fails.
pub open spec fn probe_fails(state: DemuxerView, scid: Uuid, lost: LostChannels) -> bool {
    &&& state.sub_channels[scid].sender is Some
    &&& lost_vias(state.sub_channels[scid], lost) != Set::<Uuid>::empty()
}

/// Polling tells of a failure if and only if a probe failed, whatever the order
/// in which the subchannels are polled.
pub proof fn law_poll_tells_of_failed_probes(
    state: DemuxerView,
    boxes: MailboxMap,
    order: Seq<Uuid>,
    lost: LostChannels,
)
    requires
        lists_once(order, state.sub_channels.dom()),
    ensures
        polled_in_order(Polled { state, boxes, failed: false }, order, lost).failed == exists|
            scid: Uuid,
        | #[trigger]
            state.sub_channels.contains_key(scid) && probe_fails(state, scid, lost),
{
    let before = Polled { state, boxes, failed: false };
    assert forall|i: int| 0 <= i < order.len() implies state.sub_channels.contains_key(
        #[trigger] order[i],
    ) by {
        assert(order.contains(order[i]));
        assert(state.sub_channels.dom().contains(order[i]));
    }
    lemma_poll_of_some(before, order, lost);
    if exists|scid: Uuid| #[trigger]
        state.sub_channels.contains_key(scid) && probe_fails(state, scid, lost) {
        let scid = choose|scid: Uuid| #[trigger]
            state.sub_channels.contains_key(scid) && probe_fails(state, scid, lost);
        assert(state.sub_channels.dom().contains(scid));
        let i = choose|i: int| 0 <= i < order.len() && order[i] == scid;
        assert(probe_fails(state, order[i], lost));
    }
}

/// Each client is told, in some order, that the receiver of a subchannel has
/// disconnected.
pub open spec fn clients_told(
    clients: Map<Uuid, ResponseSender>,
    scid: SubChannelId,
    responses: Seq<(ResponseSender, MultiResponse)>,
) -> bool {
    exists|order: Seq<Uuid>|
        {
            &&& #[trigger] lists_once(order, clients.dom())
            &&& responses == order.map_values(
                |client: Uuid| (clients[client], MultiResponse::SubReceiverDisconnected(scid)),
            )
        }
}

impl Demuxer {
    /// The ids of the subchannels.
    fn sub_channel_ids(&self) -> (ids: Vec<Uuid>)
        ensures
            lists_once(ids@, self@.sub_channels.dom()),
    {
        let mut ids: Vec<Uuid> = Vec::new();
        for id in keys: self.sub_channels.keys()
            invariant
                keys.seq().no_duplicates(),
                keys.seq().unref().to_set() == self.sub_channels@.dom(),
                ids@.len() == keys.index(),
                forall|k: int|
                    #![trigger ids@[k]]
                    0 <= k < ids@.len() ==> ids@[k] == keys.seq().unref()[k],
                keys.index() == keys.seq().len() ==> ids@ == keys.seq().unref(),
        {
            ids.push(*id);
            proof {
                let n = keys.index() as int;
                assert(keys.seq()[n] == id);
                assert(n + 1 == keys.seq().len() ==> ids@ =~= keys.seq().unref());
            }
        }
        proof {
            assert forall|key: Uuid| #[trigger]
                self@.sub_channels.dom().contains(key) <==> ids@.contains(key) by {
                assert(self.sub_channels@.dom().contains(key) <==> ids@.to_set().contains(key));
            }
        }
        ids
    }

    /// The probes by which it is found out whether channels that carry copies
    /// of subsenders are alive. Those of subchannels that are already
    /// disconnected are left out.
    pub fn probes(&self) -> (probes: Vec<Probe>)
        ensures
            forall|probe: Probe| #[trigger]
                probes@.contains(probe) <==> exists|scid: Uuid, via: Uuid|
                    {
                        &&& #[trigger] self@.sub_channels.contains_key(scid)
                        &&& self@.sub_channels[scid].sender is Some
                        &&& #[trigger] self@.sub_channels[scid].probes.contains_key(via)
                        &&& self@.sub_channels[scid].probes[via] == probe
                    },
    {
        let ids: Vec<Uuid> = self.sub_channel_ids();
        let mut probes: Vec<Probe> = Vec::new();
        let mut i: usize = 0;
        while i < ids.len()
            invariant
                i <= ids.len(),
                lists_once(ids@, self@.sub_channels.dom()),
                forall|probe: Probe| #[trigger]
                    probes@.contains(probe) <==> exists|k: int, via: Uuid|
                        {
                            &&& 0 <= k < i
                            &&& self@.sub_channels[#[trigger] ids@[k]].sender is Some
                            &&& #[trigger] self@.sub_channels[ids@[k]].probes.contains_key(via)
                            &&& self@.sub_channels[ids@[k]].probes[via] == probe
                        },
            decreases ids.len() - i,
        {
            let id: Uuid = ids[i];
            proof {
                assert(ids@.contains(id));
                assert(self@.sub_channels.dom().contains(id));
            }
            let ghost before = probes@;
            let ghost state = self@.sub_channels[id];
            match self.sub_channels.get(&id) {
                Some(machine) => {
                    if machine.sender().is_some() {
                        let own: Vec<(Uuid, Probe)> = machine.probes();
                        let mut j: usize = 0;
                        while j < own.len()
                            invariant
                                j <= own.len(),
                                forall|probe: Probe| #[trigger]
                                    probes@.contains(probe) <==> before.contains(probe) || exists|
                                        k: int,
                                    |
                                        0 <= k < j && (#[trigger] own@[k]).1 == probe,
                            decreases own.len() - j,
                        {
                            let ghost earlier = probes@;
                            let probe: Probe = own[j].1;
                            probes.push(probe);
                            proof {
                                assert forall|p: Probe| #[trigger]
                                    probes@.contains(p) <==> before.contains(p) || exists|k: int|
                                        0 <= k < j + 1 && (#[trigger] own@[k]).1 == p by {
                                    assert(probes@.last() == probe);
                                    assert(probes@.contains(p) <==> earlier.contains(p) || p == probe)
                                        by {
                                        if earlier.contains(p) {
                                            let n = choose|n: int|
                                                0 <= n < earlier.len() && earlier[n] == p;
                                            assert(probes@[n] == p);
                                        }
                                    }
                                    if p == probe {
                                        assert(own@[j as int].1 == p);
                                    }
                                }
                            }
                            j += 1;
                        }
                        proof {
                            assert forall|probe: Probe| #[trigger]
                                probes@.contains(probe) <==> exists|k: int, via: Uuid|
                                    {
                                        &&& 0 <= k < i + 1
                                        &&& self@.sub_channels[#[trigger] ids@[k]].sender is Some
                                        &&& #[trigger] self@.sub_channels[ids@[k]].probes.contains_key(
                                            via,
                                        )
                                        &&& self@.sub_channels[ids@[k]].probes[via] == probe
                                    } by {
                                if exists|k: int| 0 <= k < own@.len() && (#[trigger] own@[k]).1 == probe {
                                    let k = choose|k: int|
                                        0 <= k < own@.len() && (#[trigger] own@[k]).1 == probe;
                                    let via = own@[k].0;
                                    assert(state.probes.contains_key(via));
                                    assert(self@.sub_channels[ids@[i as int]].probes.contains_key(via));
                                }
                                if exists|via: Uuid| #[trigger]
                                    state.probes.contains_key(via) && state.probes[via] == probe {
                                    let via = choose|via: Uuid| #[trigger]
                                        state.probes.contains_key(via) && state.probes[via] == probe;
                                    assert(own@.contains((via, probe)));
                                    let k = choose|k: int|
                                        0 <= k < own@.len() && own@[k] == (via, probe);
                                    assert(own@[k].1 == probe);
                                }
                            }
                        }
                    }
                },
                None => {},
            }
            i += 1;
        }
        proof {
            assert forall|probe: Probe| #[trigger]
                probes@.contains(probe) <==> exists|scid: Uuid, via: Uuid|
                    {
                        &&& #[trigger] self@.sub_channels.contains_key(scid)
                        &&& self@.sub_channels[scid].sender is Some
                        &&& #[trigger] self@.sub_channels[scid].probes.contains_key(via)
                        &&& self@.sub_channels[scid].probes[via] == probe
                    } by {
                if probes@.contains(probe) {
                    let (k, via) = choose|k: int, via: Uuid|
                        {
                            &&& 0 <= k < ids@.len()
                            &&& self@.sub_channels[#[trigger] ids@[k]].sender is Some
                            &&& #[trigger] self@.sub_channels[ids@[k]].probes.contains_key(via)
                            &&& self@.sub_channels[ids@[k]].probes[via] == probe
                        };
                    assert(ids@.contains(ids@[k]));
                    assert(self@.sub_channels.dom().contains(ids@[k]));
                    assert(self@.sub_channels.contains_key(ids@[k]));
                }
                if exists|scid: Uuid, via: Uuid|
                    {
                        &&& #[trigger] self@.sub_channels.contains_key(scid)
                        &&& self@.sub_channels[scid].sender is Some
                        &&& #[trigger] self@.sub_channels[scid].probes.contains_key(via)
                        &&& self@.sub_channels[scid].probes[via] == probe
                    } {
                    let (scid, via) = choose|scid: Uuid, via: Uuid|
                        {
                            &&& #[trigger] self@.sub_channels.contains_key(scid)
                            &&& self@.sub_channels[scid].sender is Some
                            &&& #[trigger] self@.sub_channels[scid].probes.contains_key(via)
                            &&& self@.sub_channels[scid].probes[via] == probe
                        };
                    assert(self@.sub_channels.dom().contains(scid));
                    assert(ids@.contains(scid));
                    let k = choose|k: int| 0 <= k < ids@.len() && ids@[k] == scid;
                    assert(self@.sub_channels[ids@[k]].probes.contains_key(via));
                }
            }
        }
        probes
    }

    /// Polls the senders of all subchannels, given the channels that have been
    /// found to be gone. The subchannels are polled in no particular order.
    ///
    /// Returns whether a probe failed.
    pub fn poll_all_subchannels(&mut self, lost: &LostChannels, mailboxes: &mut SubChannelMailboxes) -> (failed:
        bool)
        requires
            old(mailboxes).wf(),
        ensures
            final(mailboxes).wf(),
            final(mailboxes).exhausted() == old(mailboxes).exhausted(),
            exists|order: Seq<Uuid>|
                {
                    &&& #[trigger] lists_once(order, old(self)@.sub_channels.dom())
                    &&& Polled { state: final(self)@, boxes: final(mailboxes)@, failed }
                        == polled_in_order(
                        Polled { state: old(self)@, boxes: old(mailboxes)@, failed: false },
                        order,
                        *lost,
                    )
                },
    {
        let ids: Vec<Uuid> = self.sub_channel_ids();
        let ghost before = Polled { state: self@, boxes: mailboxes@, failed: false };
        let mut failed: bool = false;
        assert(ids@.take(0) =~= Seq::<Uuid>::empty());
        let mut i: usize = 0;
        while i < ids.len()
            invariant
                i <= ids.len(),
                mailboxes.wf(),
                mailboxes.exhausted() == old(mailboxes).exhausted(),
                before == (Polled { state: old(self)@, boxes: old(mailboxes)@, failed: false }),
                lists_once(ids@, before.state.sub_channels.dom()),
                (Polled { state: self@, boxes: mailboxes@, failed }) == polled_in_order(
                    before,
                    ids@.take(i as int),
                    *lost,
                ),
            decreases ids.len() - i,
        {
            let id: Uuid = ids[i];
            let ghost middle = Polled { state: self@, boxes: mailboxes@, failed };
            proof {
                assert forall|k: int| 0 <= k < ids@.take(i as int).len() implies
                    before.state.sub_channels.contains_key(#[trigger] ids@.take(i as int)[k]) by {
                    assert(ids@.contains(ids@[k]));
                    assert(before.state.sub_channels.dom().contains(ids@[k]));
                }
                lemma_polled_keys(before, ids@.take(i as int), *lost);
                assert(ids@.contains(id));
                assert(before.state.sub_channels.dom().contains(id));
                assert(self@.sub_channels.dom().contains(id));
                assert(ids@.take(i + 1).drop_last() =~= ids@.take(i as int));
                assert(ids@.take(i + 1).last() == id);
            }
            match self.sub_channels.remove(&id) {
                Some(machine) => {
                    let mut machine = machine;
                    let ghost state = machine@;
                    let own: Vec<(Uuid, Probe)> = machine.probes();
                    let gone: Vec<Uuid> = lost_among(&own, lost);
                    proof {
                        assert forall|via: Uuid| gone@.to_set().contains(via) <==> lost_vias(
                            state,
                            *lost,
                        ).contains(via) by {
                            if gone@.contains(via) {
                                let k = choose|k: int|
                                    0 <= k < own@.len() && (#[trigger] own@[k]).0 == via
                                        && lost.reports(own@[k].1);
                                assert(state.probes.contains_pair(via, own@[k].1));
                            }
                            if lost_vias(state, *lost).contains(via) {
                                assert(own@.contains((via, state.probes[via])));
                                let k = choose|k: int|
                                    0 <= k < own@.len() && own@[k] == (via, state.probes[via]);
                                assert(own@[k].0 == via);
                            }
                        }
                        assert(gone@.to_set() =~= lost_vias(state, *lost));
                        if gone@.len() > 0 {
                            assert(gone@.contains(gone@[0]));
                            assert(gone@.to_set().contains(gone@[0]));
                        } else {
                            assert(gone@.to_set() =~= Set::<Uuid>::empty());
                        }
                    }
                    let connected: bool = machine.sender().is_some();
                    let (_, handed_back) = machine.poll_with(&gone);
                    let ghost polled = machine@;
                    self.sub_channels.insert(id, machine);
                    close_off(mailboxes, handed_back, SubChannelId(id));
                    if connected && gone.len() > 0 {
                        failed = true;
                    }
                    proof {
                        assert(self@ =~= middle.state.with_sub_channel(SubChannelId(id), polled));
                        assert(state == middle.state.sub_channels[id]);
                        if state.sender is None {
                            assert(middle.state.with_sub_channel(SubChannelId(id), polled)
                                =~= middle.state);
                        }
                        assert((Polled { state: self@, boxes: mailboxes@, failed }) =~= polled_one(
                            middle,
                            id,
                            *lost,
                        ));
                    }
                },
                None => {
                    assert(false);
                },
            }
            i += 1;
        }
        assert(ids@.take(ids@.len() as int) =~= ids@);
        failed
    }

    /// What each client is told when the receiver of the given subchannel
    /// disconnects, and where.
    pub fn disconnection_responses(&self, scid: SubChannelId) -> (responses: Vec<
        (ResponseSender, MultiResponse),
    >)
        ensures
            clients_told(self@.clients, scid, responses@),
    {
        let mut responses: Vec<(ResponseSender, MultiResponse)> = Vec::new();
        let ghost mut order: Seq<Uuid> = Seq::empty();
        for entry in entries: self.ipc_senders.iter()
            invariant
                entries.seq().no_duplicates(),
                forall|k: int|
                    #![trigger entries.seq()[k]]
                    0 <= k < entries.seq().len() ==> {
                        &&& self.ipc_senders@.contains_key(*entries.seq()[k].0)
                        &&& self.ipc_senders@[*entries.seq()[k].0] == *entries.seq()[k].1
                    },
                forall|client: Uuid|
                    #![trigger self.ipc_senders@.contains_key(client)]
                    self.ipc_senders@.contains_key(client) ==> entries.seq().contains(
                        (&client, &self.ipc_senders@[client]),
                    ),
                order.len() == entries.index(),
                forall|k: int|
                    #![trigger order[k]]
                    #![trigger entries.seq()[k]]
                    0 <= k < order.len() ==> order[k] == *entries.seq()[k].0,
                responses@ == order.map_values(
                    |client: Uuid|
                        (self@.clients[client], MultiResponse::SubReceiverDisconnected(scid)),
                ),
        {
            let (client, sender) = entry;
            let ghost before = order;
            responses.push((*sender, MultiResponse::SubReceiverDisconnected(scid)));
            proof {
                assert(entries.seq()[entries.index() as int] == (client, sender));
                order = order.push(*client);
                assert(responses@ =~= order.map_values(
                    |client: Uuid|
                        (self@.clients[client], MultiResponse::SubReceiverDisconnected(scid)),
                ));
            }
        }
        proof {
            assert forall|i: int, j: int|
                0 <= i < order.len() && 0 <= j < order.len() && i != j implies order[i] != order[j] by {
            }
            assert forall|client: Uuid| #[trigger]
                self@.clients.dom().contains(client) <==> order.contains(client) by {
                if self@.clients.dom().contains(client) {
                    assert(self.ipc_senders@.contains_key(client));
                }
                if order.contains(client) {
                    let k = choose|k: int| 0 <= k < order.len() && order[k] == client;
                    assert(order[k] == client);
                }
            }
            assert(lists_once(order, self@.clients.dom()));
        }
        responses
    }
}

/// The vias among the given probes whose channel is gone.
fn lost_among(probes: &Vec<(Uuid, Probe)>, lost: &LostChannels) -> (gone: Vec<Uuid>)
    ensures
        forall|via: Uuid| #[trigger]
            gone@.contains(via) <==> exists|k: int|
                0 <= k < probes@.len() && (#[trigger] probes@[k]).0 == via && lost.reports(
                    probes@[k].1,
                ),
{
    let mut gone: Vec<Uuid> = Vec::new();
    let mut i: usize = 0;
    while i < probes.len()
        invariant
            i <= probes.len(),
            forall|via: Uuid| #[trigger]
                gone@.contains(via) <==> exists|k: int|
                    0 <= k < i && (#[trigger] probes@[k]).0 == via && lost.reports(probes@[k].1),
        decreases probes.len() - i,
    {
        let ghost before = gone@;
        let (via, probe) = probes[i];
        let is_lost: bool = lost.report(probe);
        if is_lost {
            gone.push(via);
        }
        proof {
            assert forall|v: Uuid| #[trigger]
                gone@.contains(v) <==> exists|k: int|
                    0 <= k < i + 1 && (#[trigger] probes@[k]).0 == v && lost.reports(probes@[k].1) by {
                assert(gone@.contains(v) <==> before.contains(v) || (is_lost && v == via)) by {
                    if before.contains(v) {
                        let n = choose|n: int| 0 <= n < before.len() && before[n] == v;
                        assert(gone@[n] == v);
                    }
                    if is_lost && v == via {
                        assert(gone@.last() == v);
                    }
                }
                if is_lost && v == via {
                    assert(probes@[i as int].0 == v);
                }
            }
        }
        i += 1;
    }
    gone
}

} // verus!
