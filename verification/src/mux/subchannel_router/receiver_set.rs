//! Sets of receivers of subchannels.

use crate::mux::captures::unclaimed;
use crate::mux::demux::{
    left_by_former, release_all, releases, Effect, MailboxMap, ResolvedMessage,
    ResolvedMessageOrDisconnect, SubChannelMailboxes,
};
use crate::mux::error::{mux_error, IpcError, MuxError, MuxErrorView};
use crate::mux::mailbox::{
    joined_by_sender, left_by_receiver, left_by_sender, MailboxError, MailboxId, MailboxView,
};
use crate::mux::protocol::SubChannelId;
use crate::mux::receiver::DeserializationContext;
use crate::mux::subchannel_router::select::{
    joined, missing_sub_channel, registration, switched_to, JoinError, OpaqueSelectableSubReceiver,
    SelectableSubChannelReceiver, SelectableSubReceiver, Selectables, SelectablesView, SetId,
    SetView,
};
use crate::mux::text::join;
use crate::mux::uuids::{hyphenated, uuid_text, Uuid};
use std::collections::{HashMap, VecDeque};
use vstd::prelude::*;
use vstd::string::*;

verus! {

broadcast use vstd::std_specs::hash::group_hash_axioms;

/// A common endpoint for receiving the messages of several subchannels.
pub struct SubReceiverSet {
    next_id: u64,
    rxs: HashMap<u64, SelectableSubChannelReceiver>,
    ids: HashMap<Uuid, u64>,
    multi_receiver_set: SetId,
    mailbox: MailboxId,
}

/// The mathematical counterpart of [`SubReceiverSet`].
#[verifier::ext_equal]
pub struct SubReceiverSetView {
    /// The id of the next receiver.
    pub next_id: u64,
    /// The receivers by their ids.
    pub rxs: Map<u64, SelectableSubChannelReceiver>,
    /// The ids of the receivers by their subchannels.
    pub ids: Map<Uuid, u64>,
    /// The set of receiving ends that is waited for.
    pub set: SetId,
    /// Where the messages of all receivers are delivered.
    pub mailbox: MailboxId,
}

impl View for SubReceiverSet {
    type V = SubReceiverSetView;

    closed spec fn view(&self) -> SubReceiverSetView {
        SubReceiverSetView {
            next_id: self.next_id,
            rxs: self.rxs@,
            ids: self.ids@,
            set: self.multi_receiver_set,
            mailbox: self.mailbox,
        }
    }
}

/// A message received on a subchannel, before it is decoded.
#[derive(Debug)]
pub struct RawMessage {
    pub message: ResolvedMessage,
}

/// An event on one of the receivers in a set.
#[derive(Debug)]
pub enum SubSelectionResult {
    /// The receiver with the given id has received a message.
    MessageReceived(u64, RawMessage),
    /// The subchannel of the receiver with the given id has been closed.
    ChannelClosed(u64),
}

/// What has been collected from the mailbox of a set.
#[verifier::ext_equal]
pub struct Collected {
    pub results: Seq<SubSelectionResult>,
    pub rxs: Map<u64, SelectableSubChannelReceiver>,
    pub ids: Map<Uuid, u64>,
    /// How many messages have been taken from the mailbox.
    pub taken: nat,
    /// The reason for which collecting stopped, if it did.
    pub error: Option<MuxErrorView>,
}

/// Collects the events that messages in the mailbox of a set stand for, until
/// one that belongs to no receiver in the set.
pub open spec fn collected(
    set: SubReceiverSetView,
    messages: Seq<ResolvedMessageOrDisconnect>,
) -> Collected
    decreases messages.len(),
{
    if messages.len() == 0 {
        Collected { results: Seq::empty(), rxs: set.rxs, ids: set.ids, taken: 0, error: None }
    } else {
        let before = collected(set, messages.drop_last());
        if before.error is Some {
            before
        } else {
            match messages.last() {
                ResolvedMessageOrDisconnect::ResolvedMessage(message) => {
                    if before.ids.contains_key(message.scid.0) {
                        Collected {
                            results: before.results.push(
                                SubSelectionResult::MessageReceived(
                                    before.ids[message.scid.0],
                                    RawMessage { message },
                                ),
                            ),
                            taken: before.taken + 1,
                            ..before
                        }
                    } else {
                        Collected {
                            taken: before.taken + 1,
                            error: Some(
                                MuxErrorView::InternalError(
                                    "missing id for subchannel "@ + hyphenated(message.scid.0),
                                ),
                            ),
                            ..before
                        }
                    }
                },
                ResolvedMessageOrDisconnect::Disconnect(scid) => {
                    if before.ids.contains_key(scid.0) {
                        Collected {
                            results: before.results.push(
                                SubSelectionResult::ChannelClosed(before.ids[scid.0]),
                            ),
                            rxs: before.rxs.remove(before.ids[scid.0]),
                            ids: before.ids.remove(scid.0),
                            taken: before.taken + 1,
                            error: None,
                        }
                    } else {
                        Collected {
                            taken: before.taken + 1,
                            error: Some(
                                MuxErrorView::InternalError(
                                    "missing id for disconnected subchannel "@ + hyphenated(scid.0),
                                ),
                            ),
                            ..before
                        }
                    }
                },
            }
        }
    }
}

/// An event that belongs to no receiver ends the collection.
proof fn lemma_failure_ends_collection(
    set: SubReceiverSetView,
    messages: Seq<ResolvedMessageOrDisconnect>,
    n: int,
)
    requires
        0 <= n <= messages.len(),
        collected(set, messages.take(n)).error is Some,
    ensures
        collected(set, messages) == collected(set, messages.take(n)),
    decreases messages.len(),
{
    if n == messages.len() {
        assert(messages.take(n) =~= messages);
    } else {
        assert(messages.drop_last().take(n) =~= messages.take(n));
        lemma_failure_ends_collection(set, messages.drop_last(), n);
    }
}

/// The subsenders in the given events are let go of.
pub open spec fn dropped(results: Seq<SubSelectionResult>) -> Seq<Effect>
    decreases results.len(),
{
    if results.len() == 0 {
        Seq::empty()
    } else {
        dropped(results.drop_last()) + match results.last() {
            SubSelectionResult::MessageReceived(_, raw) => releases(raw.message.senders@),
            SubSelectionResult::ChannelClosed(_) => Seq::empty(),
        }
    }
}

fn drop_results(results: Vec<SubSelectionResult>) -> (effects: Vec<Effect>)
    ensures
        effects@ == dropped(results@),
{
    let mut effects: Vec<Effect> = Vec::new();
    let ghost all = results@;
    for result in it: results
        invariant
            it.seq() == all,
            effects@ == dropped(all.take(it.index() as int)),
    {
        proof {
            let n = it.index() as int;
            assert(all.take(n + 1).drop_last() =~= all.take(n));
            assert(all.take(n + 1).last() == result);
        }
        match result {
            SubSelectionResult::MessageReceived(_, raw) => {
                let mut more: Vec<Effect> = release_all(raw.message.senders);
                effects.append(&mut more);
            },
            SubSelectionResult::ChannelClosed(_) => {},
        }
        assert(effects@ =~= dropped(all.take(it.index() + 1)));
    }
    assert(all.take(all.len() as int) =~= all);
    effects
}

/// The subsenders in messages that nobody will receive are let go of.
pub open spec fn let_go(messages: Seq<ResolvedMessageOrDisconnect>) -> Seq<Effect>
    decreases messages.len(),
{
    if messages.len() == 0 {
        Seq::empty()
    } else {
        let_go(messages.drop_last()) + match messages.last() {
            ResolvedMessageOrDisconnect::ResolvedMessage(message) => releases(message.senders@),
            ResolvedMessageOrDisconnect::Disconnect(_) => Seq::empty(),
        }
    }
}

fn let_go_of(messages: VecDeque<ResolvedMessageOrDisconnect>) -> (effects: Vec<Effect>)
    ensures
        effects@ == let_go(messages@),
{
    let ghost all = messages@;
    let mut left = messages;
    let mut effects: Vec<Effect> = Vec::new();
    while left.len() > 0
        invariant
            left@.len() <= all.len(),
            left@ == all.skip(all.len() - left@.len()),
            effects@ == let_go(all.take(all.len() - left@.len())),
        decreases left.len(),
    {
        let ghost n = all.len() - left@.len();
        match left.pop_front() {
            Some(message) => {
                proof {
                    assert(message == all[n]);
                    assert(all.take(n + 1).drop_last() =~= all.take(n));
                    assert(all.take(n + 1).last() == message);
                }
                match message {
                    ResolvedMessageOrDisconnect::ResolvedMessage(message) => {
                        let mut more: Vec<Effect> = release_all(message.senders);
                        effects.append(&mut more);
                    },
                    ResolvedMessageOrDisconnect::Disconnect(_) => {},
                }
                assert(effects@ =~= let_go(all.take(n + 1)));
            },
            None => {},
        }
    }
    assert(all.take(all.len() as int) =~= all);
    effects
}

/// What came of collecting events.
#[derive(Debug)]
pub struct Selection {
    pub result: Result<Vec<SubSelectionResult>, MuxError>,
    pub effects: Vec<Effect>,
}

/// How selecting goes on after events have been collected.
#[derive(Debug)]
pub enum SelectStep {
    /// Return to the caller.
    Return(Result<Vec<SubSelectionResult>, MuxError>),
    /// Wait for the IPC channels, and collect again.
    Wait,
}

/// Selecting ends when there is at least one event, or an error.
pub fn select_step(result: Result<Vec<SubSelectionResult>, MuxError>) -> (step: SelectStep)
    ensures
        step == (match result {
            Ok(events) => if events@.len() == 0 {
                SelectStep::Wait
            } else {
                SelectStep::Return(Ok(events))
            },
            Err(e) => SelectStep::Return(Err(e)),
        }),
{
    match result {
        Ok(events) => if events.len() == 0 {
            SelectStep::Wait
        } else {
            SelectStep::Return(Ok(events))
        },
        Err(e) => SelectStep::Return(Err(e)),
    }
}

/// The mailboxes after messages have been taken from one of them.
pub open spec fn taken_from(boxes: MailboxMap, id: MailboxId, n: nat) -> MailboxMap {
    if boxes.contains_key(id) {
        boxes.insert(
            id,
            MailboxView { messages: boxes[id].messages.skip(n as int), ..boxes[id] },
        )
    } else {
        boxes
    }
}

impl RawMessage {
    /// Gets ready to decode the message, whose bytes are returned.
    pub fn begin_to(self, context: &mut DeserializationContext) -> (begun: (Vec<u8>, Vec<Effect>))
        ensures
            begun.0 == self.message.payload,
            begun.1@ == releases(old(context).senders@),
            final(context).senders@ == self.message.senders@,
            final(context).via == self.message.scid,
            final(context).regions@ == unclaimed(self.message.attachments.shmems@),
            final(context).ipc_senders@ == unclaimed(self.message.attachments.ipc_senders@),
            final(context).ipc_receivers@ == unclaimed(self.message.attachments.ipc_receivers@),
    {
        self.message.begin_deserialize(context)
    }
}

/// A receiver can be added to a set: there is an id left for it and room for a
/// sender of the set's mailbox, the set and the receiver are known, and what
/// came of registering the IPC receiver is given if that is necessary.
pub open spec fn addable(
    set: SubReceiverSetView,
    receiver: SelectableSubChannelReceiver,
    registered: Option<Result<u64, IpcError>>,
    selectables: SelectablesView,
    mailboxes: MailboxMap,
) -> bool {
    &&& set.next_id < u64::MAX
    &&& mailboxes.contains_key(set.mailbox) ==> mailboxes[set.mailbox].senders < usize::MAX
    &&& selectables.sets.contains_key(set.set)
    &&& selectables.receivers.contains_key(receiver.receiver)
    &&& selectables.sets.contains_key(selectables.receivers[receiver.receiver].set)
    &&& registration(selectables, set.set, selectables.receivers[receiver.receiver].set) is Some
        ==> registered is Some
}

/// What comes of adding a receiver to a set: its channel joins the set, and its
/// messages go to the mailbox of the set from now on, under the returned id. It
/// fails if the channel cannot be registered or belongs to another set, or if
/// the subchannel is not known.
pub open spec fn added(
    before: (SubReceiverSetView, SelectablesView, MailboxMap),
    receiver: SelectableSubChannelReceiver,
    registered: Option<Result<u64, IpcError>>,
    id: Result<u64, MuxError>,
    after: (SubReceiverSetView, SelectablesView, MailboxMap),
) -> bool {
    let set = before.0;
    let multi_receiver = before.1.receivers[receiver.receiver];
    let outcome = joined(before.1, set.set, multi_receiver.set, registered);
    let scid = receiver.sub_channel_id;
    match outcome.error {
        Some(reason) => {
            &&& id is Err
            &&& match reason {
                JoinError::Registration(e) => id->Err_0 == mux_error(e),
                JoinError::OtherSet => id->Err_0@ == MuxErrorView::InternalError(
                    "Cannot merge non-empty MultiReceiverSets"@,
                ),
            }
            &&& after == (
                SubReceiverSetView { set: outcome.set, ..set },
                outcome.state,
                before.2,
            )
        },
        None => if multi_receiver.demuxer.sub_channels.contains_key(scid.0) {
            &&& id == Ok::<u64, MuxError>(set.next_id)
            &&& after.0 == SubReceiverSetView {
                next_id: (set.next_id + 1) as u64,
                rxs: set.rxs.insert(set.next_id, receiver),
                ids: set.ids.insert(scid.0, set.next_id),
                set: outcome.set,
                mailbox: set.mailbox,
            }
            &&& after.1 == switched_to(outcome.state, receiver.receiver, scid, set.mailbox)
            &&& after.2 == left_by_former(
                multi_receiver.demuxer,
                scid,
                joined_by_sender(before.2, set.mailbox),
            )
        } else {
            &&& id is Err
            &&& id->Err_0@ == missing_sub_channel(scid)
            &&& after == (
                SubReceiverSetView { set: outcome.set, ..set },
                outcome.state,
                before.2,
            )
        },
    }
}

impl SubReceiverSet {
    /// A set without receivers, given what came of creating the means to wait
    /// for several channels.
    pub fn new(
        waiting: Result<(), IpcError>,
        selectables: &mut Selectables,
        mailboxes: &mut SubChannelMailboxes,
    ) -> (set: Result<SubReceiverSet, MuxError>)
        requires
            old(selectables).wf(),
            !old(selectables).exhausted(),
            old(mailboxes).wf(),
            !old(mailboxes).exhausted(),
        ensures
            final(selectables).wf(),
            final(mailboxes).wf(),
            (match set {
                Ok(set) => {
                    &&& waiting is Ok
                    &&& set@ == SubReceiverSetView {
                        next_id: 0,
                        rxs: Map::empty(),
                        ids: Map::empty(),
                        set: set@.set,
                        mailbox: set@.mailbox,
                    }
                    &&& !old(selectables)@.sets.contains_key(set@.set)
                    &&& final(selectables)@ == old(selectables)@.with_set(
                        set@.set,
                        SetView::initial(),
                    )
                    &&& !old(mailboxes)@.contains_key(set@.mailbox)
                    &&& final(mailboxes)@ == old(mailboxes)@.insert(
                        set@.mailbox,
                        MailboxView::opened(),
                    )
                },
                Err(e) => {
                    &&& waiting is Err
                    &&& e == mux_error(waiting->Err_0)
                    &&& final(selectables)@ == old(selectables)@
                    &&& final(mailboxes)@ == old(mailboxes)@
                },
            }),
    {
        match waiting {
            Ok(()) => {},
            Err(e) => {
                return Err(MuxError::from(e));
            },
        }
        let mailbox: MailboxId = mailboxes.open();
        let multi_receiver_set: SetId = selectables.add_set();
        Ok(
            SubReceiverSet {
                next_id: 0,
                rxs: HashMap::new(),
                ids: HashMap::new(),
                multi_receiver_set,
                mailbox,
            },
        )
    }

    /// The set of receiving ends that is waited for.
    pub fn multi_receiver_set(&self) -> (set: SetId)
        ensures
            set == self@.set,
    {
        self.multi_receiver_set
    }

    /// All ids but the last have been given to a receiver.
    pub fn is_full(&self) -> (full: bool)
        ensures
            full == (self@.next_id == u64::MAX),
    {
        self.next_id == u64::MAX
    }

    /// Where the messages of all receivers are delivered.
    pub fn mailbox(&self) -> (mailbox: MailboxId)
        ensures
            mailbox == self@.mailbox,
    {
        self.mailbox
    }

    /// Adds a receiver to the set, given what came of registering the IPC
    /// receiver of its channel, if that was necessary.
    ///
    /// All the receivers of a channel have to be in one set, and the receivers
    /// of a channel that is received from otherwise cannot be added.
    pub fn add<T>(
        &mut self,
        subreceiver: SelectableSubReceiver<T>,
        registered: Option<Result<u64, IpcError>>,
        selectables: &mut Selectables,
        mailboxes: &mut SubChannelMailboxes,
    ) -> (id: Result<u64, MuxError>)
        requires
            old(selectables).wf(),
            old(mailboxes).wf(),
            addable(
                old(self)@,
                subreceiver.sub_channel_receiver,
                registered,
                old(selectables)@,
                old(mailboxes)@,
            ),
        ensures
            final(selectables).wf(),
            final(selectables).exhausted() == old(selectables).exhausted(),
            final(mailboxes).wf(),
            final(mailboxes).exhausted() == old(mailboxes).exhausted(),
            added(
                (old(self)@, old(selectables)@, old(mailboxes)@),
                subreceiver.sub_channel_receiver,
                registered,
                id,
                (final(self)@, final(selectables)@, final(mailboxes)@),
            ),
    {
        self.add_opaque(subreceiver.to_opaque(), registered, selectables, mailboxes)
    }

    /// Adds a receiver to the set, whatever the type of its messages.
    pub fn add_opaque(
        &mut self,
        receiver: OpaqueSelectableSubReceiver,
        registered: Option<Result<u64, IpcError>>,
        selectables: &mut Selectables,
        mailboxes: &mut SubChannelMailboxes,
    ) -> (id: Result<u64, MuxError>)
        requires
            old(selectables).wf(),
            old(mailboxes).wf(),
            addable(
                old(self)@,
                receiver.sub_channel_receiver,
                registered,
                old(selectables)@,
                old(mailboxes)@,
            ),
        ensures
            final(selectables).wf(),
            final(selectables).exhausted() == old(selectables).exhausted(),
            final(mailboxes).wf(),
            final(mailboxes).exhausted() == old(mailboxes).exhausted(),
            added(
                (old(self)@, old(selectables)@, old(mailboxes)@),
                receiver.sub_channel_receiver,
                registered,
                id,
                (final(self)@, final(selectables)@, final(mailboxes)@),
            ),
    {
        let receiver = receiver.into_inner();
        let incoming: SetId = match selectables.receiver(receiver.receiver) {
            Some(receiver) => receiver.multi_receiver_set(),
            None => {
                assert(false);
                0
            },
        };
        let (set, error): (SetId, Option<JoinError>) = selectables.join(
            self.multi_receiver_set,
            incoming,
            registered,
        );
        self.multi_receiver_set = set;
        match error {
            Some(JoinError::Registration(e)) => {
                return Err(MuxError::from(e));
            },
            Some(JoinError::OtherSet) => {
                return Err(
                    MuxError::InternalError(
                        String::from_str("Cannot merge non-empty MultiReceiverSets"),
                    ),
                );
            },
            None => {},
        }
        let scid = receiver.sub_channel_id;
        mailboxes.add_sender(self.mailbox);
        match selectables.switch_sub_channel_sender(
            receiver.receiver,
            scid,
            self.mailbox,
            mailboxes,
        ) {
            Ok(()) => {},
            Err(e) => {
                mailboxes.drop_sender(self.mailbox);
                proof {
                    if old(mailboxes)@.contains_key(self.mailbox) {
                        old(mailboxes).lemma_connected(self.mailbox);
                    }
                    assert(mailboxes@ =~= old(mailboxes)@);
                }
                return Err(e);
            },
        }
        let id: u64 = self.next_id;
        self.next_id = id + 1;
        self.ids.insert(scid.0, id);
        self.rxs.insert(id, receiver);
        Ok(id)
    }

    /// Collects the events of the receivers in the set. If there are none, the
    /// IPC channels have to be waited for.
    pub fn select(&mut self, mailboxes: &mut SubChannelMailboxes) -> (selection: Selection)
        requires
            old(mailboxes).wf(),
            old(mailboxes)@.contains_key(old(self)@.mailbox),
        ensures
            final(mailboxes).wf(),
            final(mailboxes).exhausted() == old(mailboxes).exhausted(),
            ({
                let mailbox = old(mailboxes)@[old(self)@.mailbox];
                let after = collected(old(self)@, mailbox.messages);
                &&& final(self)@ == SubReceiverSetView {
                    rxs: after.rxs,
                    ids: after.ids,
                    ..old(self)@
                }
                &&& final(mailboxes)@ == taken_from(
                    old(mailboxes)@,
                    old(self)@.mailbox,
                    after.taken,
                )
                &&& match after.error {
                    Some(e) => selection.result is Err && selection.result->Err_0@ == e,
                    None => if mailbox.senders > 0 {
                        &&& set_step(
                            old(self)@,
                            SetStep::Selected { messages: mailbox.messages },
                            final(self)@,
                        )
                        &&& after.taken == mailbox.messages.len()
                        &&& selection.result is Ok
                        &&& selection.result->Ok_0@ == after.results
                        &&& selection.effects@ == Seq::<Effect>::empty()
                    } else {
                        &&& selection.result == Err::<Vec<SubSelectionResult>, MuxError>(
                            MuxError::Disconnected,
                        )
                        &&& selection.effects@ == dropped(after.results)
                    },
                }
                &&& after.error is Some ==> selection.effects@ == (match mailbox.messages[after.taken
                    - 1] {
                    ResolvedMessageOrDisconnect::ResolvedMessage(message) => releases(
                        message.senders@,
                    ),
                    ResolvedMessageOrDisconnect::Disconnect(_) => Seq::empty(),
                }) + dropped(after.results)
            }),
    {
        let mut results: Vec<SubSelectionResult> = Vec::new();
        let ghost messages = mailboxes@[self.mailbox].messages;
        let ghost mut n: int = 0;
        proof {
            assert(messages.take(0) =~= Seq::empty());
            assert(messages.skip(0) =~= messages);
            assert(taken_from(old(mailboxes)@, self@.mailbox, 0) =~= mailboxes@);
        }
        loop
            invariant
                mailboxes.wf(),
                mailboxes.exhausted() == old(mailboxes).exhausted(),
                old(mailboxes)@.contains_key(old(self)@.mailbox),
                messages == old(mailboxes)@[old(self)@.mailbox].messages,
                0 <= n <= messages.len(),
                mailboxes@ == taken_from(old(mailboxes)@, old(self)@.mailbox, n as nat),
                ({
                    let so_far = collected(old(self)@, messages.take(n));
                    &&& so_far.error is None
                    &&& so_far.results == results@
                    &&& so_far.taken == n
                    &&& self@ == SubReceiverSetView {
                        rxs: so_far.rxs,
                        ids: so_far.ids,
                        ..old(self)@
                    }
                }),
            decreases messages.len() - n,
        {
            let ghost before = self@;
            match mailboxes.try_recv(self.mailbox) {
                Ok(message) => {
                    proof {
                        assert(message == messages[n]);
                        assert(messages.skip(n).drop_first() =~= messages.skip(n + 1));
                        assert(messages.take(n + 1).drop_last() =~= messages.take(n));
                        assert(messages.take(n + 1).last() == message);
                        assert(mailboxes@ =~= taken_from(
                            old(mailboxes)@,
                            old(self)@.mailbox,
                            (n + 1) as nat,
                        ));
                    }
                    match message {
                        ResolvedMessageOrDisconnect::ResolvedMessage(message) => {
                            let id: Option<u64> = match self.ids.get(&message.scid.0) {
                                Some(id) => Some(*id),
                                None => None,
                            };
                            match id {
                                Some(id) => {
                                    results.push(
                                        SubSelectionResult::MessageReceived(
                                            id,
                                            RawMessage { message },
                                        ),
                                    );
                                },
                                None => {
                                    proof {
                                        lemma_failure_ends_collection(
                                            old(self)@,
                                            messages,
                                            n + 1,
                                        );
                                    }
                                    let text = uuid_text(message.scid.0);
                                    let e = MuxError::InternalError(
                                        join("missing id for subchannel ", text.as_str()),
                                    );
                                    let mut effects: Vec<Effect> = release_all(message.senders);
                                    let mut more: Vec<Effect> = drop_results(results);
                                    effects.append(&mut more);
                                    return Selection { result: Err(e), effects };
                                },
                            }
                        },
                        ResolvedMessageOrDisconnect::Disconnect(scid) => {
                            match self.ids.remove(&scid.0) {
                                Some(id) => {
                                    self.rxs.remove(&id);
                                    results.push(SubSelectionResult::ChannelClosed(id));
                                },
                                None => {
                                    proof {
                                        assert(self.ids@ =~= before.ids);
                                        lemma_failure_ends_collection(
                                            old(self)@,
                                            messages,
                                            n + 1,
                                        );
                                    }
                                    let text = uuid_text(scid.0);
                                    let e = MuxError::InternalError(
                                        join(
                                            "missing id for disconnected subchannel ",
                                            text.as_str(),
                                        ),
                                    );
                                    let effects: Vec<Effect> = drop_results(results);
                                    assert(effects@ =~= Seq::<Effect>::empty() + effects@);
                                    return Selection { result: Err(e), effects };
                                },
                            }
                        },
                    }
                    proof {
                        n = n + 1;
                    }
                },
                Err(reason) => {
                    proof {
                        assert(n == messages.len());
                        assert(messages.take(n) =~= messages);
                    }
                    match reason {
                        MailboxError::Empty => {
                            return Selection { result: Ok(results), effects: Vec::new() };
                        },
                        MailboxError::Disconnected => {
                            let effects: Vec<Effect> = drop_results(results);
                            return Selection { result: Err(MuxError::Disconnected), effects };
                        },
                    }
                },
            }
        }
    }

    /// Gives the set up: the senders of its receivers learn that nobody
    /// receives any more, and the subsenders in what was left in its mailbox are
    /// let go of.
    pub fn close(self, selectables: &mut Selectables, mailboxes: &mut SubChannelMailboxes) -> (effects:
        Vec<Effect>)
        requires
            old(selectables).wf(),
            old(mailboxes).wf(),
        ensures
            final(selectables).wf(),
            final(mailboxes).wf(),
            final(selectables)@ == crate::mux::subchannel_router::select::closed(
                old(selectables)@,
                self@.set,
            ),
            final(mailboxes)@ == left_by_sender(
                left_by_receiver(old(mailboxes)@, self@.mailbox),
                self@.mailbox,
            ),
            effects@ == (if old(mailboxes)@.contains_key(self@.mailbox) {
                let_go(old(mailboxes)@[self@.mailbox].messages)
            } else {
                Seq::empty()
            }),
    {
        selectables.close(self.multi_receiver_set);
        let messages = mailboxes.drop_receiver(self.mailbox);
        mailboxes.drop_sender(self.mailbox);
        let_go_of(messages)
    }
}

/// The receivers added to a set get different ids, in ascending order.
pub proof fn law_ids_ascend(set: SubReceiverSetView, later: SubReceiverSetView)
    requires
        forall|id: u64| #[trigger] set.rxs.contains_key(id) ==> id < set.next_id,
        later.next_id == set.next_id + 1,
        later.rxs.dom() == set.rxs.dom().insert(set.next_id),
    ensures
        !set.rxs.contains_key(set.next_id),
        forall|id: u64| #[trigger] later.rxs.contains_key(id) ==> id < later.next_id,
{
    assert forall|id: u64| #[trigger] later.rxs.contains_key(id) implies id < later.next_id by {
        assert(later.rxs.dom().contains(id));
        if id != set.next_id {
            assert(set.rxs.contains_key(id));
        }
    }
}

/// What can happen to a set of receivers.
pub enum SetStep {
    /// A receiver is added.
    Added { receiver: SelectableSubChannelReceiver },
    /// The events that the given messages in the mailbox of the set stand for
    /// are collected.
    Selected { messages: Seq<ResolvedMessageOrDisconnect> },
}

/// What becomes of a set when nothing fails.
pub open spec fn set_step(
    before: SubReceiverSetView,
    step: SetStep,
    after: SubReceiverSetView,
) -> bool {
    match step {
        SetStep::Added { receiver } => {
            &&& before.next_id < u64::MAX
            &&& after.next_id == before.next_id + 1
            &&& after.rxs == before.rxs.insert(before.next_id, receiver)
            &&& after.ids == before.ids.insert(receiver.sub_channel_id.0, before.next_id)
        },
        SetStep::Selected { messages } => {
            let collection = collected(before, messages);
            &&& collection.error is None
            &&& after.next_id == before.next_id
            &&& after.rxs == collection.rxs
            &&& after.ids == collection.ids
        },
    }
}

/// A series of steps, with the set before, between and after.
pub open spec fn set_history(sets: Seq<SubReceiverSetView>, steps: Seq<SetStep>) -> bool {
    &&& sets.len() == steps.len() + 1
    &&& forall|i: int|
        #![trigger steps[i]]
        0 <= i < steps.len() ==> set_step(sets[i], steps[i], sets[i + 1])
}

/// All that was taken from the mailbox of a set.
pub open spec fn all_taken(steps: Seq<SetStep>) -> Seq<ResolvedMessageOrDisconnect>
    decreases steps.len(),
{
    if steps.len() == 0 {
        Seq::empty()
    } else {
        all_taken(steps.drop_last()) + match steps.last() {
            SetStep::Added { .. } => Seq::empty(),
            SetStep::Selected { messages } => messages,
        }
    }
}

/// All events that were reported.
pub open spec fn all_reported(sets: Seq<SubReceiverSetView>, steps: Seq<SetStep>) -> Seq<
    SubSelectionResult,
>
    decreases steps.len(),
{
    if steps.len() == 0 {
        Seq::empty()
    } else {
        all_reported(sets, steps.drop_last()) + match steps.last() {
            SetStep::Added { .. } => Seq::empty(),
            SetStep::Selected { messages } => collected(sets[steps.len() - 1], messages).results,
        }
    }
}

/// The id of the receiver that an event belongs to.
pub open spec fn receiver_of(event: SubSelectionResult) -> u64 {
    match event {
        SubSelectionResult::MessageReceived(id, _) => id,
        SubSelectionResult::ChannelClosed(id) => id,
    }
}

/// The subchannel that something in the mailbox of a set belongs to.
pub open spec fn sub_channel_of(message: ResolvedMessageOrDisconnect) -> SubChannelId {
    match message {
        ResolvedMessageOrDisconnect::ResolvedMessage(message) => message.scid,
        ResolvedMessageOrDisconnect::Disconnect(scid) => scid,
    }
}

/// An event stands for something that was in the mailbox of a set.
pub open spec fn stands_for(
    event: SubSelectionResult,
    message: ResolvedMessageOrDisconnect,
) -> bool {
    match message {
        ResolvedMessageOrDisconnect::ResolvedMessage(message) => event
            matches SubSelectionResult::MessageReceived(_, raw) && raw.message == message,
        ResolvedMessageOrDisconnect::Disconnect(_) => event is ChannelClosed,
    }
}

/// The ids in a set are different and have all been given out.
pub open spec fn ids_differ(set: SubReceiverSetView) -> bool {
    &&& forall|a: Uuid, b: Uuid|
        #![trigger set.ids[a], set.ids[b]]
        a != b && set.ids.contains_key(a) && set.ids.contains_key(b) ==> set.ids[a] != set.ids[b]
    &&& forall|a: Uuid|
        #![trigger set.ids[a]]
        set.ids.contains_key(a) ==> set.ids[a] < set.next_id
}

/// An event tells that the receiver with the given id has been closed.
pub open spec fn closes(event: SubSelectionResult, id: u64) -> bool {
    event matches SubSelectionResult::ChannelClosed(closed) && closed == id
}

/// One of the events tells that the receiver with the given id has been closed.
pub open spec fn is_closed(events: Seq<SubSelectionResult>, id: u64) -> bool {
    exists|i: int| 0 <= i < events.len() && closes(#[trigger] events[i], id)
}

/// A receiver is in a set under its id until it is closed, and nobody has that
/// id afterwards.
spec fn follows(set: SubReceiverSetView, scid: SubChannelId, id: u64, closed: bool) -> bool {
    &&& ids_differ(set)
    &&& id < set.next_id
    &&& if closed {
        &&& !set.ids.contains_key(scid.0)
        &&& forall|a: Uuid| #![trigger set.ids[a]] set.ids.contains_key(a) ==> set.ids[a] != id
    } else {
        set.ids.contains_key(scid.0) && set.ids[scid.0] == id
    }
}

/// The events stand for the messages one by one, those of one receiver are
/// reported under its id, and nothing follows the news that it was closed.
spec fn faithful(
    events: Seq<SubSelectionResult>,
    messages: Seq<ResolvedMessageOrDisconnect>,
    scid: SubChannelId,
    id: u64,
) -> bool {
    &&& events.len() == messages.len()
    &&& forall|i: int|
        #![trigger events[i]]
        0 <= i < events.len() ==> {
            &&& stands_for(events[i], messages[i])
            &&& (receiver_of(events[i]) == id <==> sub_channel_of(messages[i]) == scid)
        }
    &&& forall|i: int, j: int|
        #![trigger events[i], events[j]]
        0 <= i < j < events.len() && closes(events[i], id) ==> receiver_of(events[j]) != id
}

proof fn lemma_faithful_push(
    events: Seq<SubSelectionResult>,
    messages: Seq<ResolvedMessageOrDisconnect>,
    event: SubSelectionResult,
    message: ResolvedMessageOrDisconnect,
    scid: SubChannelId,
    id: u64,
)
    requires
        faithful(events, messages, scid, id),
        stands_for(event, message),
        receiver_of(event) == id <==> sub_channel_of(message) == scid,
        is_closed(events, id) ==> receiver_of(event) != id,
    ensures
        faithful(events.push(event), messages.push(message), scid, id),
        is_closed(events.push(event), id) == (is_closed(events, id) || closes(event, id)),
{
    let more = events.push(event);
    assert forall|i: int| #![trigger more[i]] 0 <= i < more.len() implies {
        &&& stands_for(more[i], messages.push(message)[i])
        &&& (receiver_of(more[i]) == id <==> sub_channel_of(messages.push(message)[i]) == scid)
    } by {
        if i < events.len() {
            assert(more[i] == events[i]);
        }
    }
    assert forall|i: int, j: int|
        #![trigger more[i], more[j]]
        0 <= i < j < more.len() && closes(more[i], id) implies receiver_of(more[j]) != id by {
        assert(more[i] == events[i]);
        if j < events.len() {
            assert(more[j] == events[j]);
        }
    }
    if is_closed(events, id) {
        let i = choose|i: int| 0 <= i < events.len() && closes(#[trigger] events[i], id);
        assert(closes(more[i], id));
    }
    if closes(event, id) {
        assert(closes(more[events.len() as int], id));
    }
    if is_closed(more, id) {
        let i = choose|i: int| 0 <= i < more.len() && closes(#[trigger] more[i], id);
        if i < events.len() {
            assert(closes(events[i], id));
        }
    }
}

/// Collects what comes after what has been reported already.
proof fn lemma_collection_is_faithful(
    set: SubReceiverSetView,
    messages: Seq<ResolvedMessageOrDisconnect>,
    reported: Seq<SubSelectionResult>,
    taken: Seq<ResolvedMessageOrDisconnect>,
    scid: SubChannelId,
    id: u64,
)
    requires
        collected(set, messages).error is None,
        faithful(reported, taken, scid, id),
        follows(set, scid, id, is_closed(reported, id)),
    ensures
        ({
            let collection = collected(set, messages);
            let after = SubReceiverSetView {
                rxs: collection.rxs,
                ids: collection.ids,
                ..set
            };
            &&& collection.taken == messages.len()
            &&& faithful(reported + collection.results, taken + messages, scid, id)
            &&& follows(after, scid, id, is_closed(reported + collection.results, id))
        }),
    decreases messages.len(),
{
    let collection = collected(set, messages);
    if messages.len() == 0 {
        assert(reported + collection.results =~= reported);
        assert(taken + messages =~= taken);
    } else {
        let earlier = messages.drop_last();
        let before = collected(set, earlier);
        lemma_collection_is_faithful(set, earlier, reported, taken, scid, id);
        let middle = SubReceiverSetView { rxs: before.rxs, ids: before.ids, ..set };
        let message = messages.last();
        let event = collection.results.last();
        assert(collection.results =~= before.results.push(event));
        assert(reported + collection.results =~= (reported + before.results).push(event));
        assert(taken + messages =~= (taken + earlier).push(message));
        let of = sub_channel_of(message);
        assert(middle.ids.contains_key(of.0));
        assert(receiver_of(event) == middle.ids[of.0]);
        if of != scid && !is_closed(reported + before.results, id) {
            assert(middle.ids[of.0] != middle.ids[scid.0]);
        }
        lemma_faithful_push(
            reported + before.results,
            taken + earlier,
            event,
            message,
            scid,
            id,
        );
    }
}

proof fn lemma_reports_are_faithful(
    sets: Seq<SubReceiverSetView>,
    steps: Seq<SetStep>,
    scid: SubChannelId,
    id: u64,
)
    requires
        set_history(sets, steps),
        ids_differ(sets[0]),
        sets[0].ids.contains_pair(scid.0, id),
        forall|i: int|
            #![trigger steps[i]]
            0 <= i < steps.len() ==> (steps[i] matches SetStep::Added { receiver }
                ==> receiver.sub_channel_id != scid && !sets[i].ids.contains_key(
                receiver.sub_channel_id.0,
            )),
    ensures
        faithful(all_reported(sets, steps), all_taken(steps), scid, id),
        follows(sets.last(), scid, id, is_closed(all_reported(sets, steps), id)),
    decreases steps.len(),
{
    if steps.len() > 0 {
        let earlier = steps.drop_last();
        let earlier_sets = sets.drop_last();
        assert forall|i: int| #![trigger earlier[i]] 0 <= i < earlier.len() implies set_step(
            earlier_sets[i],
            earlier[i],
            earlier_sets[i + 1],
        ) && (earlier[i] matches SetStep::Added { receiver } ==> receiver.sub_channel_id != scid
            && !earlier_sets[i].ids.contains_key(receiver.sub_channel_id.0)) by {
            assert(earlier[i] == steps[i]);
        }
        lemma_reports_are_faithful(earlier_sets, earlier, scid, id);
        lemma_reports_of_prefix(sets, earlier_sets, earlier);
        let n = steps.len() - 1;
        let before = sets[n];
        assert(earlier_sets.last() == before);
        assert(steps[n] == steps.last());
        assert(set_step(before, steps[n], sets[n + 1]));
        let reported = all_reported(sets, earlier);
        match steps.last() {
            SetStep::Added { receiver } => {
                assert(all_reported(sets, steps) =~= reported);
                assert(all_taken(steps) =~= all_taken(earlier));
            },
            SetStep::Selected { messages } => {
                lemma_collection_is_faithful(
                    before,
                    messages,
                    reported,
                    all_taken(earlier),
                    scid,
                    id,
                );
            },
        }
    }
}

proof fn lemma_reports_of_prefix(
    sets: Seq<SubReceiverSetView>,
    others: Seq<SubReceiverSetView>,
    steps: Seq<SetStep>,
)
    requires
        steps.len() <= sets.len(),
        steps.len() <= others.len(),
        forall|i: int| #![trigger sets[i]] 0 <= i < steps.len() ==> sets[i] == others[i],
    ensures
        all_reported(sets, steps) == all_reported(others, steps),
    decreases steps.len(),
{
    if steps.len() > 0 {
        lemma_reports_of_prefix(sets, others, steps.drop_last());
        assert(sets[steps.len() - 1] == others[steps.len() - 1]);
    }
}

/// Over all selects, everything in the mailbox of a set is reported once, in
/// order and as it was. What belongs to one receiver, and nothing else, is
/// reported under the id of that receiver. That the receiver has been closed is
/// reported at most once, and nothing is reported under its id afterwards.
pub proof fn law_events_are_reported_once_in_order(
    sets: Seq<SubReceiverSetView>,
    steps: Seq<SetStep>,
    scid: SubChannelId,
    id: u64,
)
    requires
        set_history(sets, steps),
        ids_differ(sets[0]),
        sets[0].ids.contains_pair(scid.0, id),
        forall|i: int|
            #![trigger steps[i]]
            0 <= i < steps.len() ==> (steps[i] matches SetStep::Added { receiver }
                ==> receiver.sub_channel_id != scid && !sets[i].ids.contains_key(
                receiver.sub_channel_id.0,
            )),
    ensures
        ({
            let events = all_reported(sets, steps);
            let messages = all_taken(steps);
            &&& events.len() == messages.len()
            &&& forall|i: int|
                #![trigger events[i]]
                0 <= i < events.len() ==> {
                    &&& stands_for(events[i], messages[i])
                    &&& (receiver_of(events[i]) == id <==> sub_channel_of(messages[i]) == scid)
                }
            &&& forall|i: int, j: int|
                #![trigger events[i], events[j]]
                0 <= i < j < events.len() && closes(events[i], id) ==> receiver_of(events[j]) != id
        }),
        ids_differ(sets.last()),
        sets.last().ids.contains_key(scid.0) == !is_closed(all_reported(sets, steps), id),
{
    lemma_reports_are_faithful(sets, steps, scid, id);
}

/// A receiver that is added to a set is in it under an id that no other receiver
/// has, which is a step in the history of the set.
pub proof fn law_added_receiver_gets_a_new_id(
    before: (SubReceiverSetView, SelectablesView, MailboxMap),
    receiver: SelectableSubChannelReceiver,
    registered: Option<Result<u64, IpcError>>,
    id: Result<u64, MuxError>,
    after: (SubReceiverSetView, SelectablesView, MailboxMap),
)
    requires
        before.0.next_id < u64::MAX,
        added(before, receiver, registered, id, after),
        id is Ok,
        ids_differ(before.0),
        !before.0.ids.contains_key(receiver.sub_channel_id.0),
    ensures
        set_step(before.0, SetStep::Added { receiver }, after.0),
        after.0.ids.contains_pair(receiver.sub_channel_id.0, id->Ok_0),
        ids_differ(after.0),
        forall|a: Uuid|
            #![trigger before.0.ids[a]]
            before.0.ids.contains_key(a) ==> before.0.ids[a] != id->Ok_0,
{
}

} // verus!
