//! Queues of messages within the process.
//!
//! A mailbox connects those who sort incoming messages with the one who
//! receives them: what was put in first is taken out first, the receiver finds
//! out when the last sender is gone, and a sender finds out when the receiver
//! is gone.

use std::collections::{HashMap, VecDeque};
use vstd::prelude::*;

verus! {

broadcast use vstd::std_specs::hash::group_hash_axioms;

/// Identifies a mailbox.
pub type MailboxId = u64;

/// Why nothing could be taken out of a mailbox.
#[derive(Clone, Copy, PartialEq, Eq, Structural, Debug)]
pub enum MailboxError {
    /// Nothing is in the mailbox now.
    Empty,
    /// Nothing is in the mailbox and nothing will ever be.
    Disconnected,
}

/// What a mailbox holds and who is connected to it.
#[verifier::ext_equal]
pub struct MailboxView<M> {
    pub messages: Seq<M>,
    pub senders: nat,
    pub receiving: bool,
}

impl<M> MailboxView<M> {
    /// A mailbox with one sender and a receiver.
    pub open spec fn opened() -> Self {
        MailboxView { messages: Seq::empty(), senders: 1, receiving: true }
    }
}

struct Mailbox<M> {
    messages: VecDeque<M>,
    senders: usize,
    receiving: bool,
}

impl<M> Mailbox<M> {
    spec fn state(self) -> MailboxView<M> {
        MailboxView {
            messages: self.messages@,
            senders: self.senders as nat,
            receiving: self.receiving,
        }
    }
}

/// The mailboxes of a process.
pub struct Mailboxes<M> {
    boxes: HashMap<MailboxId, Mailbox<M>>,
    next: MailboxId,
}

impl<M> View for Mailboxes<M> {
    type V = Map<MailboxId, MailboxView<M>>;

    closed spec fn view(&self) -> Map<MailboxId, MailboxView<M>> {
        self.boxes@.map_values(|mailbox: Mailbox<M>| mailbox.state())
    }
}

/// The mailboxes after one of them has changed: one that nobody is connected to
/// is gone.
pub open spec fn with_mailbox<M>(
    boxes: Map<MailboxId, MailboxView<M>>,
    id: MailboxId,
    mailbox: MailboxView<M>,
) -> Map<MailboxId, MailboxView<M>> {
    if mailbox.senders == 0 && !mailbox.receiving {
        boxes.remove(id)
    } else {
        boxes.insert(id, mailbox)
    }
}

/// The mailboxes after a message has been sent to one of them.
pub open spec fn delivered<M>(
    boxes: Map<MailboxId, MailboxView<M>>,
    id: MailboxId,
    message: M,
) -> Map<MailboxId, MailboxView<M>> {
    if accepts(boxes, id) {
        boxes.insert(
            id,
            MailboxView { messages: boxes[id].messages.push(message), ..boxes[id] },
        )
    } else {
        boxes
    }
}

/// Whether a message sent to a mailbox will be kept for its receiver.
pub open spec fn accepts<M>(boxes: Map<MailboxId, MailboxView<M>>, id: MailboxId) -> bool {
    boxes.contains_key(id) && boxes[id].receiving
}

/// The mailboxes after one more sender has been given to a mailbox.
pub open spec fn joined_by_sender<M>(
    boxes: Map<MailboxId, MailboxView<M>>,
    id: MailboxId,
) -> Map<MailboxId, MailboxView<M>> {
    if boxes.contains_key(id) {
        boxes.insert(id, MailboxView { senders: boxes[id].senders + 1, ..boxes[id] })
    } else {
        boxes
    }
}

/// The mailboxes after one sender of a mailbox is gone.
pub open spec fn left_by_sender<M>(
    boxes: Map<MailboxId, MailboxView<M>>,
    id: MailboxId,
) -> Map<MailboxId, MailboxView<M>> {
    if boxes.contains_key(id) && boxes[id].senders > 0 {
        with_mailbox(
            boxes,
            id,
            MailboxView { senders: (boxes[id].senders - 1) as nat, ..boxes[id] },
        )
    } else {
        boxes
    }
}

/// The mailboxes after the receiver of a mailbox is gone.
pub open spec fn left_by_receiver<M>(
    boxes: Map<MailboxId, MailboxView<M>>,
    id: MailboxId,
) -> Map<MailboxId, MailboxView<M>> {
    if boxes.contains_key(id) {
        with_mailbox(
            boxes,
            id,
            MailboxView { messages: Seq::empty(), receiving: false, ..boxes[id] },
        )
    } else {
        boxes
    }
}

impl<M> Mailboxes<M> {
    /// No mailbox has an id that has yet to be given to one, and somebody is
    /// connected to each mailbox.
    pub closed spec fn wf(&self) -> bool {
        forall|id: MailboxId| #[trigger]
            self.boxes@.contains_key(id) ==> {
                &&& id < self.next
                &&& self.boxes@[id].senders > 0 || self.boxes@[id].receiving
            }
    }

    /// Somebody is connected to each mailbox.
    pub proof fn lemma_connected(&self, id: MailboxId)
        requires
            self.wf(),
            self@.contains_key(id),
        ensures
            self@[id].senders > 0 || self@[id].receiving,
    {
        assert(self.boxes@.contains_key(id));
    }

    /// All ids have been given to a mailbox.
    pub closed spec fn exhausted(&self) -> bool {
        self.next == MailboxId::MAX
    }

    /// No mailboxes.
    pub fn new() -> (boxes: Mailboxes<M>)
        ensures
            boxes.wf(),
            !boxes.exhausted(),
            boxes@ == Map::<MailboxId, MailboxView<M>>::empty(),
    {
        let boxes = Mailboxes { boxes: HashMap::new(), next: 0 };
        assert(boxes@ =~= Map::<MailboxId, MailboxView<M>>::empty());
        boxes
    }

    /// Whether all ids have been given to a mailbox.
    pub fn is_exhausted(&self) -> (exhausted: bool)
        ensures
            exhausted == self.exhausted(),
    {
        self.next == MailboxId::MAX
    }

    /// Opens a mailbox with one sender and a receiver.
    pub fn open(&mut self) -> (id: MailboxId)
        requires
            old(self).wf(),
            !old(self).exhausted(),
        ensures
            final(self).wf(),
            !old(self)@.contains_key(id),
            final(self)@ == old(self)@.insert(id, MailboxView::<M>::opened()),
    {
        let id: MailboxId = self.next;
        let mailbox = Mailbox { messages: VecDeque::new(), senders: 1, receiving: true };
        let ghost state = mailbox.state();
        self.boxes.insert(id, mailbox);
        self.next = id + 1;
        proof {
            assert(state =~= MailboxView::<M>::opened());
            assert(self@ =~= old(self)@.insert(id, MailboxView::<M>::opened()));
        }
        id
    }

    /// Sends a message to a mailbox, or hands it back if nobody will receive
    /// it.
    pub fn send(&mut self, id: MailboxId, message: M) -> (sent: Result<(), M>)
        requires
            old(self).wf(),
        ensures
            final(self).wf(),
            final(self).exhausted() == old(self).exhausted(),
            final(self)@ == delivered(old(self)@, id, message),
            sent == (if accepts(old(self)@, id) {
                Ok(())
            } else {
                Err::<(), M>(message)
            }),
    {
        match self.boxes.remove(&id) {
            Some(mailbox) => {
                let mut mailbox = mailbox;
                if mailbox.receiving {
                    mailbox.messages.push_back(message);
                    self.boxes.insert(id, mailbox);
                    assert(self@ =~= delivered(old(self)@, id, message));
                    Ok(())
                } else {
                    self.boxes.insert(id, mailbox);
                    assert(self@ =~= old(self)@);
                    Err(message)
                }
            },
            None => {
                assert(self@ =~= old(self)@);
                Err(message)
            },
        }
    }

    /// Takes the first message out of a mailbox.
    pub fn try_recv(&mut self, id: MailboxId) -> (received: Result<M, MailboxError>)
        requires
            old(self).wf(),
        ensures
            final(self).wf(),
            final(self).exhausted() == old(self).exhausted(),
            (match received {
                Ok(message) => {
                    &&& old(self)@.contains_key(id)
                    &&& old(self)@[id].messages.len() > 0
                    &&& message == old(self)@[id].messages[0]
                    &&& final(self)@ == old(self)@.insert(
                        id,
                        MailboxView {
                            messages: old(self)@[id].messages.drop_first(),
                            ..old(self)@[id]
                        },
                    )
                },
                Err(reason) => {
                    &&& old(self)@.contains_key(id) ==> old(self)@[id].messages.len() == 0
                    &&& reason == (if old(self)@.contains_key(id) && old(self)@[id].senders > 0 {
                        MailboxError::Empty
                    } else {
                        MailboxError::Disconnected
                    })
                    &&& final(self)@ == old(self)@
                },
            }),
    {
        match self.boxes.remove(&id) {
            Some(mailbox) => {
                let mut mailbox = mailbox;
                let first = mailbox.messages.pop_front();
                let connected = mailbox.senders > 0;
                self.boxes.insert(id, mailbox);
                match first {
                    Some(message) => {
                        assert(self@ =~= old(self)@.insert(
                            id,
                            MailboxView {
                                messages: old(self)@[id].messages.drop_first(),
                                ..old(self)@[id]
                            },
                        ));
                        Ok(message)
                    },
                    None => {
                        assert(self@ =~= old(self)@);
                        Err(
                            if connected {
                                MailboxError::Empty
                            } else {
                                MailboxError::Disconnected
                            },
                        )
                    },
                }
            },
            None => {
                assert(self@ =~= old(self)@);
                Err(MailboxError::Disconnected)
            },
        }
    }

    /// One more sender for a mailbox. The senders are counted in a `usize`.
    pub fn add_sender(&mut self, id: MailboxId)
        requires
            old(self).wf(),
            old(self)@.contains_key(id) ==> old(self)@[id].senders < usize::MAX,
        ensures
            final(self).wf(),
            final(self).exhausted() == old(self).exhausted(),
            final(self)@ == joined_by_sender(old(self)@, id),
    {
        match self.boxes.remove(&id) {
            Some(mailbox) => {
                let mut mailbox = mailbox;
                mailbox.senders += 1;
                self.boxes.insert(id, mailbox);
                assert(self@ =~= joined_by_sender(old(self)@, id));
            },
            None => {
                assert(self@ =~= old(self)@);
            },
        }
    }

    /// Whether one more sender for a mailbox can be counted.
    pub fn can_add_sender(&self, id: MailboxId) -> (can: bool)
        ensures
            can == (self@.contains_key(id) ==> self@[id].senders < usize::MAX),
    {
        match self.boxes.get(&id) {
            Some(mailbox) => mailbox.senders < usize::MAX,
            None => true,
        }
    }

    /// One sender less for a mailbox.
    pub fn drop_sender(&mut self, id: MailboxId)
        requires
            old(self).wf(),
        ensures
            final(self).wf(),
            final(self).exhausted() == old(self).exhausted(),
            final(self)@ == left_by_sender(old(self)@, id),
    {
        match self.boxes.remove(&id) {
            Some(mailbox) => {
                let mut mailbox = mailbox;
                let ghost before = mailbox.senders;
                if mailbox.senders > 0 {
                    mailbox.senders -= 1;
                    if mailbox.senders > 0 || mailbox.receiving {
                        self.boxes.insert(id, mailbox);
                    }
                } else {
                    self.boxes.insert(id, mailbox);
                }
                assert(self@ =~= left_by_sender(old(self)@, id));
            },
            None => {
                assert(self@ =~= old(self)@);
            },
        }
    }

    /// Closes a mailbox on the receiving side. What was left in it is handed
    /// back.
    pub fn drop_receiver(&mut self, id: MailboxId) -> (left: VecDeque<M>)
        requires
            old(self).wf(),
        ensures
            final(self).wf(),
            final(self).exhausted() == old(self).exhausted(),
            left@ == (if old(self)@.contains_key(id) {
                old(self)@[id].messages
            } else {
                Seq::empty()
            }),
            final(self)@ == left_by_receiver(old(self)@, id),
    {
        match self.boxes.remove(&id) {
            Some(mailbox) => {
                if mailbox.senders > 0 {
                    self.boxes.insert(
                        id,
                        Mailbox {
                            messages: VecDeque::new(),
                            senders: mailbox.senders,
                            receiving: false,
                        },
                    );
                }
                assert(self@ =~= left_by_receiver(old(self)@, id));
                mailbox.messages
            },
            None => {
                assert(self@ =~= old(self)@);
                VecDeque::new()
            },
        }
    }
}

/// Messages come out of a mailbox in the order in which they went in: what is
/// sent while others wait is received after them.
pub proof fn law_first_in_first_out<M>(
    boxes: Map<MailboxId, MailboxView<M>>,
    id: MailboxId,
    message: M,
)
    requires
        accepts(boxes, id),
    ensures
        delivered(boxes, id, message)[id].messages.len() == boxes[id].messages.len() + 1,
        forall|i: int|
            0 <= i < boxes[id].messages.len() ==> #[trigger] delivered(boxes, id, message)[id].messages[i]
                == boxes[id].messages[i],
        delivered(boxes, id, message)[id].messages.last() == message,
        forall|other: MailboxId|
            other != id && boxes.contains_key(other) ==> #[trigger] delivered(
                boxes,
                id,
                message,
            )[other] == boxes[other],
{
}

/// What was sent before the last sender left can still be received.
pub proof fn law_messages_outlive_senders<M>(
    boxes: Map<MailboxId, MailboxView<M>>,
    id: MailboxId,
)
    requires
        accepts(boxes, id),
    ensures
        accepts(left_by_sender(boxes, id), id),
        left_by_sender(boxes, id)[id].messages == boxes[id].messages,
{
}

/// All mailboxes but the given one are as they were.
pub open spec fn others_stay<M>(
    boxes: Map<MailboxId, MailboxView<M>>,
    id: MailboxId,
    boxes_after: Map<MailboxId, MailboxView<M>>,
) -> bool {
    forall|other: MailboxId|
        #![trigger boxes.contains_key(other)]
        #![trigger boxes_after.contains_key(other)]
        other != id ==> {
            &&& boxes_after.contains_key(other) == boxes.contains_key(other)
            &&& boxes.contains_key(other) ==> boxes_after[other] == boxes[other]
        }
}

/// There are no mailboxes at first. One that is opened is new and empty, and has
/// one sender and a receiver.
pub proof fn law_opened_mailbox_is_empty<M>(
    created: Mailboxes<M>,
    mailboxes: &mut Mailboxes<M>,
    id: MailboxId,
    other: MailboxId,
)
    requires
        call_ensures(Mailboxes::<M>::new, (), created),
        call_ensures(Mailboxes::<M>::open, (mailboxes,), id),
    ensures
        !created@.contains_key(other),
        !old(mailboxes)@.contains_key(id),
        final(mailboxes)@.contains_key(id),
        final(mailboxes)@[id].messages.len() == 0,
        final(mailboxes)@[id].senders == 1,
        final(mailboxes)@[id].receiving,
        others_stay(old(mailboxes)@, id, final(mailboxes)@),
{
}

/// A message that is sent to a mailbox is put after all that it holds, if and
/// only if somebody receives from it. Otherwise it is handed back, and nothing
/// changes.
pub proof fn law_sent_message_is_last<M>(
    mailboxes: &mut Mailboxes<M>,
    id: MailboxId,
    message: M,
    sent: Result<(), M>,
)
    requires
        call_ensures(Mailboxes::<M>::send, (mailboxes, id, message), sent),
    ensures
        ({
            let boxes = old(mailboxes)@;
            let after = final(mailboxes)@;
            &&& sent is Ok <==> boxes.contains_key(id) && boxes[id].receiving
            &&& others_stay(boxes, id, after)
            &&& sent is Ok ==> {
                &&& after.contains_key(id)
                &&& after[id].messages.len() == boxes[id].messages.len() + 1
                &&& after[id].messages.last() == message
                &&& forall|k: int|
                    #![trigger after[id].messages[k]]
                    0 <= k < boxes[id].messages.len() ==> after[id].messages[k]
                        == boxes[id].messages[k]
                &&& after[id].senders == boxes[id].senders
                &&& after[id].receiving
            }
            &&& sent matches Err(back) ==> back == message && after == boxes
        }),
{
}

/// What is received from a mailbox is the first message that it holds, which is
/// then gone from it, and all others stay in order. If it holds none, nothing
/// changes, and it is disconnected if nobody sends to it any more.
pub proof fn law_received_message_is_first<M>(
    mailboxes: &mut Mailboxes<M>,
    id: MailboxId,
    received: Result<M, MailboxError>,
)
    requires
        call_ensures(Mailboxes::<M>::try_recv, (mailboxes, id), received),
    ensures
        ({
            let boxes = old(mailboxes)@;
            let after = final(mailboxes)@;
            &&& received is Ok <==> boxes.contains_key(id) && boxes[id].messages.len() > 0
            &&& others_stay(boxes, id, after)
            &&& received matches Ok(message) ==> {
                &&& message == boxes[id].messages[0]
                &&& after.contains_key(id)
                &&& after[id].messages.len() == boxes[id].messages.len() - 1
                &&& forall|k: int|
                    #![trigger after[id].messages[k]]
                    0 <= k < boxes[id].messages.len() - 1 ==> after[id].messages[k]
                        == boxes[id].messages[k + 1]
                &&& after[id].senders == boxes[id].senders
                &&& after[id].receiving == boxes[id].receiving
            }
            &&& received matches Err(reason) ==> {
                &&& after == boxes
                &&& reason is Empty <==> boxes.contains_key(id) && boxes[id].senders > 0
                &&& reason is Disconnected <==> !(boxes.contains_key(id) && boxes[id].senders > 0)
            }
        }),
{
}

/// A mailbox has as many senders as were added and have not gone. With the last
/// sender of a mailbox that nobody receives from, the mailbox is gone. Its
/// messages stay.
pub proof fn law_senders_come_and_go<M>(
    joined: &mut Mailboxes<M>,
    left: &mut Mailboxes<M>,
    id: MailboxId,
    asked: &Mailboxes<M>,
    can: bool,
)
    requires
        call_ensures(Mailboxes::<M>::add_sender, (joined, id), ()),
        call_ensures(Mailboxes::<M>::drop_sender, (left, id), ()),
        call_ensures(Mailboxes::<M>::can_add_sender, (asked, id), can),
    ensures
        others_stay(old(joined)@, id, final(joined)@),
        final(joined)@.contains_key(id) == old(joined)@.contains_key(id),
        old(joined)@.contains_key(id) ==> {
            &&& final(joined)@[id].senders == old(joined)@[id].senders + 1
            &&& final(joined)@[id].messages == old(joined)@[id].messages
            &&& final(joined)@[id].receiving == old(joined)@[id].receiving
        },
        others_stay(old(left)@, id, final(left)@),
        final(left)@.contains_key(id) <==> old(left)@.contains_key(id) && !(old(left)@[id].senders
            == 1 && !old(left)@[id].receiving),
        final(left)@.contains_key(id) ==> {
            &&& old(left)@[id].senders > 0 ==> final(left)@[id].senders == old(left)@[id].senders
                - 1
            &&& old(left)@[id].senders == 0 ==> final(left)@[id].senders == 0
            &&& final(left)@[id].messages == old(left)@[id].messages
            &&& final(left)@[id].receiving == old(left)@[id].receiving
        },
        can <==> !asked@.contains_key(id) || asked@[id].senders < usize::MAX,
{
}

/// When the receiver of a mailbox is gone, all that was left in it is handed
/// back in order, and nobody receives from it any more. It is gone if nobody
/// sends to it.
pub proof fn law_receiver_takes_what_is_left<M>(
    mailboxes: &mut Mailboxes<M>,
    id: MailboxId,
    left: VecDeque<M>,
)
    requires
        call_ensures(Mailboxes::<M>::drop_receiver, (mailboxes, id), left),
    ensures
        ({
            let boxes = old(mailboxes)@;
            let after = final(mailboxes)@;
            &&& others_stay(boxes, id, after)
            &&& boxes.contains_key(id) ==> {
                &&& left@.len() == boxes[id].messages.len()
                &&& forall|k: int|
                    #![trigger left@[k]]
                    0 <= k < left@.len() ==> left@[k] == boxes[id].messages[k]
            }
            &&& !boxes.contains_key(id) ==> left@.len() == 0
            &&& after.contains_key(id) <==> boxes.contains_key(id) && boxes[id].senders > 0
            &&& after.contains_key(id) ==> {
                &&& after[id].messages.len() == 0
                &&& after[id].senders == boxes[id].senders
                &&& !after[id].receiving
            }
        }),
{
}

} // verus!
