//! Values that travel beside a message rather than in its bytes.
//!
//! While a message is encoded, each such value is captured and the message gets
//! only its index. The captured values are sent along with the bytes, and on
//! arrival each index in the message claims the value it stands for.

use crate::mux::text::{decimal, decimal_text, join};
use vstd::prelude::*;

verus! {

/// The values captured while a message is encoded.
pub struct Captured<H> {
    items: Vec<H>,
}

impl<H> View for Captured<H> {
    type V = Seq<H>;

    closed spec fn view(&self) -> Seq<H> {
        self.items@
    }
}

impl<H> Captured<H> {
    pub fn new() -> (captured: Captured<H>)
        ensures
            captured@ == Seq::<H>::empty(),
    {
        Captured { items: Vec::new() }
    }

    /// Captures a value and returns the index that stands for it.
    pub fn capture(&mut self, item: H) -> (index: usize)
        ensures
            index == old(self)@.len(),
            final(self)@ == old(self)@.push(item),
    {
        let index: usize = self.items.len();
        self.items.push(item);
        index
    }

    /// Forgets all captured values.
    pub fn clear(&mut self)
        ensures
            final(self)@ == Seq::<H>::empty(),
    {
        self.items.clear();
    }

    /// Takes all captured values out, in the order in which they were captured.
    pub fn take(&mut self) -> (items: Vec<H>)
        ensures
            items@ == old(self)@,
            final(self)@ == Seq::<H>::empty(),
    {
        let mut items: Vec<H> = Vec::new();
        std::mem::swap(&mut items, &mut self.items);
        items
    }
}

/// The values that arrived with a message, each to be claimed once.
pub struct Arrived<H> {
    slots: Vec<Option<H>>,
}

impl<H> View for Arrived<H> {
    type V = Seq<Option<H>>;

    closed spec fn view(&self) -> Seq<Option<H>> {
        self.slots@
    }
}

/// The slots of values that have all still to be claimed.
pub open spec fn unclaimed<H>(items: Seq<H>) -> Seq<Option<H>> {
    items.map_values(|item: H| Some(item))
}

/// Whether the value with the given index is still there.
pub open spec fn available<H>(slots: Seq<Option<H>>, index: int) -> bool {
    0 <= index < slots.len() && slots[index] is Some
}

/// The reason why a value cannot be claimed.
pub open spec fn unavailable_text(
    what: Seq<char>,
    index: nat,
    count: nat,
    plural: Seq<char>,
) -> Seq<char> {
    what + " "@ + decimal(index) + " not available (have "@ + decimal(count) + " "@ + plural + ")"@
}

fn unavailable(what: &str, index: usize, count: usize, plural: &str) -> (text: String)
    ensures
        text@ == unavailable_text(what@, index as nat, count as nat, plural@),
{
    let index_text = decimal_text(index);
    let count_text = decimal_text(count);
    let text = join(what, " ");
    let text = join(text.as_str(), index_text.as_str());
    let text = join(text.as_str(), " not available (have ");
    let text = join(text.as_str(), count_text.as_str());
    let text = join(text.as_str(), " ");
    let text = join(text.as_str(), plural);
    join(text.as_str(), ")")
}

impl<H> Arrived<H> {
    pub fn new() -> (arrived: Arrived<H>)
        ensures
            arrived@ == Seq::<Option<H>>::empty(),
    {
        Arrived { slots: Vec::new() }
    }

    /// Sets the values that have arrived.
    pub fn set(&mut self, items: Vec<H>)
        ensures
            final(self)@ == unclaimed(items@),
    {
        let mut slots: Vec<Option<H>> = Vec::new();
        for item in it: items
            invariant
                it.seq() == items@,
                slots@ == unclaimed(items@.take(it.index() as int)),
        {
            slots.push(Some(item));
            proof {
                assert(items@.take(it.index() + 1) =~= items@.take(it.index() as int).push(item));
                assert(slots@ =~= unclaimed(items@.take(it.index() + 1)));
            }
        }
        proof {
            assert(items@.take(items@.len() as int) =~= items@);
        }
        self.slots = slots;
    }

    /// Forgets all values that have arrived.
    pub fn clear(&mut self)
        ensures
            final(self)@ == Seq::<Option<H>>::empty(),
    {
        self.slots.clear();
    }

    /// Claims the value that the index stands for. What the values are called
    /// is used in the reason for a failure.
    pub fn claim(&mut self, index: usize, what: &str, plural: &str) -> (claimed: Result<H, String>)
        ensures
            (match claimed {
                Ok(item) => {
                    &&& available(old(self)@, index as int)
                    &&& old(self)@[index as int] == Some(item)
                    &&& final(self)@ == old(self)@.update(index as int, None)
                },
                Err(reason) => {
                    &&& !available(old(self)@, index as int)
                    &&& reason@ == unavailable_text(
                        what@,
                        index as nat,
                        old(self)@.len(),
                        plural@,
                    )
                    &&& final(self)@ == old(self)@
                },
            }),
    {
        if index < self.slots.len() {
            let mut slot: Option<H> = None;
            self.slots.set_and_swap(index, &mut slot);
            proof {
                assert(slot is None ==> self.slots@ =~= old(self).slots@);
            }
            match slot {
                Some(item) => Ok(item),
                None => Err(unavailable(what, index, self.slots.len(), plural)),
            }
        } else {
            Err(unavailable(what, index, self.slots.len(), plural))
        }
    }
}

/// What was captured as the `n`-th value is what its index claims on arrival,
/// once.
pub proof fn law_claim_returns_what_was_captured<H>(before: Seq<H>, item: H, after: Seq<H>)
    ensures
        ({
            let slots = unclaimed(before.push(item) + after);
            let index = before.len() as int;
            &&& available(slots, index)
            &&& slots[index] == Some(item)
            &&& !available(slots.update(index, None), index)
        }),
{
}

/// Claiming a value leaves every other value to be claimed.
pub proof fn law_claims_are_independent<H>(slots: Seq<Option<H>>, index: int, other: int)
    requires
        available(slots, index),
        index != other,
    ensures
        available(slots.update(index, None), other) == available(slots, other),
        available(slots, other) ==> slots.update(index, None)[other] == slots[other],
{
}

} // verus!
