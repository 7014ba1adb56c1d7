//! Bags, which may hold an item several times.

use hashbag::HashBag;
use vstd::multiset::Multiset;
use vstd::prelude::*;

verus! {

/// `hashbag::HashBag`, a collection that may hold an item several times.
#[verifier::external_type_specification]
#[verifier::external_body]
#[verifier::reject_recursive_types(T)]
#[verifier::reject_recursive_types(S)]
pub struct ExHashBag<T, S>(HashBag<T, S>);

/// The name of what a bag holds, each item with the number of its occurrences.
pub uninterp spec fn bag_contents(bag: HashBag<u128>) -> Multiset<u128>;

/// `HashBag::new`: a bag that holds nothing.
#[verifier::external_body]
pub(crate) fn bag_new() -> (bag: HashBag<u128>)
    ensures
        bag_contents(bag) == Multiset::<u128>::empty(),
{
    HashBag::new()
}

/// `HashBag::insert`: one more occurrence of the item. The bag counts its items
/// in a `usize`, which must have room for one more.
#[verifier::external_body]
pub(crate) fn bag_insert(bag: &mut HashBag<u128>, item: u128)
    requires
        bag_contents(*old(bag)).len() < usize::MAX,
    ensures
        bag_contents(*final(bag)) == bag_contents(*old(bag)).insert(item),
{
    bag.insert(item);
}

/// `HashBag::remove`: one occurrence less of the item, if there is one. Returns
/// how often the item occurred before.
#[verifier::external_body]
pub(crate) fn bag_remove(bag: &mut HashBag<u128>, item: u128) -> (count: usize)
    ensures
        bag_contents(*final(bag)) == bag_contents(*old(bag)).remove(item),
        count == bag_contents(*old(bag)).count(item),
{
    bag.remove(&item)
}

/// `HashBag::remove_up_to`: `quantity` occurrences less of the item, or all of
/// them if there are no more than that.
#[verifier::external_body]
pub(crate) fn bag_remove_up_to(bag: &mut HashBag<u128>, item: u128, quantity: usize)
    ensures
        bag_contents(*final(bag)) == bag_contents(*old(bag)).update(
            item,
            if bag_contents(*old(bag)).count(item) <= quantity {
                0
            } else {
                (bag_contents(*old(bag)).count(item) - quantity) as nat
            },
        ),
{
    bag.remove_up_to(&item, quantity);
}

/// `HashBag::is_empty`: whether the bag holds nothing.
#[verifier::external_body]
pub(crate) fn bag_is_empty(bag: &HashBag<u128>) -> (empty: bool)
    ensures
        empty == (bag_contents(*bag).len() == 0),
{
    bag.is_empty()
}

/// `HashBag::len`: the number of items, each as often as it occurs.
#[verifier::external_body]
pub(crate) fn bag_len(bag: &HashBag<u128>) -> (len: usize)
    ensures
        len == bag_contents(*bag).len(),
{
    bag.len()
}

/// `HashBag::iter`: every item as often as it occurs, in no particular order.
#[verifier::external_body]
pub(crate) fn bag_items(bag: &HashBag<u128>) -> (items: Vec<u128>)
    ensures
        items@.to_multiset() == bag_contents(*bag),
{
    bag.iter().copied().collect()
}

/// The name of what a bag of pairs holds, each item with the number of its occurrences.
pub uninterp spec fn pair_bag_contents(bag: HashBag<(u128, u128)>) -> Multiset<(u128, u128)>;

/// `HashBag::new`: a bag that holds nothing.
#[verifier::external_body]
pub(crate) fn pair_bag_new() -> (bag: HashBag<(u128, u128)>)
    ensures
        (pair_bag_contents(bag) == Multiset::<(u128, u128)>::empty()),
{
    HashBag::new()
}

/// `HashBag::insert`: one more occurrence of the item. The bag counts its items
/// in a `usize`, which must have room for one more.
#[verifier::external_body]
pub(crate) fn pair_bag_insert(bag: &mut HashBag<(u128, u128)>, item: (u128, u128))
    requires
        pair_bag_contents(*old(bag)).len() < usize::MAX,
    ensures
        pair_bag_contents(*final(bag)) == pair_bag_contents(*old(bag)).insert(item),
{
    bag.insert(item);
}

/// `HashBag::remove`: one occurrence less of the item, if there is one. Returns
/// how often the item occurred before.
#[verifier::external_body]
pub(crate) fn pair_bag_remove(bag: &mut HashBag<(u128, u128)>, item: (u128, u128)) -> (count: usize)
    ensures
        pair_bag_contents(*final(bag)) == pair_bag_contents(*old(bag)).remove(item),
        count == pair_bag_contents(*old(bag)).count(item),
{
    bag.remove(&item)
}

/// `HashBag::remove_up_to`: `quantity` occurrences less of the item, or all of
/// them if there are no more than that.
#[verifier::external_body]
pub(crate) fn pair_bag_remove_up_to(bag: &mut HashBag<(u128, u128)>, item: (u128, u128), quantity: usize)
    ensures
        pair_bag_contents(*final(bag)) == pair_bag_contents(*old(bag)).update(
            item,
            if pair_bag_contents(*old(bag)).count(item) <= quantity {
                0
            } else {
                (pair_bag_contents(*old(bag)).count(item) - quantity) as nat
            },
        ),
{
    bag.remove_up_to(&item, quantity);
}

/// `HashBag::is_empty`: whether the bag holds nothing.
#[verifier::external_body]
pub(crate) fn pair_bag_is_empty(bag: &HashBag<(u128, u128)>) -> (empty: bool)
    ensures
        empty == (pair_bag_contents(*bag).len() == 0),
{
    bag.is_empty()
}

/// `HashBag::len`: the number of items, each as often as it occurs.
#[verifier::external_body]
pub(crate) fn pair_bag_len(bag: &HashBag<(u128, u128)>) -> (len: usize)
    ensures
        len == pair_bag_contents(*bag).len(),
{
    bag.len()
}

/// `HashBag::iter`: every item as often as it occurs, in no particular order.
#[verifier::external_body]
pub(crate) fn pair_bag_items(bag: &HashBag<(u128, u128)>) -> (items: Vec<(u128, u128)>)
    ensures
        items@.to_multiset() == pair_bag_contents(*bag),
{
    bag.iter().copied().collect()
}

} // verus!
