//! What holds of a cache after any sequence of lookups and stores: the capacity bound, the
//! order of the entries, which entry an eviction takes, and what a cache made from a snapshot
//! holds.

use crate::cache::replayed;
use crate::entry::EntryView;
use crate::snapshot::decoded;
use crate::recency::{
    after_put, after_touch, bounded, has_key, key_index, keys_distinct, lemma_after_put,
    lemma_after_touch, lemma_key_index, lemma_push_front, lemma_remove, lemma_rewrite_front,
    value_of,
};
use vstd::prelude::*;

verus! {

/// One call on a cache, as far as its entries are concerned.
pub enum Access {
    /// `get`: a lookup of `key`.
    Lookup { key: Seq<char> },
    /// `put`: `value` is stored under `key`.
    Store { key: Seq<char>, value: Seq<char> },
    /// `get_mut`: a lookup of `key` after which the caller leaves `value` in the entry found.
    Rewrite { key: Seq<char>, value: Seq<char> },
}

/// The key that a call names.
pub open spec fn key_of(access: Access) -> Seq<char> {
    match access {
        Access::Lookup { key } => key,
        Access::Store { key, .. } => key,
        Access::Rewrite { key, .. } => key,
    }
}

/// The entries after one call.
pub open spec fn after_access(entries: Seq<EntryView>, capacity: nat, access: Access) -> Seq<
    EntryView,
> {
    match access {
        Access::Lookup { key } => after_touch(entries, key),
        Access::Store { key, value } => after_put(entries, capacity, key, value),
        Access::Rewrite { key, value } => if has_key(entries, key) {
            after_touch(entries, key).update(0, (key, value))
        } else {
            entries
        },
    }
}

/// The entries of a cache with room for `capacity` entries that started empty and saw the calls
/// `accesses`, the first of them first.
pub open spec fn after_all(accesses: Seq<Access>, capacity: nat) -> Seq<EntryView>
    decreases accesses.len(),
{
    if accesses.len() == 0 {
        Seq::empty()
    } else {
        after_access(after_all(accesses.drop_last(), capacity), capacity, accesses.last())
    }
}

/// When `key` was last touched: the place in `accesses` of the last call that names it, or -1
/// where none does.
pub open spec fn last_touch(accesses: Seq<Access>, key: Seq<char>) -> int
    decreases accesses.len(),
{
    if accesses.len() == 0 {
        -1
    } else if key_of(accesses.last()) == key {
        accesses.len() - 1
    } else {
        last_touch(accesses.drop_last(), key)
    }
}

/// Every entry's key was touched, and an entry stands before another exactly when its key
/// was touched later.
pub open spec fn in_touch_order(accesses: Seq<Access>, entries: Seq<EntryView>) -> bool {
    &&& forall|i: int|
        0 <= i < entries.len() ==> last_touch(accesses, (#[trigger] entries[i]).0) >= 0
    &&& forall|i: int, j: int|
        0 <= i < j < entries.len() ==> last_touch(accesses, (#[trigger] entries[i]).0)
            > last_touch(accesses, (#[trigger] entries[j]).0)
}

/// A last touch is a place in the sequence of calls, or -1.
proof fn lemma_last_touch_range(accesses: Seq<Access>, key: Seq<char>)
    ensures
        -1 <= last_touch(accesses, key) < accesses.len(),
    decreases accesses.len(),
{
    if accesses.len() > 0 && key_of(accesses.last()) != key {
        lemma_last_touch_range(accesses.drop_last(), key);
    }
}

/// Entries in the order of their last touch stay so when one of them is taken out.
proof fn lemma_order_remove(accesses: Seq<Access>, entries: Seq<EntryView>, i: int)
    requires
        in_touch_order(accesses, entries),
        0 <= i < entries.len(),
    ensures
        in_touch_order(accesses, entries.remove(i)),
{
    let rest = entries.remove(i);
    assert forall|a: int| 0 <= a < rest.len() implies last_touch(
        accesses,
        (#[trigger] rest[a]).0,
    ) >= 0 by {
        let a0 = if a < i { a } else { a + 1 };
        assert(rest[a] == entries[a0]);
    }
    assert forall|a: int, b: int| 0 <= a < b < rest.len() implies last_touch(
        accesses,
        (#[trigger] rest[a]).0,
    ) > last_touch(accesses, (#[trigger] rest[b]).0) by {
        let a0 = if a < i { a } else { a + 1 };
        let b0 = if b < i { b } else { b + 1 };
        assert(rest[a] == entries[a0]);
        assert(rest[b] == entries[b0]);
    }
}

/// Entries in the order of their last touch stay so when the entry that the latest call names
/// is put in front of them.
proof fn lemma_order_push(
    accesses: Seq<Access>,
    rest: Seq<EntryView>,
    front: EntryView,
)
    requires
        accesses.len() > 0,
        in_touch_order(accesses.drop_last(), rest),
        front.0 == key_of(accesses.last()),
        !has_key(rest, front.0),
    ensures
        in_touch_order(accesses, seq![front] + rest),
{
    let grown = seq![front] + rest;
    assert(grown[0] == front);
    assert forall|a: int| 0 < a < grown.len() implies last_touch(
        accesses,
        (#[trigger] grown[a]).0,
    ) == last_touch(accesses.drop_last(), rest[a - 1].0) && grown[a] == rest[a - 1] by {
        assert(grown[a] == rest[a - 1]);
        assert(rest[a - 1].0 != front.0);
    }
    assert forall|a: int| 0 <= a < grown.len() implies last_touch(
        accesses,
        (#[trigger] grown[a]).0,
    ) >= 0 by {
        if a > 0 {
            assert(grown[a] == rest[a - 1]);
        }
    }
    assert forall|a: int, b: int| 0 <= a < b < grown.len() implies last_touch(
        accesses,
        (#[trigger] grown[a]).0,
    ) > last_touch(accesses, (#[trigger] grown[b]).0) by {
        assert(grown[b] == rest[b - 1]);
        lemma_last_touch_range(accesses.drop_last(), rest[b - 1].0);
        if a > 0 {
            assert(grown[a] == rest[a - 1]);
        }
    }
}

/// Entries in the order of their last touch stay so after a call that names none of them.
proof fn lemma_order_keeps(accesses: Seq<Access>, entries: Seq<EntryView>)
    requires
        accesses.len() > 0,
        in_touch_order(accesses.drop_last(), entries),
        !has_key(entries, key_of(accesses.last())),
    ensures
        in_touch_order(accesses, entries),
{
    assert forall|a: int| 0 <= a < entries.len() implies last_touch(
        accesses,
        (#[trigger] entries[a]).0,
    ) == last_touch(accesses.drop_last(), entries[a].0) by {}
}

/// After any sequence of calls the entries are within bounds and in the order of their last
/// touch.
proof fn lemma_history(accesses: Seq<Access>, capacity: nat)
    requires
        capacity > 0,
    ensures
        bounded(after_all(accesses, capacity), capacity),
        in_touch_order(accesses, after_all(accesses, capacity)),
    decreases accesses.len(),
{
    if accesses.len() > 0 {
        let earlier = accesses.drop_last();
        let before = after_all(earlier, capacity);
        lemma_history(earlier, capacity);
        let key = key_of(accesses.last());
        if has_key(before, key) {
            let i = key_index(before, key);
            lemma_remove(before, i);
            lemma_order_remove(earlier, before, i);
            lemma_after_touch(before, capacity, key);
            match accesses.last() {
                Access::Lookup { key } => {
                    lemma_order_push(accesses, before.remove(i), before[i]);
                },
                Access::Store { key, value } => {
                    lemma_after_put(before, capacity, key, value);
                    lemma_order_push(accesses, before.remove(i), (key, value));
                },
                Access::Rewrite { key, value } => {
                    let touched = after_touch(before, key);
                    lemma_rewrite_front(touched, value);
                    assert(touched.update(0, (key, value)) =~= seq![(key, value)]
                        + before.remove(i));
                    lemma_order_push(accesses, before.remove(i), (key, value));
                },
            }
        } else {
            match accesses.last() {
                Access::Store { key, value } => {
                    lemma_after_put(before, capacity, key, value);
                    if before.len() == capacity {
                        let last = before.len() - 1;
                        assert(before.drop_last() == before.remove(last));
                        lemma_order_remove(earlier, before, last);
                        lemma_remove(before, last);
                        if has_key(before.drop_last(), key) {
                            let j = key_index(before.drop_last(), key);
                            assert(before.drop_last()[j] == before[j]);
                        }
                        lemma_order_push(accesses, before.drop_last(), (key, value));
                    } else {
                        lemma_order_push(accesses, before, (key, value));
                    }
                },
                _ => {
                    lemma_order_keeps(accesses, before);
                },
            }
        }
    }
}

/// However a cache is used, it never holds more entries than its capacity, and no key twice.
pub proof fn law_capacity_bound(accesses: Seq<Access>, capacity: nat)
    requires
        capacity > 0,
    ensures
        after_all(accesses, capacity).len() <= capacity,
        keys_distinct(after_all(accesses, capacity)),
{
    lemma_history(accesses, capacity);
}

/// However a cache is used, its entries stand in the order of their last touch, the latest
/// first, where a lookup, a store and a lookup for writing all count as a touch.
pub proof fn law_touch_order(accesses: Seq<Access>, capacity: nat)
    requires
        capacity > 0,
    ensures
        in_touch_order(accesses, after_all(accesses, capacity)),
{
    lemma_history(accesses, capacity);
}

/// Storing a new key in a full cache evicts exactly one entry, and it is the one whose key was
/// touched least recently: every entry that stays was touched later than the one that leaves.
pub proof fn law_eviction_takes_least_recent(
    accesses: Seq<Access>,
    capacity: nat,
    key: Seq<char>,
    value: Seq<char>,
)
    requires
        capacity > 0,
        !has_key(after_all(accesses, capacity), key),
        after_all(accesses, capacity).len() == capacity,
    ensures
        ({
            let before = after_all(accesses, capacity);
            let after = after_put(before, capacity, key, value);
            let victim = before.last();
            &&& after == seq![(key, value)] + before.drop_last()
            &&& after.len() == capacity
            &&& !has_key(after, victim.0)
            &&& forall|i: int|
                0 <= i < before.len() - 1 ==> {
                    &&& value_of(after, (#[trigger] before[i]).0) == Some(before[i].1)
                    &&& last_touch(accesses, before[i].0) > last_touch(accesses, victim.0)
                }
        }),
{
    let before = after_all(accesses, capacity);
    let after = after_put(before, capacity, key, value);
    let last = before.len() - 1;
    lemma_history(accesses, capacity);
    lemma_after_put(before, capacity, key, value);
    lemma_key_index(before, last);
    assert(before.drop_last() == before.remove(last));
    lemma_remove(before, last);
    if has_key(before.drop_last(), key) {
        let j = key_index(before.drop_last(), key);
        assert(before.drop_last()[j] == before[j]);
    }
    lemma_push_front(before.drop_last(), key, value);
    assert(before[last].0 != key);
    assert forall|i: int| 0 <= i < before.len() - 1 implies value_of(
        after,
        (#[trigger] before[i]).0,
    ) == Some(before[i].1) by {
        lemma_key_index(before, i);
        assert(before[i].0 != key);
        assert(before[i].0 != before[last].0);
    }
}

/// With distinct keys, a list answers every key as its reverse does.
proof fn lemma_reverse(entries: Seq<EntryView>)
    requires
        keys_distinct(entries),
    ensures
        keys_distinct(entries.reverse()),
        forall|k: Seq<char>| value_of(entries.reverse(), k) == value_of(entries, k),
{
    let turned = entries.reverse();
    let n = entries.len() as int;
    assert forall|a: int, b: int| 0 <= a < b < turned.len() implies (#[trigger] turned[a]).0 != (
    #[trigger] turned[b]).0 by {
        assert(turned[a] == entries[n - 1 - a]);
        assert(turned[b] == entries[n - 1 - b]);
    }
    assert forall|k: Seq<char>| value_of(turned, k) == value_of(entries, k) by {
        if has_key(entries, k) {
            let j = key_index(entries, k);
            assert(turned[n - 1 - j] == entries[j]);
            lemma_key_index(turned, n - 1 - j);
            lemma_key_index(entries, j);
        } else if has_key(turned, k) {
            let j = key_index(turned, k);
            assert(turned[j] == entries[n - 1 - j]);
            assert(entries[n - 1 - j].0 == k);
        }
    }
}

/// A cache made from a snapshot whose entries have distinct keys and fit into it holds every
/// one of these entries with its value, and nothing else: the last entry of the snapshot has
/// become the most recently used one.
pub proof fn law_replay_keeps_all(entries: Seq<EntryView>, capacity: nat)
    requires
        keys_distinct(entries),
        entries.len() <= capacity,
    ensures
        replayed(entries, capacity) == entries.reverse(),
        forall|k: Seq<char>| value_of(replayed(entries, capacity), k) == value_of(entries, k),
    decreases entries.len(),
{
    if entries.len() > 0 {
        let earlier = entries.drop_last();
        let last = entries.len() - 1;
        law_replay_keeps_all(earlier, capacity);
        lemma_reverse(earlier);
        assert(earlier == entries.remove(last));
        lemma_remove(entries, last);
        assert(!has_key(earlier.reverse(), entries.last().0)) by {
            assert(value_of(earlier.reverse(), entries.last().0) == value_of(
                earlier,
                entries.last().0,
            ));
        }
        assert(seq![entries.last()] + earlier.reverse() =~= entries.reverse());
        assert(entries.last() == (entries.last().0, entries.last().1));
    } else {
        assert(entries.reverse() =~= Seq::<EntryView>::empty());
    }
    lemma_reverse(entries);
}

/// What a cache writes, a cache reads back: where `text` is a snapshot of `entries`, which have
/// distinct keys and fit into the capacity, the cache made from `text` answers every key as
/// `entries` does, so that it holds each of them with its value and no other key.
pub proof fn law_round_trip(entries: Seq<EntryView>, text: Seq<char>, capacity: nat)
    requires
        keys_distinct(entries),
        entries.len() <= capacity,
        decoded(text) == Some(entries),
    ensures
        decoded(text).is_some(),
        forall|k: Seq<char>|
            value_of(replayed(decoded(text).unwrap(), capacity), k) == value_of(entries, k),
{
    law_replay_keeps_all(entries, capacity);
}

/// Of a snapshot whose entries have distinct keys, a cache made from it keeps the last
/// `capacity` entries, or all where there are fewer, the last of them as the most recently
/// used one.
pub proof fn law_replay_keeps_last(entries: Seq<EntryView>, capacity: nat)
    requires
        capacity > 0,
        keys_distinct(entries),
    ensures
        replayed(entries, capacity) == entries.skip(
            if entries.len() > capacity {
                entries.len() - capacity
            } else {
                0
            },
        ).reverse(),
    decreases entries.len(),
{
    let n = entries.len() as int;
    let from = if n > capacity { n - capacity } else { 0 };
    if n > 0 {
        let earlier = entries.drop_last();
        let from_earlier = if n - 1 > capacity { n - 1 - capacity } else { 0 };
        law_replay_keeps_last(earlier, capacity);
        let kept = earlier.skip(from_earlier);
        let held = kept.reverse();
        assert(held == replayed(earlier, capacity));
        assert(!has_key(held, entries.last().0)) by {
            if has_key(held, entries.last().0) {
                let j = key_index(held, entries.last().0);
                assert(held[j] == kept[kept.len() - 1 - j]);
                assert(kept[kept.len() - 1 - j] == entries[from_earlier + kept.len() - 1 - j]);
            }
        }
        assert(entries.last() == (entries.last().0, entries.last().1));
        if held.len() == capacity {
            assert(seq![entries.last()] + held.drop_last() =~= entries.skip(from).reverse());
        } else {
            assert(seq![entries.last()] + held =~= entries.skip(from).reverse());
        }
    } else {
        assert(entries.skip(from).reverse() =~= Seq::<EntryView>::empty());
    }
}

/// A cache made from a snapshot with more entries than fit keeps within its capacity all the
/// same, whatever the snapshot holds.
pub proof fn law_replay_is_bounded(entries: Seq<EntryView>, capacity: nat)
    requires
        capacity > 0,
    ensures
        bounded(replayed(entries, capacity), capacity),
    decreases entries.len(),
{
    if entries.len() > 0 {
        law_replay_is_bounded(entries.drop_last(), capacity);
        lemma_after_put(
            replayed(entries.drop_last(), capacity),
            capacity,
            entries.last().0,
            entries.last().1,
        );
    }
}

} // verus!
