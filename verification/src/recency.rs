//! The recency list that the cache keeps its entries in: `lru::LruCache` with text keys and text
//! values, and what each of its operations does to the entries it holds.
//!
//! The list itself is not verified here. Its contents are given a name, [`lru_entries`], and the
//! functions at the end of this file state over that name what each operation of the list does.
//! Everything else in this file is proved.

use crate::entry::{entries_view, CacheEntry, EntryView};
use lru::LruCache;
use vstd::prelude::*;

verus! {

/// `lru::LruCache`, of which nothing is known here but what the functions at the end of this
/// file state.
#[verifier::external_type_specification]
#[verifier::external_body]
#[verifier::reject_recursive_types(K)]
#[verifier::reject_recursive_types(V)]
#[verifier::reject_recursive_types(S)]
pub struct ExLruCache<K, V, S>(LruCache<K, V, S>);

/// `lru::DefaultHasher`, the hasher that an `LruCache` has unless it is given another. It
/// is named here because it is part of the list's type; nothing is stated of it.
#[verifier::external_type_specification]
#[verifier::external_body]
pub struct ExDefaultHasher(lru::DefaultHasher);

/// The entries that a recency list holds, the most recently used first.
pub uninterp spec fn lru_entries(list: LruCache<String, String>) -> Seq<EntryView>;

/// The number of entries that a recency list was made to hold at most.
pub uninterp spec fn lru_capacity(list: LruCache<String, String>) -> nat;

/// Some entry of `entries` has the key `key`.
pub open spec fn has_key(entries: Seq<EntryView>, key: Seq<char>) -> bool {
    exists|i: int| 0 <= i < entries.len() && (#[trigger] entries[i]).0 == key
}

/// The place of an entry with the key `key`, where there is one.
pub open spec fn key_index(entries: Seq<EntryView>, key: Seq<char>) -> int {
    choose|i: int| 0 <= i < entries.len() && (#[trigger] entries[i]).0 == key
}

/// The value stored under `key`, if any.
pub open spec fn value_of(entries: Seq<EntryView>, key: Seq<char>) -> Option<Seq<char>> {
    if has_key(entries, key) {
        Some(entries[key_index(entries, key)].1)
    } else {
        None
    }
}

/// No key occurs twice.
pub open spec fn keys_distinct(entries: Seq<EntryView>) -> bool {
    forall|i: int, j: int|
        0 <= i < j < entries.len() ==> (#[trigger] entries[i]).0 != (#[trigger] entries[j]).0
}

/// The entries after a lookup of `key`: a hit moves the entry to the front, a miss changes
/// nothing.
pub open spec fn after_touch(entries: Seq<EntryView>, key: Seq<char>) -> Seq<EntryView> {
    if has_key(entries, key) {
        let i = key_index(entries, key);
        seq![entries[i]] + entries.remove(i)
    } else {
        entries
    }
}

/// The entries after `value` was stored under `key` in a list that holds at most `capacity`
/// entries. The new entry stands at the front. An entry with the same key is replaced; failing
/// that, a full list first drops its last entry, the least recently used.
pub open spec fn after_put(
    entries: Seq<EntryView>,
    capacity: nat,
    key: Seq<char>,
    value: Seq<char>,
) -> Seq<EntryView> {
    if has_key(entries, key) {
        seq![(key, value)] + entries.remove(key_index(entries, key))
    } else if entries.len() == capacity {
        seq![(key, value)] + entries.drop_last()
    } else {
        seq![(key, value)] + entries
    }
}

/// What every recency list satisfies that was made with a positive capacity and changed only by
/// lookups and stores: no key twice, and never more entries than the capacity.
pub open spec fn bounded(entries: Seq<EntryView>, capacity: nat) -> bool {
    &&& capacity > 0
    &&& entries.len() <= capacity
    &&& keys_distinct(entries)
}

/// With distinct keys, an entry's key is found at the entry's own place.
pub proof fn lemma_key_index(entries: Seq<EntryView>, i: int)
    requires
        keys_distinct(entries),
        0 <= i < entries.len(),
    ensures
        has_key(entries, entries[i].0),
        key_index(entries, entries[i].0) == i,
        value_of(entries, entries[i].0) == Some(entries[i].1),
{
    let j = key_index(entries, entries[i].0);
    assert(0 <= j < entries.len() && entries[j].0 == entries[i].0);
    if j < i {
        assert(entries[j].0 != entries[i].0);
    } else if i < j {
        assert(entries[i].0 != entries[j].0);
    }
}

/// Removing one entry from a list with distinct keys leaves the keys distinct, takes that
/// entry's key out and keeps every other key with its value.
pub proof fn lemma_remove(entries: Seq<EntryView>, i: int)
    requires
        keys_distinct(entries),
        0 <= i < entries.len(),
    ensures
        keys_distinct(entries.remove(i)),
        !has_key(entries.remove(i), entries[i].0),
        forall|k: Seq<char>|
            k != entries[i].0 ==> value_of(entries.remove(i), k) == value_of(entries, k),
{
    let rest = entries.remove(i);
    assert forall|a: int, b: int| 0 <= a < b < rest.len() implies (#[trigger] rest[a]).0 != (
    #[trigger] rest[b]).0 by {
        let a0 = if a < i { a } else { a + 1 };
        let b0 = if b < i { b } else { b + 1 };
        assert(rest[a] == entries[a0]);
        assert(rest[b] == entries[b0]);
    }
    if has_key(rest, entries[i].0) {
        let j = key_index(rest, entries[i].0);
        let j0 = if j < i { j } else { j + 1 };
        assert(rest[j] == entries[j0]);
        lemma_key_index(entries, i);
        lemma_key_index(entries, j0);
    }
    assert forall|k: Seq<char>| k != entries[i].0 implies value_of(rest, k) == value_of(
        entries,
        k,
    ) by {
        if has_key(entries, k) {
            let j0 = key_index(entries, k);
            let j = if j0 < i { j0 } else { j0 - 1 };
            assert(rest[j] == entries[j0]);
            lemma_key_index(rest, j);
        } else if has_key(rest, k) {
            let j = key_index(rest, k);
            let j0 = if j < i { j } else { j + 1 };
            assert(rest[j] == entries[j0]);
            assert(entries[j0].0 == k);
        }
    }
}

/// Putting an entry with a key that the list does not hold in front of it keeps the keys
/// distinct, makes that key answer with the new value and leaves every other key as it was.
pub proof fn lemma_push_front(entries: Seq<EntryView>, key: Seq<char>, value: Seq<char>)
    requires
        keys_distinct(entries),
        !has_key(entries, key),
    ensures
        keys_distinct(seq![(key, value)] + entries),
        value_of(seq![(key, value)] + entries, key) == Some(value),
        forall|k: Seq<char>|
            k != key ==> value_of(seq![(key, value)] + entries, k) == value_of(entries, k),
{
    let grown = seq![(key, value)] + entries;
    assert(grown[0] == (key, value));
    assert forall|a: int| 0 < a < grown.len() implies #[trigger] grown[a] == entries[a - 1] by {}
    assert forall|a: int, b: int| 0 <= a < b < grown.len() implies (#[trigger] grown[a]).0 != (
    #[trigger] grown[b]).0 by {
        assert(grown[b] == entries[b - 1]);
        if a > 0 {
            assert(grown[a] == entries[a - 1]);
        }
    }
    lemma_key_index(grown, 0);
    assert forall|k: Seq<char>| k != key implies value_of(grown, k) == value_of(entries, k) by {
        if has_key(entries, k) {
            let j = key_index(entries, k);
            assert(grown[j + 1] == entries[j]);
            lemma_key_index(grown, j + 1);
        } else if has_key(grown, k) {
            let j = key_index(grown, k);
            assert(j > 0);
            assert(grown[j] == entries[j - 1]);
            assert(entries[j - 1].0 == k);
        }
    }
}

/// A lookup keeps a list within its bounds, and changes no key's value.
pub proof fn lemma_after_touch(entries: Seq<EntryView>, capacity: nat, key: Seq<char>)
    requires
        bounded(entries, capacity),
    ensures
        bounded(after_touch(entries, key), capacity),
        after_touch(entries, key).len() == entries.len(),
        forall|k: Seq<char>| value_of(after_touch(entries, key), k) == value_of(entries, k),
        has_key(entries, key) ==> after_touch(entries, key)[0] == (
            key,
            value_of(entries, key).unwrap(),
        ),
{
    if has_key(entries, key) {
        let i = key_index(entries, key);
        lemma_key_index(entries, i);
        lemma_remove(entries, i);
        lemma_push_front(entries.remove(i), key, entries[i].1);
        assert(entries[i] == (key, entries[i].1));
        assert forall|k: Seq<char>| value_of(after_touch(entries, key), k) == value_of(
            entries,
            k,
        ) by {}
    }
}

/// Writing another value into the first entry keeps the keys distinct, makes the first key
/// answer with that value and leaves every other key as it was.
pub proof fn lemma_rewrite_front(entries: Seq<EntryView>, value: Seq<char>)
    requires
        keys_distinct(entries),
        entries.len() > 0,
    ensures
        keys_distinct(entries.update(0, (entries[0].0, value))),
        value_of(entries.update(0, (entries[0].0, value)), entries[0].0) == Some(value),
        forall|k: Seq<char>|
            k != entries[0].0 ==> value_of(entries.update(0, (entries[0].0, value)), k)
                == value_of(entries, k),
{
    let changed = entries.update(0, (entries[0].0, value));
    assert forall|a: int, b: int| 0 <= a < b < changed.len() implies (#[trigger] changed[a]).0 != (
    #[trigger] changed[b]).0 by {
        assert(changed[b] == entries[b]);
        assert(changed[a].0 == entries[a].0);
    }
    lemma_key_index(changed, 0);
    assert forall|k: Seq<char>| k != entries[0].0 implies value_of(changed, k) == value_of(
        entries,
        k,
    ) by {
        if has_key(entries, k) {
            let j = key_index(entries, k);
            assert(changed[j] == entries[j]);
            lemma_key_index(changed, j);
        } else if has_key(changed, k) {
            let j = key_index(changed, k);
            assert(changed[j].0 == entries[j].0);
        }
    }
}

/// A store keeps a list within its bounds; afterwards the stored key answers with the stored
/// value, and every other key that is still held answers as before.
pub proof fn lemma_after_put(
    entries: Seq<EntryView>,
    capacity: nat,
    key: Seq<char>,
    value: Seq<char>,
)
    requires
        bounded(entries, capacity),
    ensures
        bounded(after_put(entries, capacity, key, value), capacity),
        after_put(entries, capacity, key, value)[0] == (key, value),
        value_of(after_put(entries, capacity, key, value), key) == Some(value),
        forall|k: Seq<char>|
            k != key && has_key(after_put(entries, capacity, key, value), k) ==> value_of(
                after_put(entries, capacity, key, value),
                k,
            ) == value_of(entries, k),
{
    if has_key(entries, key) {
        let i = key_index(entries, key);
        lemma_remove(entries, i);
        lemma_push_front(entries.remove(i), key, value);
    } else if entries.len() == capacity {
        let last = entries.len() - 1;
        assert(entries.drop_last() == entries.remove(last));
        lemma_remove(entries, last);
        if has_key(entries.drop_last(), key) {
            let j = key_index(entries.drop_last(), key);
            assert(entries.drop_last()[j] == entries[j]);
        }
        lemma_push_front(entries.drop_last(), key, value);
        assert forall|k: Seq<char>|
            k != key && has_key(
                after_put(entries, capacity, key, value),
                k,
            ) implies value_of(after_put(entries, capacity, key, value), k) == value_of(
            entries,
            k,
        ) by {
            if k == entries[last].0 {
                let grown = seq![(key, value)] + entries.drop_last();
                let j = key_index(grown, k);
                assert(j > 0);
                assert(grown[j] == entries.drop_last()[j - 1]);
                assert(entries.drop_last()[j - 1].0 == k);
            }
        }
    } else {
        lemma_push_front(entries, key, value);
    }
}

/// `LruCache::new`: an empty list that holds at most `capacity` entries. There is none for
/// the capacity 0, which `NonZeroUsize` does not hold.
#[verifier::external_body]
pub(crate) fn lru_new(capacity: usize) -> (made: Option<LruCache<String, String>>)
    ensures
        match made {
            Some(list) => {
                &&& capacity > 0
                &&& lru_entries(list) == Seq::<EntryView>::empty()
                &&& lru_capacity(list) == capacity
            },
            None => capacity == 0,
        },
{
    std::num::NonZeroUsize::new(capacity).map(LruCache::new)
}

/// `LruCache::iter`, with a copy made of each entry: the entries, the most recently used first.
#[verifier::external_body]
pub(crate) fn lru_iter(list: &LruCache<String, String>) -> (entries: Vec<CacheEntry>)
    ensures
        entries_view(entries@) == lru_entries(*list),
{
    list.iter().map(|(k, v)| CacheEntry { key: k.clone(), value: v.clone() }).collect()
}

/// `LruCache::put`: stores `value` under `key` as the most recently used entry. A value that
/// the key had before is handed back; where the key is new and the list is full, the least
/// recently used entry is dropped. The call does not unwind.
#[verifier::external_body]
pub(crate) fn lru_put(list: &mut LruCache<String, String>, key: String, value: String) -> (previous:
    Option<String>)
    ensures
        lru_capacity(*final(list)) == lru_capacity(*old(list)),
        lru_entries(*final(list)) == after_put(
            lru_entries(*old(list)),
            lru_capacity(*old(list)),
            key@,
            value@,
        ),
        match previous {
            Some(text) => value_of(lru_entries(*old(list)), key@) == Some(text@),
            None => value_of(lru_entries(*old(list)), key@).is_none(),
        },
    no_unwind
{
    list.put(key, value)
}

/// `LruCache::get`, with a copy made of the value found: a hit moves the entry to the front of
/// the list, a miss changes nothing. The call does not unwind.
#[verifier::external_body]
pub(crate) fn lru_get(list: &mut LruCache<String, String>, key: &str) -> (found: Option<String>)
    ensures
        lru_capacity(*final(list)) == lru_capacity(*old(list)),
        lru_entries(*final(list)) == after_touch(lru_entries(*old(list)), key@),
        match found {
            Some(text) => value_of(lru_entries(*old(list)), key@) == Some(text@),
            None => value_of(lru_entries(*old(list)), key@).is_none(),
        },
    no_unwind
{
    list.get(key).cloned()
}

/// `LruCache::get_mut`: a hit moves the entry to the front of the list and hands out its value
/// for writing, so that the entry ends with whatever the caller leaves there; a miss changes
/// nothing. The call does not unwind.
#[verifier::external_body]
pub(crate) fn lru_get_mut<'a>(list: &'a mut LruCache<String, String>, key: &str) -> (found: Option<
    &'a mut String,
>)
    ensures
        lru_capacity(*final(list)) == lru_capacity(*old(list)),
        match found {
            Some(slot) => {
                &&& value_of(lru_entries(*old(list)), key@) == Some((*slot)@)
                &&& lru_entries(*final(list)) == after_touch(
                    lru_entries(*old(list)),
                    key@,
                ).update(0, (key@, (*final(slot))@))
            },
            None => {
                &&& value_of(lru_entries(*old(list)), key@).is_none()
                &&& lru_entries(*final(list)) == lru_entries(*old(list))
            },
        },
    no_unwind
{
    list.get_mut(key)
}

} // verus!
