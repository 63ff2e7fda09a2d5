//! The cache: a bounded map from text keys to text values that evicts the least recently used
//! entry, and that hands out, after every store, the snapshot that is to replace its file.
//!
//! Nothing here touches a file. A cache is made from the text of its file, if there is one, and
//! a store returns a [`SnapshotWrite`]: what to write, and where.

use crate::entry::{entries_view, CacheEntry, EntryView};
use crate::recency::{
    after_put, after_touch, bounded, has_key, keys_distinct, lemma_after_put, lemma_after_touch,
    lemma_rewrite_front, lru_capacity, lru_entries, lru_get, lru_get_mut, lru_iter, lru_new,
    lru_put, value_of,
};
use crate::snapshot::{decode, decoded, encode, encoded, CacheError};
use lru::LruCache;
use vstd::pervasive::unreached;
use vstd::prelude::*;
use vstd::string::StringExecFns;

verus! {

/// What was found where the file of a cache is to be.
#[derive(Debug, Clone, Copy)]
pub enum SnapshotFile<'a> {
    /// There is no such file.
    Missing,
    /// There is a file, and it could not be read.
    Unreadable,
    /// The text of the file.
    Contents(&'a str),
}

/// A snapshot to be written, and where. Whoever carries it out writes `contents` to `temp_path`
/// in full and then renames `temp_path` onto `file_path`, so that a reader of `file_path` sees
/// the old snapshot or the new one and never a part of either.
#[derive(Debug, Clone)]
pub struct SnapshotWrite {
    pub temp_path: String,
    pub file_path: String,
    pub contents: String,
}

/// What a store leaves behind: the value that the key had before, and the snapshot to write,
/// or why none could be made.
#[derive(Debug)]
pub struct Stored {
    pub previous: Option<String>,
    pub write: Result<SnapshotWrite, CacheError>,
}

/// The suffix that turns a file's path into the path of its temporary sibling.
pub open spec fn temp_suffix() -> Seq<char> {
    ".tmp"@
}

/// The entries of a list with room for `capacity` entries after `entries` were stored in it
/// one by one, the first of them first.
pub open spec fn replayed(entries: Seq<EntryView>, capacity: nat) -> Seq<EntryView>
    decreases entries.len(),
{
    if entries.len() == 0 {
        Seq::empty()
    } else {
        after_put(
            replayed(entries.drop_last(), capacity),
            capacity,
            entries.last().0,
            entries.last().1,
        )
    }
}

/// The path of the temporary file that stands in for `path` while a snapshot is written.
pub fn temp_path_for(path: &str) -> (temp: String)
    ensures
        temp@ == path@ + temp_suffix(),
{
    let mut temp = String::from_str(path);
    temp.append(".tmp");
    temp
}

/// A bounded cache with least-recently-used eviction, for one owner.
#[derive(Debug)]
pub struct SyncLruCache {
    cache: LruCache<String, String>,
    file_path: String,
}

impl SyncLruCache {
    /// The entries held, the most recently used first.
    pub closed spec fn entries(&self) -> Seq<EntryView> {
        lru_entries(self.cache)
    }

    /// The number of entries that the cache holds at most.
    pub closed spec fn capacity(&self) -> nat {
        lru_capacity(self.cache)
    }

    /// The path of the file that the snapshots are for.
    pub closed spec fn path(&self) -> Seq<char> {
        self.file_path@
    }

    /// What holds of every cache at all times: it has room for at least one entry, holds at
    /// most as many as its capacity, and no key twice.
    pub open spec fn wf(&self) -> bool {
        bounded(self.entries(), self.capacity())
    }

    #[verifier::type_invariant]
    spec fn within_bounds(&self) -> bool {
        bounded(lru_entries(self.cache), lru_capacity(self.cache))
    }

    /// A cache for the file at `file_path` that holds at most `size` entries, made from what
    /// was found there. With no file the cache starts empty. The entries of a snapshot are
    /// stored one by one in the order of the text, so that of more than `size` entries the
    /// last `size` stay. A file that could not be read gives [`CacheError::Unreadable`], a
    /// text that is not a snapshot [`CacheError::Decode`]; in neither case is a cache made.
    pub fn new(size: usize, file_path: String, found: SnapshotFile) -> (made: Result<
        SyncLruCache,
        CacheError,
    >)
        requires
            size > 0,
        ensures
            match made {
                Ok(cache) => {
                    &&& cache.wf()
                    &&& cache.capacity() == size
                    &&& cache.path() == file_path@
                    &&& match found {
                        SnapshotFile::Missing => cache.entries() == Seq::<EntryView>::empty(),
                        SnapshotFile::Unreadable => false,
                        SnapshotFile::Contents(text) => decoded(text@).is_some()
                            && cache.entries() == replayed(decoded(text@).unwrap(), size as nat),
                    }
                },
                Err(e) => match found {
                    SnapshotFile::Missing => false,
                    SnapshotFile::Unreadable => e == CacheError::Unreadable,
                    SnapshotFile::Contents(text) => e == CacheError::Decode && decoded(
                        text@,
                    ).is_none(),
                },
            },
    {
        let mut cache = match lru_new(size) {
            Some(list) => list,
            None => unreached(),
        };
        match found {
            SnapshotFile::Missing => {},
            SnapshotFile::Unreadable => {
                return Err(CacheError::Unreadable);
            },
            SnapshotFile::Contents(text) => {
                let entries = match decode(text) {
                    Ok(entries) => entries,
                    Err(e) => {
                        return Err(e);
                    },
                };
                let ghost all = entries_view(entries@);
                let mut i: usize = 0;
                while i < entries.len()
                    invariant
                        i <= entries.len(),
                        all == entries_view(entries@),
                        size > 0,
                        lru_capacity(cache) == size,
                        lru_entries(cache) == replayed(all.take(i as int), size as nat),
                        bounded(lru_entries(cache), size as nat),
                    decreases entries.len() - i,
                {
                    proof {
                        assert(all.take(i + 1).drop_last() == all.take(i as int));
                        assert(all.take(i + 1).last() == entries[i as int]@);
                        lemma_after_put(
                            lru_entries(cache),
                            size as nat,
                            entries[i as int].key@,
                            entries[i as int].value@,
                        );
                    }
                    lru_put(&mut cache, entries[i].key.clone(), entries[i].value.clone());
                    i += 1;
                }
                assert(all.take(i as int) == all);
            },
        }
        Ok(SyncLruCache { cache, file_path })
    }

    /// The path of the file that the snapshots are for.
    pub fn file_path(&self) -> (path: &str)
        ensures
            path@ == self.path(),
    {
        self.file_path.as_str()
    }

    /// Stores `value` under `key` as the most recently used entry and hands back the value
    /// that the key had before, if any. A new key in a full cache first evicts the least
    /// recently used entry. With it comes the snapshot of the cache as it now is, to be
    /// written; where none could be made, the entry is stored all the same.
    pub fn put(&mut self, key: String, value: String) -> (stored: Stored)
        ensures
            old(self).wf(),
            final(self).wf(),
            final(self).capacity() == old(self).capacity(),
            final(self).path() == old(self).path(),
            final(self).entries() == after_put(
                old(self).entries(),
                old(self).capacity(),
                key@,
                value@,
            ),
            match stored.previous {
                Some(text) => value_of(old(self).entries(), key@) == Some(text@),
                None => !has_key(old(self).entries(), key@),
            },
            match stored.write {
                Ok(write) => {
                    &&& write.file_path@ == final(self).path()
                    &&& write.temp_path@ == final(self).path() + temp_suffix()
                    &&& encoded(final(self).entries()) == Some(write.contents@)
                    &&& decoded(write.contents@) == Some(final(self).entries())
                    &&& keys_distinct(decoded(write.contents@).unwrap())
                },
                Err(e) => e == CacheError::Encode && encoded(final(self).entries()).is_none(),
            },
    {
        proof {
            use_type_invariant(&*self);
            lemma_after_put(lru_entries(self.cache), lru_capacity(self.cache), key@, value@);
        }
        let previous = lru_put(&mut self.cache, key, value);
        let write = self.sync_to_file();
        Stored { previous, write }
    }

    /// A copy of the value stored under `key`, if any. A hit makes the entry the most recently
    /// used one; nothing else changes, and no snapshot is due.
    pub fn get(&mut self, key: &str) -> (found: Option<String>)
        ensures
            old(self).wf(),
            final(self).wf(),
            final(self).capacity() == old(self).capacity(),
            final(self).path() == old(self).path(),
            final(self).entries() == after_touch(old(self).entries(), key@),
            match found {
                Some(text) => value_of(old(self).entries(), key@) == Some(text@),
                None => !has_key(old(self).entries(), key@),
            },
    {
        proof {
            use_type_invariant(&*self);
            lemma_after_touch(lru_entries(self.cache), lru_capacity(self.cache), key@);
        }
        lru_get(&mut self.cache, key)
    }

    /// The value stored under `key`, if any, handed out for writing. A hit makes the entry the
    /// most recently used one, and the entry ends with whatever the caller leaves in the
    /// value. No snapshot is made: what is on file stays behind until the next store or the
    /// next call of [`SyncLruCache::sync_to_file`].
    pub fn get_mut(&mut self, key: &str) -> (found: Option<&mut String>)
        ensures
            old(self).wf(),
            final(self).wf(),
            final(self).capacity() == old(self).capacity(),
            final(self).path() == old(self).path(),
            match found {
                Some(slot) => {
                    &&& value_of(old(self).entries(), key@) == Some((*slot)@)
                    &&& final(self).entries() == after_touch(old(self).entries(), key@).update(
                        0,
                        (key@, (*final(slot))@),
                    )
                },
                None => {
                    &&& !has_key(old(self).entries(), key@)
                    &&& final(self).entries() == old(self).entries()
                },
            },
    {
        proof {
            use_type_invariant(&*self);
            lemma_after_touch(lru_entries(self.cache), lru_capacity(self.cache), key@);
            assert forall|value: Seq<char>|
                has_key(lru_entries(self.cache), key@) implies bounded(
                #[trigger] after_touch(lru_entries(self.cache), key@).update(0, (key@, value)),
                lru_capacity(self.cache),
            ) by {
                lemma_rewrite_front(after_touch(lru_entries(self.cache), key@), value);
            }
        }
        lru_get_mut(&mut self.cache, key)
    }

    /// A copy of every entry, the most recently used first. Nothing counts as touched.
    pub fn entries_vec(&self) -> (entries: Vec<CacheEntry>)
        ensures
            self.wf(),
            entries_view(entries@) == self.entries(),
    {
        proof {
            use_type_invariant(self);
        }
        lru_iter(&self.cache)
    }

    /// The snapshot of the cache as it is: every entry, the most recently used first, and the
    /// paths to write it by.
    pub fn sync_to_file(&self) -> (write: Result<SnapshotWrite, CacheError>)
        ensures
            self.wf(),
            match write {
                Ok(write) => {
                    &&& write.file_path@ == self.path()
                    &&& write.temp_path@ == self.path() + temp_suffix()
                    &&& encoded(self.entries()) == Some(write.contents@)
                    &&& decoded(write.contents@) == Some(self.entries())
                    &&& keys_distinct(decoded(write.contents@).unwrap())
                },
                Err(e) => e == CacheError::Encode && encoded(self.entries()).is_none(),
            },
    {
        proof {
            use_type_invariant(self);
        }
        let temp_path = temp_path_for(self.file_path.as_str());
        let entries = lru_iter(&self.cache);
        match encode(&entries) {
            Ok(contents) => Ok(
                SnapshotWrite { temp_path, file_path: self.file_path.clone(), contents },
            ),
            Err(e) => Err(e),
        }
    }
}

} // verus!
