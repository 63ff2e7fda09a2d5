//! A cache entry, and how contracts see one.

use vstd::prelude::*;

verus! {

/// An entry as contracts see it: its key and its value, each as a sequence of characters.
pub type EntryView = (Seq<char>, Seq<char>);

/// One entry of a cache: a key and the value stored under it.
#[derive(Debug, Clone)]
pub struct CacheEntry {
    pub key: String,
    pub value: String,
}

impl View for CacheEntry {
    type V = EntryView;

    open spec fn view(&self) -> EntryView {
        (self.key@, self.value@)
    }
}

/// The views of a list of entries.
pub open spec fn entries_view(entries: Seq<CacheEntry>) -> Seq<EntryView> {
    Seq::new(entries.len(), |i: int| entries[i]@)
}

} // verus!
