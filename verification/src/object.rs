//! The objects that the pages show.

use vstd::prelude::*;

verus! {

/// A bucket, as the list of buckets shows it.
#[derive(Debug, Clone)]
pub struct BucketItem {
    pub name: String,
}

impl View for BucketItem {
    type V = Seq<char>;

    open spec fn view(&self) -> Seq<char> {
        self.name@
    }
}

} // verus!
