//! The dialog that picks the order of the list of buckets.

use vstd::prelude::*;

verus! {

/// The orders in which the list of buckets can be shown.
#[derive(Debug, Clone, Copy, PartialEq, Eq, Structural)]
pub enum BucketListSortType {
    /// The order in which the buckets were given.
    Default,
    /// By name, from the first in the order of texts to the last.
    NameAsc,
    /// By name, from the last to the first.
    NameDesc,
}

impl BucketListSortType {
    /// The order that follows this one in the dialog; after the last comes the first.
    pub open spec fn following(self) -> BucketListSortType {
        match self {
            BucketListSortType::Default => BucketListSortType::NameAsc,
            BucketListSortType::NameAsc => BucketListSortType::NameDesc,
            BucketListSortType::NameDesc => BucketListSortType::Default,
        }
    }

    /// The order that precedes this one in the dialog; before the first comes the last.
    pub open spec fn preceding(self) -> BucketListSortType {
        match self {
            BucketListSortType::Default => BucketListSortType::NameDesc,
            BucketListSortType::NameAsc => BucketListSortType::Default,
            BucketListSortType::NameDesc => BucketListSortType::NameAsc,
        }
    }

    pub fn next(&self) -> (after: BucketListSortType)
        ensures
            after == self.following(),
    {
        match self {
            BucketListSortType::Default => BucketListSortType::NameAsc,
            BucketListSortType::NameAsc => BucketListSortType::NameDesc,
            BucketListSortType::NameDesc => BucketListSortType::Default,
        }
    }

    pub fn prev(&self) -> (before: BucketListSortType)
        ensures
            before == self.preceding(),
    {
        match self {
            BucketListSortType::Default => BucketListSortType::NameDesc,
            BucketListSortType::NameAsc => BucketListSortType::Default,
            BucketListSortType::NameDesc => BucketListSortType::NameAsc,
        }
    }

    /// The label of the order in the dialog.
    pub fn str(&self) -> (label: &'static str)
        ensures
            label@ == match *self {
                BucketListSortType::Default => "Default"@,
                BucketListSortType::NameAsc => "Name (Asc)"@,
                BucketListSortType::NameDesc => "Name (Desc)"@,
            },
    {
        match self {
            BucketListSortType::Default => "Default",
            BucketListSortType::NameAsc => "Name (Asc)",
            BucketListSortType::NameDesc => "Name (Desc)",
        }
    }
}

/// Going on and then back, or back and then on, ends where it started.
pub proof fn law_sort_types_go_round(sort: BucketListSortType)
    ensures
        sort.following().preceding() == sort,
        sort.preceding().following() == sort,
        sort.following().following().following() == sort,
{
}

/// Which order the dialog has its mark on.
#[derive(Debug, Clone, Copy, PartialEq, Eq, Structural)]
pub struct BucketListSortDialogState {
    selected: BucketListSortType,
}

impl Default for BucketListSortDialogState {
    fn default() -> (state: BucketListSortDialogState)
        ensures
            state.chosen() == BucketListSortType::Default,
    {
        BucketListSortDialogState { selected: BucketListSortType::Default }
    }
}

impl BucketListSortDialogState {
    /// The order that the mark is on.
    pub closed spec fn chosen(self) -> BucketListSortType {
        self.selected
    }

    pub fn select_next(&mut self)
        ensures
            final(self).chosen() == old(self).chosen().following(),
    {
        self.selected = self.selected.next();
    }

    pub fn select_prev(&mut self)
        ensures
            final(self).chosen() == old(self).chosen().preceding(),
    {
        self.selected = self.selected.prev();
    }

    /// Puts the mark back on the first order.
    pub fn reset(&mut self)
        ensures
            final(self).chosen() == BucketListSortType::Default,
    {
        self.selected = BucketListSortType::Default;
    }

    pub fn selected(&self) -> (sort: BucketListSortType)
        ensures
            sort == self.chosen(),
    {
        self.selected
    }
}

} // verus!
