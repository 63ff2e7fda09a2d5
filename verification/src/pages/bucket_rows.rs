//! The rows of the list of buckets as they are to be drawn.

use crate::object::BucketItem;
use crate::pages::bucket_order::{names, passes};
use crate::text::{cut_at_first, occurs};
use crate::util::split_str;
use vstd::prelude::*;

verus! {

/// One row of the list as it is to be drawn: the name of a bucket, cut in three where a
/// filter is set so that the part in the middle can be highlighted.
#[derive(Debug, Clone, Copy)]
pub struct ListRow<'a> {
    pub before: &'a str,
    pub highlighted: &'a str,
    pub after: &'a str,
    pub selected: bool,
}

impl<'a> ListRow<'a> {
    /// The row shows `name` with the first place where `filter` stands in it highlighted, and
    /// is marked as selected or not as `selected` says. With no filter nothing is highlighted
    /// and the whole name stands in `after`.
    pub open spec fn shows(self, name: Seq<char>, filter: Seq<char>, selected: bool) -> bool {
        &&& self.selected == selected
        &&& self.highlighted@ == filter
        &&& cut_at_first(name, filter, self.before@, self.after@)
    }
}

/// The number of rows drawn in an area of the height `height`, which has a border above and
/// one below: that many buckets from the place `offset` on, or as many as there are.
pub open spec fn rows_drawn(shown: int, offset: int, height: int) -> int {
    if offset >= shown {
        0
    } else if shown - offset < height - 2 {
        shown - offset
    } else {
        height - 2
    }
}

/// The rows to draw in an area of the height `height`: the buckets at the places
/// `view_indices` from the place `offset` on, as many as fit between the two borders, the one
/// at the place `selected` marked.
pub fn build_list_items<'a>(
    current_items: &'a [BucketItem],
    view_indices: &'a [usize],
    filter: &'a str,
    offset: usize,
    selected: usize,
    height: u16,
) -> (rows: Vec<ListRow<'a>>)
    requires
        height >= 2,
        forall|k: int|
            offset <= k < offset + rows_drawn(
                view_indices@.len() as int,
                offset as int,
                height as int,
            ) ==> passes(names(current_items@), filter@, (#[trigger] view_indices[k]) as int),
    ensures
        rows.len() == rows_drawn(view_indices@.len() as int, offset as int, height as int),
        forall|k: int|
            0 <= k < rows.len() ==> (#[trigger] rows[k]).shows(
                current_items[view_indices[offset + k] as int].name@,
                filter@,
                offset + k == selected,
            ),
{
    let show_item_count: usize = (height - 2) as usize;
    let mut rows: Vec<ListRow<'a>> = Vec::new();
    let mut idx: usize = 0;
    while idx < show_item_count && offset < view_indices.len() && idx < view_indices.len() - offset
        invariant
            show_item_count == height - 2,
            idx <= show_item_count,
            offset < view_indices.len() ==> idx <= view_indices.len() - offset,
            offset >= view_indices.len() ==> idx == 0,
            rows.len() == idx,
            forall|k: int|
                offset <= k < offset + rows_drawn(
                    view_indices@.len() as int,
                    offset as int,
                    height as int,
                ) ==> passes(names(current_items@), filter@, (#[trigger] view_indices[k]) as int),
            forall|k: int|
                0 <= k < idx ==> (#[trigger] rows[k]).shows(
                    current_items[view_indices[offset + k] as int].name@,
                    filter@,
                    offset + k == selected,
                ),
        decreases show_item_count - idx,
    {
        let place = view_indices[idx + offset];
        assert(passes(names(current_items@), filter@, view_indices[idx + offset] as int));
        let item = &current_items[place];
        let row = build_list_item(item.name.as_str(), idx + offset == selected, filter);
        rows.push(row);
        idx += 1;
    }
    rows
}

/// The row for the bucket called `name`.
pub fn build_list_item<'a>(name: &'a str, selected: bool, filter: &'a str) -> (row: ListRow<'a>)
    requires
        occurs(name@, filter@),
    ensures
        row.shows(name@, filter@, selected),
{
    if filter.is_empty() {
        proof {
            reveal_strlit("");
            assert(name@ =~= ""@ + filter@ + name@);
        }
        ListRow { before: "", highlighted: filter, after: name, selected }
    } else {
        match split_str(name, filter) {
            Some((before, highlighted, after)) => ListRow { before, highlighted, after, selected },
            None => ListRow { before: "", highlighted: filter, after: name, selected },
        }
    }
}

} // verus!
