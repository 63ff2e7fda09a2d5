//! The order in which buckets are shown: which buckets pass a filter, which of two is shown
//! first, and the one list that holds the passing buckets in order.

use crate::object::BucketItem;
use crate::text::{
    lemma_text_less_asymmetric, lemma_text_less_irreflexive, lemma_text_less_total,
    lemma_text_less_transitive, occurs, str_less, text_less,
};
use crate::widget::BucketListSortType;
use vstd::prelude::*;

verus! {

/// The names of a list of buckets.
pub open spec fn names(items: Seq<BucketItem>) -> Seq<Seq<char>> {
    Seq::new(items.len(), |i: int| items[i].name@)
}

/// The bucket at the place `i` passes the filter: its name holds the filter's text.
pub open spec fn passes(items: Seq<Seq<char>>, filter: Seq<char>, i: int) -> bool {
    0 <= i < items.len() && occurs(items[i], filter)
}

/// In the order `sort`, the bucket at the place `i` is shown before the one at `j`. Buckets
/// of the same name keep the order in which they were given.
pub open spec fn comes_before(
    items: Seq<Seq<char>>,
    sort: BucketListSortType,
    i: int,
    j: int,
) -> bool {
    match sort {
        BucketListSortType::Default => i < j,
        BucketListSortType::NameAsc => text_less(items[i], items[j]) || (items[i] == items[j] && i
            < j),
        BucketListSortType::NameDesc => text_less(items[j], items[i]) || (items[i] == items[j] && i
            < j),
    }
}

/// Every place in `shown` stands before all that follow it in the order `sort`.
pub open spec fn in_order(
    items: Seq<Seq<char>>,
    sort: BucketListSortType,
    shown: Seq<usize>,
) -> bool {
    forall|a: int, b: int|
        0 <= a < b < shown.len() ==> comes_before(
            items,
            sort,
            (#[trigger] shown[a]) as int,
            (#[trigger] shown[b]) as int,
        )
}

/// `shown` holds the places of exactly the buckets that pass the filter.
pub open spec fn holds_the_passing(
    shown: Seq<usize>,
    items: Seq<Seq<char>>,
    filter: Seq<char>,
) -> bool {
    &&& forall|k: int| 0 <= k < shown.len() ==> passes(items, filter, (#[trigger] shown[k]) as int)
    &&& forall|i: int| passes(items, filter, i) ==> #[trigger] shown.contains(i as usize)
}

/// `shown` is the view of `items` under `filter` and `sort`: the places of exactly the buckets
/// that pass the filter, in the order `sort`.
pub open spec fn is_view_of(
    shown: Seq<usize>,
    items: Seq<Seq<char>>,
    filter: Seq<char>,
    sort: BucketListSortType,
) -> bool {
    holds_the_passing(shown, items, filter) && in_order(items, sort, shown)
}

/// No bucket is shown before itself.
pub proof fn lemma_before_irreflexive(items: Seq<Seq<char>>, sort: BucketListSortType, i: int)
    ensures
        !comes_before(items, sort, i, i),
{
    lemma_text_less_irreflexive(items[i]);
}

/// Of two buckets, one is shown before the other.
pub proof fn lemma_before_total(items: Seq<Seq<char>>, sort: BucketListSortType, i: int, j: int)
    requires
        i != j,
    ensures
        comes_before(items, sort, i, j) || comes_before(items, sort, j, i),
{
    lemma_text_less_total(items[i], items[j]);
}

/// Two buckets are never shown before each other.
pub proof fn lemma_before_asymmetric(
    items: Seq<Seq<char>>,
    sort: BucketListSortType,
    i: int,
    j: int,
)
    ensures
        !(comes_before(items, sort, i, j) && comes_before(items, sort, j, i)),
{
    lemma_text_less_asymmetric(items[i], items[j]);
    lemma_text_less_irreflexive(items[i]);
}

/// Being shown before is transitive.
pub proof fn lemma_before_transitive(
    items: Seq<Seq<char>>,
    sort: BucketListSortType,
    i: int,
    j: int,
    k: int,
)
    requires
        comes_before(items, sort, i, j),
        comes_before(items, sort, j, k),
    ensures
        comes_before(items, sort, i, k),
{
    match sort {
        BucketListSortType::Default => {},
        BucketListSortType::NameAsc => {
            if text_less(items[i], items[j]) && text_less(items[j], items[k]) {
                lemma_text_less_transitive(items[i], items[j], items[k]);
            }
        },
        BucketListSortType::NameDesc => {
            if text_less(items[k], items[j]) && text_less(items[j], items[i]) {
                lemma_text_less_transitive(items[k], items[j], items[i]);
            }
        },
    }
}

/// A list in order holds no place twice.
pub proof fn lemma_in_order_no_duplicates(
    items: Seq<Seq<char>>,
    sort: BucketListSortType,
    shown: Seq<usize>,
)
    requires
        in_order(items, sort, shown),
    ensures
        shown.no_duplicates(),
{
    assert forall|a: int, b: int|
        0 <= a < shown.len() && 0 <= b < shown.len() && a != b implies shown[a] != shown[b] by {
        lemma_before_irreflexive(items, sort, shown[a] as int);
        if a < b {
            assert(comes_before(items, sort, shown[a] as int, shown[b] as int));
        } else {
            assert(comes_before(items, sort, shown[b] as int, shown[a] as int));
        }
    }
}

/// A view is determined by the buckets, the filter and the order: two views of the same are
/// equal.
pub proof fn law_view_is_unique(
    first: Seq<usize>,
    second: Seq<usize>,
    items: Seq<Seq<char>>,
    filter: Seq<char>,
    sort: BucketListSortType,
)
    requires
        is_view_of(first, items, filter, sort),
        is_view_of(second, items, filter, sort),
    ensures
        first == second,
{
    assert forall|k: int| 0 <= k < first.len() implies second.contains(#[trigger] first[k]) by {
        assert(passes(items, filter, first[k] as int));
        assert(second.contains((first[k] as int) as usize));
    }
    assert forall|k: int| 0 <= k < second.len() implies first.contains(#[trigger] second[k]) by {
        assert(passes(items, filter, second[k] as int));
        assert(first.contains((second[k] as int) as usize));
    }
    lemma_same_places_same_list(first, second, items, sort);
}

/// Putting a list in another order is stable: two buckets of the same name follow each other
/// in the new list as they did in the old one.
pub proof fn law_same_names_keep_their_order(
    items: Seq<Seq<char>>,
    old_sort: BucketListSortType,
    old_shown: Seq<usize>,
    new_sort: BucketListSortType,
    new_shown: Seq<usize>,
    a: int,
    b: int,
    c: int,
    d: int,
)
    requires
        in_order(items, old_sort, old_shown),
        in_order(items, new_sort, new_shown),
        0 <= a < b < old_shown.len(),
        0 <= c < new_shown.len(),
        0 <= d < new_shown.len(),
        new_shown[c] == old_shown[a],
        new_shown[d] == old_shown[b],
        items[old_shown[a] as int] == items[old_shown[b] as int],
    ensures
        c < d,
{
    let first = old_shown[a] as int;
    let second = old_shown[b] as int;
    lemma_text_less_irreflexive(items[first]);
    assert(comes_before(items, old_sort, first, second));
    assert(first < second);
    if d < c {
        assert(comes_before(items, new_sort, new_shown[d] as int, new_shown[c] as int));
    }
}

/// Two lists in the same order that hold the same places are equal.
proof fn lemma_same_places_same_list(
    first: Seq<usize>,
    second: Seq<usize>,
    items: Seq<Seq<char>>,
    sort: BucketListSortType,
)
    requires
        in_order(items, sort, first),
        in_order(items, sort, second),
        forall|k: int| 0 <= k < first.len() ==> second.contains(#[trigger] first[k]),
        forall|k: int| 0 <= k < second.len() ==> first.contains(#[trigger] second[k]),
    ensures
        first == second,
    decreases first.len(),
{
    if first.len() == 0 {
        if second.len() > 0 {
            assert(first.contains(second[0]));
        }
        assert(first =~= second);
    } else {
        assert(second.contains(first[0]));
        let k = choose|k: int| 0 <= k < second.len() && second[k] == first[0];
        assert(first.contains(second[0]));
        let m = choose|m: int| 0 <= m < first.len() && first[m] == second[0];
        lemma_before_asymmetric(items, sort, first[0] as int, second[0] as int);
        lemma_before_irreflexive(items, sort, first[0] as int);
        if m > 0 {
            assert(comes_before(items, sort, first[0] as int, first[m] as int));
            if k > 0 {
                assert(comes_before(items, sort, second[0] as int, second[k] as int));
            }
        }
        assert(first[0] == second[0]);
        let rest_first = first.drop_first();
        let rest_second = second.drop_first();
        assert forall|a: int| 0 <= a < rest_first.len() implies rest_second.contains(
            #[trigger] rest_first[a],
        ) by {
            assert(rest_first[a] == first[a + 1]);
            assert(second.contains(first[a + 1]));
            let b = choose|b: int| 0 <= b < second.len() && second[b] == first[a + 1];
            assert(comes_before(items, sort, first[0] as int, first[a + 1] as int));
            assert(b > 0);
            assert(rest_second[b - 1] == second[b]);
        }
        assert forall|a: int| 0 <= a < rest_second.len() implies rest_first.contains(
            #[trigger] rest_second[a],
        ) by {
            assert(rest_second[a] == second[a + 1]);
            assert(first.contains(second[a + 1]));
            let b = choose|b: int| 0 <= b < first.len() && first[b] == second[a + 1];
            assert(comes_before(items, sort, second[0] as int, second[a + 1] as int));
            assert(b > 0);
            assert(rest_first[b - 1] == first[b]);
        }
        assert forall|a: int, b: int| 0 <= a < b < rest_first.len() implies comes_before(
            items,
            sort,
            (#[trigger] rest_first[a]) as int,
            (#[trigger] rest_first[b]) as int,
        ) by {
            assert(rest_first[a] == first[a + 1]);
            assert(rest_first[b] == first[b + 1]);
        }
        assert forall|a: int, b: int| 0 <= a < b < rest_second.len() implies comes_before(
            items,
            sort,
            (#[trigger] rest_second[a]) as int,
            (#[trigger] rest_second[b]) as int,
        ) by {
            assert(rest_second[a] == second[a + 1]);
            assert(rest_second[b] == second[b + 1]);
        }
        lemma_same_places_same_list(rest_first, rest_second, items, sort);
        assert(first =~= seq![first[0]] + rest_first);
        assert(second =~= seq![second[0]] + rest_second);
    }
}

/// Whether the bucket at the place `i` is shown before the one at `j` in the order `sort`.
pub fn shown_before(
    items: &Vec<BucketItem>,
    sort: BucketListSortType,
    i: usize,
    j: usize,
) -> (before: bool)
    requires
        i < items.len(),
        j < items.len(),
    ensures
        before == comes_before(names(items@), sort, i as int, j as int),
{
    match sort {
        BucketListSortType::Default => i < j,
        BucketListSortType::NameAsc => str_less(items[i].name.as_str(), items[j].name.as_str())
            || (items[i].name == items[j].name && i < j),
        BucketListSortType::NameDesc => str_less(items[j].name.as_str(), items[i].name.as_str())
            || (items[i].name == items[j].name && i < j),
    }
}

/// The places `indices` in the order `sort`.
pub fn sorted_indices(
    items: &Vec<BucketItem>,
    sort: BucketListSortType,
    indices: &Vec<usize>,
) -> (sorted: Vec<usize>)
    requires
        indices@.no_duplicates(),
        forall|k: int| 0 <= k < indices.len() ==> (#[trigger] indices[k]) < items.len(),
    ensures
        sorted.len() == indices.len(),
        forall|x: usize| sorted@.contains(x) <==> indices@.contains(x),
        in_order(names(items@), sort, sorted@),
{
    let ghost all = names(items@);
    let mut sorted: Vec<usize> = Vec::new();
    let mut i: usize = 0;
    while i < indices.len()
        invariant
            i <= indices.len(),
            all == names(items@),
            indices@.no_duplicates(),
            forall|k: int| 0 <= k < indices.len() ==> (#[trigger] indices[k]) < items.len(),
            sorted.len() == i,
            forall|x: usize| sorted@.contains(x) <==> indices@.take(i as int).contains(x),
            in_order(all, sort, sorted@),
        decreases indices.len() - i,
    {
        let x = indices[i];
        let ghost before = sorted@;
        let ghost taken = indices@.take(i as int);
        assert(!before.contains(x)) by {
            if taken.contains(x) {
                let k = choose|k: int| 0 <= k < taken.len() && taken[k] == x;
                assert(indices@[k] == indices@[i as int]);
            }
        }
        assert forall|q: int| 0 <= q < before.len() implies (#[trigger] before[q])
            < items.len() by {
            assert(before.contains(before[q]));
            let k = choose|k: int| 0 <= k < taken.len() && taken[k] == before[q];
            assert(indices@[k] == before[q]);
        }
        let mut p: usize = 0;
        while p < sorted.len() && shown_before(items, sort, sorted[p], x)
            invariant
                p <= sorted.len(),
                sorted@ == before,
                all == names(items@),
                x < items.len(),
                forall|q: int| 0 <= q < before.len() ==> (#[trigger] before[q]) < items.len(),
                forall|q: int|
                    0 <= q < p ==> comes_before(all, sort, (#[trigger] before[q]) as int, x as int),
            decreases sorted.len() - p,
        {
            p += 1;
        }
        sorted.insert(p, x);
        proof {
            let after = sorted@;
            assert(after == before.insert(p as int, x));
            before.insert_ensures(p as int, x);
            assert forall|q: int| p <= q < before.len() implies comes_before(
                all,
                sort,
                x as int,
                (#[trigger] before[q]) as int,
            ) by {
                assert(before.contains(before[p as int]));
                lemma_before_total(all, sort, x as int, before[p as int] as int);
                if q > p {
                    assert(comes_before(all, sort, before[p as int] as int, before[q] as int));
                    lemma_before_transitive(
                        all,
                        sort,
                        x as int,
                        before[p as int] as int,
                        before[q] as int,
                    );
                }
            }
            assert forall|a: int, b: int| 0 <= a < b < after.len() implies comes_before(
                all,
                sort,
                (#[trigger] after[a]) as int,
                (#[trigger] after[b]) as int,
            ) by {
                if a < p && b == p {
                    assert(after[a] == before[a]);
                } else if a < p && b > p {
                    assert(after[a] == before[a]);
                    assert(after[b] == before[b - 1]);
                } else if a < p {
                    assert(after[a] == before[a]);
                    assert(after[b] == before[b]);
                } else if a == p {
                    assert(after[b] == before[b - 1]);
                } else {
                    assert(after[a] == before[a - 1]);
                    assert(after[b] == before[b - 1]);
                }
            }
            let taken = indices@.take(i as int);
            let grown = indices@.take(i + 1);
            assert(grown =~= taken.push(x));
            assert forall|y: usize| after.contains(y) <==> grown.contains(y) by {
                if after.contains(y) {
                    let k = choose|k: int| 0 <= k < after.len() && after[k] == y;
                    if k < p {
                        assert(before[k] == y);
                        assert(before.contains(y));
                    } else if k > p {
                        assert(before[k - 1] == y);
                        assert(before.contains(y));
                    }
                    if y != x {
                        assert(taken.contains(y));
                        let m = choose|m: int| 0 <= m < taken.len() && taken[m] == y;
                        assert(grown[m] == y);
                    } else {
                        assert(grown[i as int] == y);
                    }
                }
                if grown.contains(y) {
                    let m = choose|m: int| 0 <= m < grown.len() && grown[m] == y;
                    if m < i {
                        assert(taken[m] == y);
                        assert(before.contains(y));
                        let k = choose|k: int| 0 <= k < before.len() && before[k] == y;
                        if k < p {
                            assert(after[k] == y);
                        } else {
                            assert(after[k + 1] == y);
                        }
                    } else {
                        assert(after[p as int] == y);
                    }
                }
            }
        }
        i += 1;
    }
    assert(indices@.take(i as int) == indices@);
    sorted
}

} // verus!
