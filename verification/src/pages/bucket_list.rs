//! The list of buckets: which buckets are shown, in which order, and which one is selected.
//!
//! The page decides; it neither draws nor sends. A key goes in, and what the application is
//! asked to do comes out. For drawing, the page hands out the rows to show.

use crate::event::{AppEventType, Key};
use crate::object::BucketItem;
use crate::pages::bucket_order::{
    holds_the_passing, is_view_of, lemma_in_order_no_duplicates, names, passes, sorted_indices,
};
use crate::pages::bucket_rows::{build_list_items, rows_drawn, ListRow};
use crate::pages::util::{build_helps, build_short_helps, help_text};
use crate::text::{occurs, occurs_at, str_contains};
use crate::widget::input_dialog::typed;
use crate::widget::{
    BucketListSortDialogState, BucketListSortType, InputDialogState, ScrollListState,
};
use vstd::prelude::*;

verus! {

/// What the page shows on top of the list.
#[derive(Debug, Clone, Copy, PartialEq, Eq, Structural)]
pub enum ViewState {
    Default,
    FilterDialog,
    SortDialog,
}

/// The page that lists the buckets.
#[derive(Debug)]
pub struct BucketListPage {
    bucket_items: Vec<BucketItem>,
    view_indices: Vec<usize>,
    view_state: ViewState,
    list_state: ScrollListState,
    filter_input_state: InputDialogState,
    sort_dialog_state: BucketListSortDialogState,
}

impl BucketListPage {
    /// The buckets that the page was made with.
    pub closed spec fn buckets(&self) -> Seq<BucketItem> {
        self.bucket_items@
    }

    /// The names of the buckets.
    pub open spec fn items(&self) -> Seq<Seq<char>> {
        names(self.buckets())
    }

    /// The places of the buckets shown, in the order in which they are shown.
    pub closed spec fn shown(&self) -> Seq<usize> {
        self.view_indices@
    }

    /// What the page shows on top of the list.
    pub closed spec fn state(&self) -> ViewState {
        self.view_state
    }

    /// The text of the filter.
    pub closed spec fn filter(&self) -> Seq<char> {
        self.filter_input_state@
    }

    /// The order that the sort dialog has its mark on.
    pub closed spec fn sort(&self) -> BucketListSortType {
        self.sort_dialog_state.chosen()
    }

    /// The selection and the scroll position.
    pub closed spec fn list(&self) -> ScrollListState {
        self.list_state
    }

    /// The selection and the scroll position are those of a list of as many items as are
    /// shown.
    pub open spec fn list_fits(&self) -> bool {
        self.list().wf() && self.list().count() == self.shown().len()
    }

    /// What holds of every page between two keys: the buckets shown are the view of the
    /// buckets under the filter and the order chosen, and the selection is one of them.
    pub open spec fn wf(&self) -> bool {
        &&& is_view_of(self.shown(), self.items(), self.filter(), self.sort())
        &&& self.list_fits()
    }

    /// `after` differs from this page at most in the selection and the scroll position.
    pub open spec fn same_view(&self, after: &BucketListPage) -> bool {
        &&& after.buckets() == self.buckets()
        &&& after.shown() == self.shown()
        &&& after.state() == self.state()
        &&& after.filter() == self.filter()
        &&& after.sort() == self.sort()
    }

    /// `after` is this page as it was.
    pub open spec fn untouched(&self, after: &BucketListPage) -> bool {
        self.same_view(after) && after.list() == self.list()
    }

    /// `after` is this page with `state` on top and the filter `filter`, the list filtered
    /// anew: the first of the buckets shown is selected, and the list counts as not drawn yet.
    pub open spec fn refiltered(
        &self,
        after: &BucketListPage,
        state: ViewState,
        filter: Seq<char>,
    ) -> bool {
        &&& after.buckets() == self.buckets()
        &&& after.state() == state
        &&& after.filter() == filter
        &&& after.sort() == self.sort()
        &&& ScrollListState::is_fresh(after.list(), after.shown().len() as int)
    }

    /// `after` is this page with `state` on top and the order `sort`, the selection staying
    /// at its place in the list.
    pub open spec fn resorted(
        &self,
        after: &BucketListPage,
        state: ViewState,
        sort: BucketListSortType,
    ) -> bool {
        &&& after.buckets() == self.buckets()
        &&& after.state() == state
        &&& after.filter() == self.filter()
        &&& after.sort() == sort
        &&& after.list() == self.list()
    }

    /// `after` is this page with `state` on top and nothing else changed.
    pub open spec fn switched(&self, after: &BucketListPage, state: ViewState) -> bool {
        &&& after.buckets() == self.buckets()
        &&& after.shown() == self.shown()
        &&& after.state() == state
        &&& after.filter() == self.filter()
        &&& after.sort() == self.sort()
        &&& after.list() == self.list()
    }

    /// What the key `c` does to the selection of a list that shows at least one bucket, if it
    /// is one of the keys that move it.
    pub open spec fn moves_list(c: char, before: ScrollListState, after: ScrollListState) -> bool {
        if c == 'j' {
            before.stepped_next(after)
        } else if c == 'k' {
            before.stepped_prev(after)
        } else if c == 'g' {
            before.jumped_first(after)
        } else if c == 'G' {
            before.jumped_last(after)
        } else if c == 'f' {
            before.paged_next(after)
        } else if c == 'b' {
            before.paged_prev(after)
        } else {
            after == before
        }
    }

    /// What a key does while nothing lies on top of the list.
    pub open spec fn handled_in_list(
        &self,
        key: Key,
        after: &BucketListPage,
        event: Option<AppEventType>,
    ) -> bool {
        let non_empty = self.shown().len() > 0;
        match key {
            Key::Esc => if self.filter().len() == 0 {
                event == Some(AppEventType::Quit) && self.untouched(after)
            } else {
                event.is_none() && self.refiltered(after, ViewState::Default, Seq::empty())
            },
            Key::Enter => self.untouched(after) && event == if non_empty {
                Some(AppEventType::BucketListMoveDown)
            } else {
                None
            },
            Key::Char(c) => if c == '/' {
                event.is_none() && self.switched(after, ViewState::FilterDialog)
            } else if c == 'o' {
                event.is_none() && self.switched(after, ViewState::SortDialog)
            } else if c == '?' {
                event == Some(AppEventType::OpenHelp) && self.untouched(after)
            } else if c == 'x' {
                self.untouched(after) && event == if non_empty {
                    Some(AppEventType::BucketListOpenManagementConsole)
                } else {
                    None
                }
            } else if non_empty {
                &&& event.is_none()
                &&& self.same_view(after)
                &&& Self::moves_list(c, self.list(), after.list())
            } else {
                event.is_none() && self.untouched(after)
            },
            _ => event.is_none() && self.untouched(after),
        }
    }

    /// What a key does while the filter dialog is open.
    pub open spec fn handled_in_filter_dialog(
        &self,
        key: Key,
        after: &BucketListPage,
        event: Option<AppEventType>,
    ) -> bool {
        match key {
            Key::Esc => event.is_none() && self.refiltered(after, ViewState::Default, Seq::empty()),
            Key::Enter => event.is_none() && self.refiltered(
                after,
                ViewState::Default,
                self.filter(),
            ),
            Key::Char('?') => event == Some(AppEventType::OpenHelp) && self.untouched(after),
            _ => event.is_none() && self.refiltered(
                after,
                ViewState::FilterDialog,
                typed(self.filter(), key),
            ),
        }
    }

    /// What a key does while the sort dialog is open.
    pub open spec fn handled_in_sort_dialog(
        &self,
        key: Key,
        after: &BucketListPage,
        event: Option<AppEventType>,
    ) -> bool {
        match key {
            Key::Esc => event.is_none() && self.resorted(
                after,
                ViewState::Default,
                BucketListSortType::Default,
            ),
            Key::Enter => event.is_none() && self.resorted(after, ViewState::Default, self.sort()),
            Key::Char('j') => event.is_none() && self.resorted(
                after,
                ViewState::SortDialog,
                self.sort().following(),
            ),
            Key::Char('k') => event.is_none() && self.resorted(
                after,
                ViewState::SortDialog,
                self.sort().preceding(),
            ),
            Key::Char('?') => event == Some(AppEventType::OpenHelp) && self.untouched(after),
            _ => event.is_none() && self.untouched(after),
        }
    }

    /// What a key does to the page, and what the application is asked to do. Together with
    /// [`BucketListPage::wf`] of `after` this says all of `after`: the buckets shown follow
    /// from the buckets, the filter and the order.
    pub open spec fn handled(
        &self,
        key: Key,
        after: &BucketListPage,
        event: Option<AppEventType>,
    ) -> bool {
        match self.state() {
            ViewState::Default => self.handled_in_list(key, after, event),
            ViewState::FilterDialog => self.handled_in_filter_dialog(key, after, event),
            ViewState::SortDialog => self.handled_in_sort_dialog(key, after, event),
        }
    }

    /// The page for `bucket_items`: all of them are shown in the order given, the first one
    /// is selected, and nothing lies on top of the list.
    pub fn new(bucket_items: Vec<BucketItem>) -> (page: BucketListPage)
        ensures
            page.wf(),
            page.buckets() == bucket_items@,
            page.state() == ViewState::Default,
            page.filter() == Seq::<char>::empty(),
            page.sort() == BucketListSortType::Default,
            page.shown() == Seq::new(bucket_items@.len(), |i: int| i as usize),
            ScrollListState::is_fresh(page.list(), bucket_items@.len() as int),
    {
        let items_len = bucket_items.len();
        let mut view_indices: Vec<usize> = Vec::new();
        let mut i: usize = 0;
        while i < items_len
            invariant
                i <= items_len,
                view_indices@ == Seq::new(i as nat, |k: int| k as usize),
            decreases items_len - i,
        {
            view_indices.push(i);
            assert(view_indices@ =~= Seq::new((i + 1) as nat, |k: int| k as usize));
            i += 1;
        }
        let page = BucketListPage {
            bucket_items,
            view_indices,
            view_state: ViewState::Default,
            list_state: ScrollListState::new(items_len),
            filter_input_state: InputDialogState::default(),
            sort_dialog_state: BucketListSortDialogState::default(),
        };
        proof {
            let shown = page.view_indices@;
            let all = names(page.bucket_items@);
            assert forall|k: int| 0 <= k < all.len() implies occurs(
                #[trigger] all[k],
                Seq::<char>::empty(),
            ) by {
                assert(all[k].subrange(0, 0) =~= Seq::<char>::empty());
                assert(occurs_at(all[k], Seq::<char>::empty(), 0));
            }
            assert forall|k: int| passes(all, Seq::<char>::empty(), k) implies shown.contains(
                k as usize,
            ) by {
                assert(shown[k] == k as usize);
            }
        }
        page
    }

    /// What a key does to the page. What comes back is what the application is asked to do,
    /// if anything.
    pub fn handle_key(&mut self, key: Key) -> (event: Option<AppEventType>)
        requires
            old(self).wf(),
        ensures
            final(self).wf(),
            old(self).handled(key, final(self), event),
    {
        match self.view_state {
            ViewState::Default => match key {
                Key::Esc => {
                    if self.filter_input_state.input().is_empty() {
                        return Some(AppEventType::Quit);
                    } else {
                        self.reset_filter();
                    }
                },
                Key::Enter => {
                    if self.non_empty() {
                        return Some(AppEventType::BucketListMoveDown);
                    }
                },
                Key::Char(c) => {
                    if c == '/' {
                        self.open_filter_dialog();
                    } else if c == 'o' {
                        self.open_sort_dialog();
                    } else if c == '?' {
                        return Some(AppEventType::OpenHelp);
                    } else if self.non_empty() {
                        if c == 'j' {
                            self.select_next();
                        } else if c == 'k' {
                            self.select_prev();
                        } else if c == 'g' {
                            self.select_first();
                        } else if c == 'G' {
                            self.select_last();
                        } else if c == 'f' {
                            self.select_next_page();
                        } else if c == 'b' {
                            self.select_prev_page();
                        } else if c == 'x' {
                            return Some(AppEventType::BucketListOpenManagementConsole);
                        }
                    }
                },
                _ => {},
            },
            ViewState::FilterDialog => match key {
                Key::Esc => {
                    self.close_filter_dialog();
                },
                Key::Enter => {
                    self.apply_filter();
                },
                Key::Char('?') => {
                    return Some(AppEventType::OpenHelp);
                },
                _ => {
                    self.filter_input_state.handle_key_event(key);
                    self.filter_view_indices();
                },
            },
            ViewState::SortDialog => match key {
                Key::Esc => {
                    self.close_sort_dialog();
                },
                Key::Char('j') => {
                    self.select_next_sort_item();
                },
                Key::Char('k') => {
                    self.select_prev_sort_item();
                },
                Key::Enter => {
                    self.apply_sort();
                },
                Key::Char('?') => {
                    return Some(AppEventType::OpenHelp);
                },
                _ => {},
            },
        }
        None
    }

    /// The bucket that is selected.
    pub fn current_selected_item(&self) -> (item: &BucketItem)
        requires
            self.wf(),
            self.shown().len() > 0,
        ensures
            *item == self.buckets()[self.shown()[self.list().selected_index()] as int],
    {
        let i = self.view_indices[self.list_state.selected()];
        let ghost at = self.list().selected_index();
        assert(passes(self.items(), self.filter(), self.shown()[at] as int));
        &self.bucket_items[i]
    }

    /// Whether any bucket is shown.
    pub fn non_empty(&self) -> (any: bool)
        ensures
            any == (self.shown().len() > 0),
    {
        self.view_indices.len() > 0
    }

    /// The places of the buckets shown, in the order in which they are shown.
    pub fn view_indices(&self) -> (shown: &Vec<usize>)
        ensures
            shown@ == self.shown(),
    {
        &self.view_indices
    }

    /// What the page shows on top of the list.
    pub fn view_state(&self) -> (state: ViewState)
        ensures
            state == self.state(),
    {
        self.view_state
    }

    /// The selection and the scroll position.
    pub fn list_state(&self) -> (list: ScrollListState)
        ensures
            list == self.list(),
    {
        self.list_state
    }

    /// The text of the filter.
    pub fn filter_input(&self) -> (text: &str)
        ensures
            text@ == self.filter(),
    {
        self.filter_input_state.input()
    }

    /// The order that the sort dialog has its mark on.
    pub fn sort_selected(&self) -> (sort: BucketListSortType)
        ensures
            sort == self.sort(),
    {
        self.sort_dialog_state.selected()
    }

    /// Tells the list how many buckets fit on the screen.
    pub fn set_list_height(&mut self, height: usize)
        requires
            old(self).wf(),
        ensures
            final(self).wf(),
            old(self).same_view(final(self)),
            old(self).list().resized(final(self).list(), height as int),
    {
        self.list_state.set_height(height);
    }

    fn select_next(&mut self)
        requires
            old(self).wf(),
        ensures
            final(self).wf(),
            old(self).same_view(final(self)),
            old(self).list().stepped_next(final(self).list()),
    {
        self.list_state.select_next();
    }

    fn select_prev(&mut self)
        requires
            old(self).wf(),
        ensures
            final(self).wf(),
            old(self).same_view(final(self)),
            old(self).list().stepped_prev(final(self).list()),
    {
        self.list_state.select_prev();
    }

    fn select_first(&mut self)
        requires
            old(self).wf(),
        ensures
            final(self).wf(),
            old(self).same_view(final(self)),
            old(self).list().jumped_first(final(self).list()),
    {
        self.list_state.select_first();
    }

    fn select_last(&mut self)
        requires
            old(self).wf(),
        ensures
            final(self).wf(),
            old(self).same_view(final(self)),
            old(self).list().jumped_last(final(self).list()),
    {
        self.list_state.select_last();
    }

    fn select_next_page(&mut self)
        requires
            old(self).wf(),
        ensures
            final(self).wf(),
            old(self).same_view(final(self)),
            old(self).list().paged_next(final(self).list()),
    {
        self.list_state.select_next_page();
    }

    fn select_prev_page(&mut self)
        requires
            old(self).wf(),
        ensures
            final(self).wf(),
            old(self).same_view(final(self)),
            old(self).list().paged_prev(final(self).list()),
    {
        self.list_state.select_prev_page();
    }

    fn open_filter_dialog(&mut self)
        ensures
            old(self).switched(final(self), ViewState::FilterDialog),
    {
        self.view_state = ViewState::FilterDialog;
    }

    fn close_filter_dialog(&mut self)
        ensures
            final(self).wf(),
            old(self).refiltered(final(self), ViewState::Default, Seq::empty()),
    {
        self.view_state = ViewState::Default;
        self.reset_filter();
    }

    fn open_sort_dialog(&mut self)
        ensures
            old(self).switched(final(self), ViewState::SortDialog),
    {
        self.view_state = ViewState::SortDialog;
    }

    fn close_sort_dialog(&mut self)
        requires
            old(self).wf(),
        ensures
            final(self).wf(),
            old(self).resorted(final(self), ViewState::Default, BucketListSortType::Default),
    {
        proof {
            lemma_in_order_no_duplicates(self.items(), self.sort(), self.shown());
        }
        self.view_state = ViewState::Default;
        self.sort_dialog_state.reset();
        self.sort_view_indices();
    }

    fn apply_filter(&mut self)
        ensures
            final(self).wf(),
            old(self).refiltered(final(self), ViewState::Default, old(self).filter()),
    {
        self.view_state = ViewState::Default;
        self.filter_view_indices();
    }

    fn reset_filter(&mut self)
        ensures
            final(self).wf(),
            old(self).refiltered(final(self), old(self).state(), Seq::empty()),
    {
        self.filter_input_state.clear_input();
        self.filter_view_indices();
    }

    /// Filters the buckets anew, puts those that pass in the order chosen and starts the
    /// list over.
    fn filter_view_indices(&mut self)
        ensures
            final(self).wf(),
            old(self).refiltered(final(self), old(self).state(), old(self).filter()),
    {
        let ghost all = names(self.bucket_items@);
        let ghost filter = self.filter_input_state@;
        let mut passing: Vec<usize> = Vec::new();
        let mut i: usize = 0;
        while i < self.bucket_items.len()
            invariant
                i <= self.bucket_items.len(),
                all == names(self.bucket_items@),
                filter == self.filter_input_state@,
                forall|k: int| 0 <= k < passing.len() ==> (#[trigger] passing[k]) < i,
                forall|k: int|
                    0 <= k < passing.len() ==> passes(all, filter, (#[trigger] passing[k]) as int),
                forall|a: int, b: int|
                    0 <= a < b < passing.len() ==> (#[trigger] passing[a]) < (
                    #[trigger] passing[b]),
                forall|j: int|
                    0 <= j < i && passes(all, filter, j) ==> #[trigger] passing@.contains(
                        j as usize,
                    ),
            decreases self.bucket_items.len() - i,
        {
            let ghost before = passing@;
            if str_contains(self.bucket_items[i].name.as_str(), self.filter_input_state.input()) {
                passing.push(i);
                assert(passing@[before.len() as int] == i);
            }
            assert forall|j: int|
                0 <= j < i + 1 && passes(all, filter, j) implies passing@.contains(j as usize) by {
                if j < i {
                    assert(before.contains(j as usize));
                    let k = choose|k: int| 0 <= k < before.len() && before[k] == j as usize;
                    assert(passing@[k] == j as usize);
                }
            }
            i += 1;
        }
        let sort = self.sort_dialog_state.selected();
        let sorted = sorted_indices(&self.bucket_items, sort, &passing);
        proof {
            assert forall|k: int| 0 <= k < sorted.len() implies passes(
                all,
                filter,
                (#[trigger] sorted[k]) as int,
            ) by {
                assert(sorted@.contains(sorted[k]));
                assert(passing@.contains(sorted[k]));
            }
            assert forall|j: int| passes(all, filter, j) implies sorted@.contains(j as usize) by {
                assert(passing@.contains(j as usize));
            }
        }
        self.list_state = ScrollListState::new(sorted.len());
        self.view_indices = sorted;
    }

    fn apply_sort(&mut self)
        requires
            old(self).wf(),
        ensures
            final(self).wf(),
            old(self).resorted(final(self), ViewState::Default, old(self).sort()),
    {
        proof {
            lemma_in_order_no_duplicates(self.items(), self.sort(), self.shown());
        }
        self.view_state = ViewState::Default;
        self.sort_view_indices();
    }

    fn select_next_sort_item(&mut self)
        requires
            old(self).wf(),
        ensures
            final(self).wf(),
            old(self).resorted(final(self), old(self).state(), old(self).sort().following()),
    {
        proof {
            lemma_in_order_no_duplicates(self.items(), self.sort(), self.shown());
        }
        self.sort_dialog_state.select_next();
        self.sort_view_indices();
    }

    fn select_prev_sort_item(&mut self)
        requires
            old(self).wf(),
        ensures
            final(self).wf(),
            old(self).resorted(final(self), old(self).state(), old(self).sort().preceding()),
    {
        proof {
            lemma_in_order_no_duplicates(self.items(), self.sort(), self.shown());
        }
        self.sort_dialog_state.select_prev();
        self.sort_view_indices();
    }

    /// Puts the buckets shown in the order chosen.
    fn sort_view_indices(&mut self)
        requires
            holds_the_passing(old(self).shown(), old(self).items(), old(self).filter()),
            old(self).shown().no_duplicates(),
            old(self).list_fits(),
        ensures
            final(self).wf(),
            old(self).resorted(final(self), old(self).state(), old(self).sort()),
    {
        let ghost all = names(self.bucket_items@);
        let ghost filter = self.filter_input_state@;
        let ghost before = self.view_indices@;
        assert forall|k: int| 0 <= k < before.len() implies (#[trigger] before[k])
            < self.bucket_items.len() by {
            assert(passes(all, filter, before[k] as int));
        }
        let sorted = sorted_indices(
            &self.bucket_items,
            self.sort_dialog_state.selected(),
            &self.view_indices,
        );
        proof {
            assert forall|k: int| 0 <= k < sorted.len() implies passes(
                all,
                filter,
                (#[trigger] sorted[k]) as int,
            ) by {
                assert(sorted@.contains(sorted[k]));
                assert(before.contains(sorted[k]));
            }
            assert forall|j: int| passes(all, filter, j) implies sorted@.contains(j as usize) by {
                assert(before.contains(j as usize));
            }
        }
        self.view_indices = sorted;
    }
}

/// The keys and what they do, as the help page lists them for a page with `state` on top;
/// `filtered` says whether a filter is set.
pub open spec fn helps_table(state: ViewState, filtered: bool) -> Seq<
    (Seq<&'static str>, &'static str),
> {
    match state {
        ViewState::Default => if !filtered {
            seq![
                (seq!["Esc", "Ctrl-c"], "Quit app"),
                (seq!["j/k"], "Select item"),
                (seq!["g/G"], "Go to top/bottom"),
                (seq!["f"], "Scroll page forward"),
                (seq!["b"], "Scroll page backward"),
                (seq!["Enter"], "Open bucket"),
                (seq!["/"], "Filter bucket list"),
                (seq!["o"], "Sort bucket list"),
                (seq!["x"], "Open management console in browser"),
            ]
        } else {
            seq![
                (seq!["Ctrl-c"], "Quit app"),
                (seq!["Esc"], "Clear filter"),
                (seq!["j/k"], "Select item"),
                (seq!["g/G"], "Go to top/bottom"),
                (seq!["f"], "Scroll page forward"),
                (seq!["b"], "Scroll page backward"),
                (seq!["Enter"], "Open bucket"),
                (seq!["/"], "Filter bucket list"),
                (seq!["o"], "Sort bucket list"),
                (seq!["x"], "Open management console in browser"),
            ]
        },
        ViewState::FilterDialog => seq![
            (seq!["Ctrl-c"], "Quit app"),
            (seq!["Esc"], "Close filter dialog"),
            (seq!["Enter"], "Apply filter"),
        ],
        ViewState::SortDialog => seq![
            (seq!["Ctrl-c"], "Quit app"),
            (seq!["Esc"], "Close sort dialog"),
            (seq!["j/k"], "Select item"),
            (seq!["Enter"], "Apply sort"),
        ],
    }
}

/// The keys and what they do, as the foot of the screen lists them for a page with `state`
/// on top, each with a number that says how much the line matters; `filtered` says whether a
/// filter is set.
pub open spec fn short_helps_table(state: ViewState, filtered: bool) -> Seq<
    (Seq<&'static str>, &'static str, usize),
> {
    match state {
        ViewState::Default => if !filtered {
            seq![
                (seq!["Esc"], "Quit", 0usize),
                (seq!["j/k"], "Select", 1usize),
                (seq!["g/G"], "Top/Bottom", 5usize),
                (seq!["Enter"], "Open", 2usize),
                (seq!["/"], "Filter", 3usize),
                (seq!["o"], "Sort", 4usize),
                (seq!["?"], "Help", 0usize),
            ]
        } else {
            seq![
                (seq!["Esc"], "Clear filter", 0usize),
                (seq!["j/k"], "Select", 1usize),
                (seq!["g/G"], "Top/Bottom", 4usize),
                (seq!["Enter"], "Open", 2usize),
                (seq!["/"], "Filter", 3usize),
                (seq!["o"], "Sort", 4usize),
                (seq!["?"], "Help", 0usize),
            ]
        },
        ViewState::FilterDialog => seq![
            (seq!["Esc"], "Close", 2usize),
            (seq!["Enter"], "Filter", 1usize),
            (seq!["?"], "Help", 0usize),
        ],
        ViewState::SortDialog => seq![
            (seq!["Esc"], "Close", 2usize),
            (seq!["j/k"], "Select", 3usize),
            (seq!["Enter"], "Sort", 1usize),
            (seq!["?"], "Help", 0usize),
        ],
    }
}

impl BucketListPage {
    /// The lines of the help page: one for each row of [`helps_table`], in the same order.
    pub fn helps(&self) -> (lines: Vec<String>)
        ensures
            lines.len() == helps_table(self.state(), self.filter().len() > 0).len(),
            forall|i: int|
                0 <= i < lines.len() ==> (#[trigger] lines[i])@ == help_text(
                    helps_table(self.state(), self.filter().len() > 0)[i].0,
                    helps_table(self.state(), self.filter().len() > 0)[i].1@,
                ),
    {
        let helps: &[(&[&str], &str)] = match self.view_state {
            ViewState::Default => {
                if self.filter_input_state.input().is_empty() {
                    &[
                        (&["Esc", "Ctrl-c"], "Quit app"),
                        (&["j/k"], "Select item"),
                        (&["g/G"], "Go to top/bottom"),
                        (&["f"], "Scroll page forward"),
                        (&["b"], "Scroll page backward"),
                        (&["Enter"], "Open bucket"),
                        (&["/"], "Filter bucket list"),
                        (&["o"], "Sort bucket list"),
                        (&["x"], "Open management console in browser"),
                    ]
                } else {
                    &[
                        (&["Ctrl-c"], "Quit app"),
                        (&["Esc"], "Clear filter"),
                        (&["j/k"], "Select item"),
                        (&["g/G"], "Go to top/bottom"),
                        (&["f"], "Scroll page forward"),
                        (&["b"], "Scroll page backward"),
                        (&["Enter"], "Open bucket"),
                        (&["/"], "Filter bucket list"),
                        (&["o"], "Sort bucket list"),
                        (&["x"], "Open management console in browser"),
                    ]
                }
            },
            ViewState::FilterDialog => &[
                (&["Ctrl-c"], "Quit app"),
                (&["Esc"], "Close filter dialog"),
                (&["Enter"], "Apply filter"),
            ],
            ViewState::SortDialog => &[
                (&["Ctrl-c"], "Quit app"),
                (&["Esc"], "Close sort dialog"),
                (&["j/k"], "Select item"),
                (&["Enter"], "Apply sort"),
            ],
        };
        proof {
            let table = helps_table(self.state(), self.filter().len() > 0);
            assert(helps@.len() == table.len());
            assert forall|i: int| 0 <= i < helps@.len() implies (#[trigger] helps@[i]).0@
                =~= table[i].0 && helps@[i].1 == table[i].1 by {}
        }
        build_helps(helps)
    }

    /// The lines at the foot of the screen: one for each row of [`short_helps_table`], in
    /// the same order, each with the number of its row.
    pub fn short_helps(&self) -> (lines: Vec<(String, usize)>)
        ensures
            lines.len() == short_helps_table(self.state(), self.filter().len() > 0).len(),
            forall|i: int|
                0 <= i < lines.len() ==> {
                    &&& (#[trigger] lines[i]).0@ == help_text(
                        short_helps_table(self.state(), self.filter().len() > 0)[i].0,
                        short_helps_table(self.state(), self.filter().len() > 0)[i].1@,
                    )
                    &&& lines[i].1 == short_helps_table(self.state(), self.filter().len() > 0)[i].2
                },
    {
        let helps: &[(&[&str], &str, usize)] = match self.view_state {
            ViewState::Default => {
                if self.filter_input_state.input().is_empty() {
                    &[
                        (&["Esc"], "Quit", 0),
                        (&["j/k"], "Select", 1),
                        (&["g/G"], "Top/Bottom", 5),
                        (&["Enter"], "Open", 2),
                        (&["/"], "Filter", 3),
                        (&["o"], "Sort", 4),
                        (&["?"], "Help", 0),
                    ]
                } else {
                    &[
                        (&["Esc"], "Clear filter", 0),
                        (&["j/k"], "Select", 1),
                        (&["g/G"], "Top/Bottom", 4),
                        (&["Enter"], "Open", 2),
                        (&["/"], "Filter", 3),
                        (&["o"], "Sort", 4),
                        (&["?"], "Help", 0),
                    ]
                }
            },
            ViewState::FilterDialog => &[
                (&["Esc"], "Close", 2),
                (&["Enter"], "Filter", 1),
                (&["?"], "Help", 0),
            ],
            ViewState::SortDialog => &[
                (&["Esc"], "Close", 2),
                (&["j/k"], "Select", 3),
                (&["Enter"], "Sort", 1),
                (&["?"], "Help", 0),
            ],
        };
        proof {
            let table = short_helps_table(self.state(), self.filter().len() > 0);
            assert(helps@.len() == table.len());
            assert forall|i: int| 0 <= i < helps@.len() implies (#[trigger] helps@[i]).0@
                =~= table[i].0 && helps@[i].1 == table[i].1 && helps@[i].2 == table[i].2 by {}
        }
        build_short_helps(helps)
    }

    /// The rows to draw in an area of the height `height`: the buckets shown from the first
    /// one on the screen on, as many as fit between the two borders, the selected one marked.
    pub fn list_items<'a>(&'a self, height: u16) -> (rows: Vec<ListRow<'a>>)
        requires
            self.wf(),
            height >= 2,
        ensures
            rows.len() == rows_drawn(
                self.shown().len() as int,
                self.list().first_shown(),
                height as int,
            ),
            forall|k: int|
                0 <= k < rows.len() ==> (#[trigger] rows[k]).shows(
                    self.items()[self.shown()[self.list().first_shown() + k] as int],
                    self.filter(),
                    self.list().first_shown() + k == self.list().selected_index(),
                ),
    {
        build_list_items(
            self.bucket_items.as_slice(),
            self.view_indices.as_slice(),
            self.filter_input_state.input(),
            self.list_state.offset(),
            self.list_state.selected(),
            height,
        )
    }
}

} // verus!
