//! The state of a list that scrolls: which of its items is selected, and which is the first
//! one shown.

use vstd::prelude::*;

verus! {

/// The selection and the scroll position of a list of `total` items of which `height` fit on
/// the screen. Before the list was drawn for the first time `height` is 0.
#[derive(Debug, Clone, Copy, PartialEq, Eq, Structural)]
pub struct ScrollListState {
    selected: usize,
    offset: usize,
    total: usize,
    height: usize,
}

impl ScrollListState {
    /// The place of the selected item.
    pub closed spec fn selected_index(self) -> int {
        self.selected as int
    }

    /// The place of the first item shown.
    pub closed spec fn first_shown(self) -> int {
        self.offset as int
    }

    /// The number of items.
    pub closed spec fn count(self) -> int {
        self.total as int
    }

    /// The number of items that fit on the screen.
    pub closed spec fn rows(self) -> int {
        self.height as int
    }

    /// The selection is an item of the list, unless the list is empty, and it is among the
    /// items shown.
    pub open spec fn wf(self) -> bool {
        &&& self.count() == 0 ==> self.selected_index() == 0
        &&& self.count() > 0 ==> self.selected_index() < self.count()
        &&& self.first_shown() <= self.selected_index()
        &&& self.rows() > 0 ==> self.selected_index() < self.first_shown() + self.rows()
    }

    /// The first item shown when the selection moves to `target` and the list scrolls no
    /// further than it must to show it.
    pub open spec fn scrolled_to(self, target: int) -> int {
        if target < self.first_shown() {
            target
        } else if self.rows() > 0 && target >= self.first_shown() + self.rows() {
            target + 1 - self.rows()
        } else {
            self.first_shown()
        }
    }

    /// The first item shown when the last page of the list is on the screen.
    pub open spec fn last_page_start(self) -> int {
        if self.rows() > 0 && self.count() > self.rows() {
            self.count() - self.rows()
        } else {
            0
        }
    }

    /// `after` is the state of a list of `count` items that was not drawn yet: the first item
    /// is selected and shown first.
    pub open spec fn is_fresh(after: ScrollListState, count: int) -> bool {
        &&& after.count() == count
        &&& after.selected_index() == 0
        &&& after.first_shown() == 0
        &&& after.rows() == 0
    }

    /// `after` is this state with nothing moved.
    pub open spec fn unmoved(self, after: ScrollListState) -> bool {
        &&& after.count() == self.count()
        &&& after.rows() == self.rows()
        &&& after.selected_index() == self.selected_index()
        &&& after.first_shown() == self.first_shown()
    }

    /// `after` is this state one item on: the item after the selected one is selected, and
    /// the first item after the last. The list has scrolled no further than it must.
    pub open spec fn stepped_next(self, after: ScrollListState) -> bool {
        &&& after.count() == self.count()
        &&& after.rows() == self.rows()
        &&& after.selected_index() == if self.selected_index() + 1 < self.count() {
            self.selected_index() + 1
        } else {
            0
        }
        &&& after.first_shown() == self.scrolled_to(after.selected_index())
    }

    /// `after` is this state one item back: the item before the selected one is selected, and
    /// the last item before the first. The list has scrolled no further than it must, and
    /// shows its last page after the step to the last item.
    pub open spec fn stepped_prev(self, after: ScrollListState) -> bool {
        &&& after.count() == self.count()
        &&& after.rows() == self.rows()
        &&& after.selected_index() == if self.selected_index() > 0 {
            self.selected_index() - 1
        } else if self.count() > 0 {
            self.count() - 1
        } else {
            0
        }
        &&& after.first_shown() == if self.selected_index() > 0 {
            self.scrolled_to(after.selected_index())
        } else {
            self.last_page_start()
        }
    }

    /// `after` is this state with the first item selected and the first page shown.
    pub open spec fn jumped_first(self, after: ScrollListState) -> bool {
        &&& after.count() == self.count()
        &&& after.rows() == self.rows()
        &&& after.selected_index() == 0
        &&& after.first_shown() == 0
    }

    /// `after` is this state with the last item selected and the last page shown.
    pub open spec fn jumped_last(self, after: ScrollListState) -> bool {
        &&& after.count() == self.count()
        &&& after.rows() == self.rows()
        &&& after.selected_index() == if self.count() > 0 {
            self.count() - 1
        } else {
            0
        }
        &&& after.first_shown() == self.last_page_start()
    }

    /// `after` is this state one page on: the selection has moved by a page, or to the last
    /// item where less than a page was left, and is the first item shown unless the last page
    /// is on the screen. Nothing has moved in a list that was not drawn yet.
    pub open spec fn paged_next(self, after: ScrollListState) -> bool {
        &&& after.count() == self.count()
        &&& after.rows() == self.rows()
        &&& after.selected_index() == if self.count() == 0 || self.rows() == 0 {
            self.selected_index()
        } else if self.selected_index() + self.rows() + 1 < self.count() {
            self.selected_index() + self.rows()
        } else {
            self.count() - 1
        }
        &&& after.first_shown() == if self.count() == 0 || self.rows() == 0 {
            self.first_shown()
        } else if after.selected_index() < self.last_page_start() {
            after.selected_index()
        } else {
            self.last_page_start()
        }
    }

    /// `after` is this state one page back: the selection has moved back by a page, or to the
    /// first item where no more than a page lay before it, and is the last item shown unless
    /// the first page is on the screen. Nothing has moved in a list that was not drawn yet.
    pub open spec fn paged_prev(self, after: ScrollListState) -> bool {
        &&& after.count() == self.count()
        &&& after.rows() == self.rows()
        &&& after.selected_index() == if self.count() == 0 || self.rows() == 0 {
            self.selected_index()
        } else if self.selected_index() > self.rows() {
            self.selected_index() - self.rows()
        } else {
            0
        }
        &&& after.first_shown() == if self.count() == 0 || self.rows() == 0 {
            self.first_shown()
        } else if after.selected_index() >= self.rows() {
            after.selected_index() + 1 - self.rows()
        } else {
            0
        }
    }

    /// `after` is this state told that `height` items fit on the screen: the selection has
    /// stayed, and the list has scrolled no further than it must to show it.
    pub open spec fn resized(self, after: ScrollListState, height: int) -> bool {
        &&& after.count() == self.count()
        &&& after.rows() == height
        &&& after.selected_index() == self.selected_index()
        &&& after.first_shown() == if height > 0 && self.selected_index() >= self.first_shown()
            + height {
            self.selected_index() + 1 - height
        } else {
            self.first_shown()
        }
    }

    /// The state of a list of `total` items that was not drawn yet.
    pub fn new(total: usize) -> (state: ScrollListState)
        ensures
            state.wf(),
            ScrollListState::is_fresh(state, total as int),
    {
        ScrollListState { selected: 0, offset: 0, total, height: 0 }
    }

    pub fn selected(&self) -> (index: usize)
        ensures
            index == self.selected_index(),
    {
        self.selected
    }

    pub fn offset(&self) -> (index: usize)
        ensures
            index == self.first_shown(),
    {
        self.offset
    }

    pub fn total(&self) -> (count: usize)
        ensures
            count == self.count(),
    {
        self.total
    }

    pub fn height(&self) -> (rows: usize)
        ensures
            rows == self.rows(),
    {
        self.height
    }

    /// Tells the list how many items fit on the screen.
    pub fn set_height(&mut self, height: usize)
        requires
            old(self).wf(),
        ensures
            final(self).wf(),
            old(self).resized(*final(self), height as int),
    {
        self.height = height;
        if height > 0 && self.selected - self.offset >= height {
            self.offset = self.selected + 1 - height;
        }
    }

    /// Moves the selection one item on.
    pub fn select_next(&mut self)
        requires
            old(self).wf(),
        ensures
            final(self).wf(),
            old(self).stepped_next(*final(self)),
    {
        if self.total == 0 {
            return ;
        }
        if self.selected >= self.total - 1 {
            self.selected = 0;
            self.offset = 0;
        } else {
            self.selected += 1;
            if self.height > 0 && self.selected - self.offset >= self.height {
                self.offset = self.selected + 1 - self.height;
            }
        }
    }

    /// Moves the selection one item back.
    pub fn select_prev(&mut self)
        requires
            old(self).wf(),
        ensures
            final(self).wf(),
            old(self).stepped_prev(*final(self)),
    {
        if self.total == 0 {
            return ;
        }
        if self.selected == 0 {
            self.select_last();
        } else {
            self.selected -= 1;
            if self.selected < self.offset {
                self.offset = self.selected;
            }
        }
    }

    /// Selects the first item and shows the first page.
    pub fn select_first(&mut self)
        requires
            old(self).wf(),
        ensures
            final(self).wf(),
            old(self).jumped_first(*final(self)),
    {
        self.selected = 0;
        self.offset = 0;
    }

    /// Selects the last item and shows the last page.
    pub fn select_last(&mut self)
        requires
            old(self).wf(),
        ensures
            final(self).wf(),
            old(self).jumped_last(*final(self)),
    {
        if self.total == 0 {
            return ;
        }
        self.selected = self.total - 1;
        if self.height > 0 && self.height < self.total {
            self.offset = self.total - self.height;
        } else {
            self.offset = 0;
        }
    }

    /// Moves the selection one page on.
    pub fn select_next_page(&mut self)
        requires
            old(self).wf(),
        ensures
            final(self).wf(),
            old(self).paged_next(*final(self)),
    {
        if self.total == 0 || self.height == 0 {
            return ;
        }
        if self.total < self.height {
            self.selected = self.total - 1;
            self.offset = 0;
        } else if self.height < self.total - 1 && self.selected < self.total - 1 - self.height {
            self.selected += self.height;
            if self.selected > self.total - 1 - self.height {
                self.offset = self.total - self.height;
            } else {
                self.offset = self.selected;
            }
        } else {
            self.selected = self.total - 1;
            self.offset = self.total - self.height;
        }
    }

    /// Moves the selection one page back.
    pub fn select_prev_page(&mut self)
        requires
            old(self).wf(),
        ensures
            final(self).wf(),
            old(self).paged_prev(*final(self)),
    {
        if self.total == 0 || self.height == 0 {
            return ;
        }
        if self.total < self.height {
            self.selected = 0;
            self.offset = 0;
        } else if self.selected > self.height {
            self.selected -= self.height;
            if self.selected < self.height {
                self.offset = 0;
            } else {
                self.offset = self.selected - self.height + 1;
            }
        } else {
            self.selected = 0;
            self.offset = 0;
        }
    }
}

} // verus!
