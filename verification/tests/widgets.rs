use stu_core::event::Key;
use stu_core::widget::{
    BucketListSortDialogState, BucketListSortType, InputDialogState, ScrollListState,
};

fn drawn(total: usize, height: usize) -> ScrollListState {
    let mut state = ScrollListState::new(total);
    state.set_height(height);
    state
}

fn place(state: &ScrollListState) -> (usize, usize) {
    (state.selected(), state.offset())
}

#[test]
fn fresh_list_selects_the_first_item() {
    let state = ScrollListState::new(5);
    assert_eq!(place(&state), (0, 0));
    assert_eq!(state.total(), 5);
    assert_eq!(state.height(), 0);
}

#[test]
fn next_scrolls_when_the_selection_leaves_the_screen() {
    let mut state = drawn(5, 3);
    state.select_next();
    assert_eq!(place(&state), (1, 0));
    state.select_next();
    assert_eq!(place(&state), (2, 0));
    state.select_next();
    assert_eq!(place(&state), (3, 1));
    state.select_next();
    assert_eq!(place(&state), (4, 2));
    state.select_next();
    assert_eq!(place(&state), (0, 0));
}

#[test]
fn prev_scrolls_back_and_wraps_to_the_last_page() {
    let mut state = drawn(5, 3);
    state.select_prev();
    assert_eq!(place(&state), (4, 2));
    state.select_prev();
    assert_eq!(place(&state), (3, 2));
    state.select_prev();
    assert_eq!(place(&state), (2, 2));
    state.select_prev();
    assert_eq!(place(&state), (1, 1));
    state.select_prev();
    assert_eq!(place(&state), (0, 0));
}

#[test]
fn first_and_last() {
    let mut state = drawn(10, 4);
    state.select_last();
    assert_eq!(place(&state), (9, 6));
    state.select_first();
    assert_eq!(place(&state), (0, 0));
    let mut short = drawn(3, 4);
    short.select_last();
    assert_eq!(place(&short), (2, 0));
}

#[test]
fn next_page_steps_by_the_height() {
    let mut state = drawn(20, 5);
    state.select_next_page();
    assert_eq!(place(&state), (5, 5));
    state.select_next_page();
    assert_eq!(place(&state), (10, 10));
    state.select_next_page();
    assert_eq!(place(&state), (15, 15));
    state.select_next_page();
    assert_eq!(place(&state), (19, 15));
    let mut other = drawn(12, 5);
    other.select_next_page();
    other.select_next_page();
    assert_eq!(place(&other), (10, 7));
    other.select_next_page();
    assert_eq!(place(&other), (11, 7));
}

#[test]
fn prev_page_steps_back_by_the_height() {
    let mut state = drawn(20, 5);
    state.select_last();
    state.select_prev_page();
    assert_eq!(place(&state), (14, 10));
    state.select_prev_page();
    assert_eq!(place(&state), (9, 5));
    state.select_prev_page();
    assert_eq!(place(&state), (4, 0));
    state.select_prev_page();
    assert_eq!(place(&state), (0, 0));
}

#[test]
fn pages_of_a_short_list() {
    let mut state = drawn(3, 5);
    state.select_next_page();
    assert_eq!(place(&state), (2, 0));
    state.select_prev_page();
    assert_eq!(place(&state), (0, 0));
    let mut full = drawn(5, 5);
    full.select_next_page();
    assert_eq!(place(&full), (4, 0));
}

#[test]
fn empty_list_never_moves() {
    let mut state = drawn(0, 5);
    state.select_next();
    state.select_prev();
    state.select_last();
    state.select_first();
    state.select_next_page();
    state.select_prev_page();
    assert_eq!(place(&state), (0, 0));
    assert_eq!(state.total(), 0);
}

#[test]
fn list_that_was_not_drawn_steps_without_scrolling_and_has_no_pages() {
    let mut state = ScrollListState::new(4);
    state.select_next();
    assert_eq!(place(&state), (1, 0));
    state.select_next_page();
    assert_eq!(place(&state), (1, 0));
    state.select_prev_page();
    assert_eq!(place(&state), (1, 0));
    state.select_last();
    assert_eq!(place(&state), (3, 0));
}

#[test]
fn height_keeps_the_selection_on_the_screen() {
    let mut state = ScrollListState::new(10);
    state.select_last();
    assert_eq!(place(&state), (9, 0));
    state.set_height(4);
    assert_eq!(place(&state), (9, 6));
    assert_eq!(state.height(), 4);
    state.set_height(20);
    assert_eq!(place(&state), (9, 6));
}

#[test]
fn sort_dialog_goes_round() {
    let mut state = BucketListSortDialogState::default();
    assert_eq!(state.selected(), BucketListSortType::Default);
    state.select_next();
    assert_eq!(state.selected(), BucketListSortType::NameAsc);
    state.select_next();
    assert_eq!(state.selected(), BucketListSortType::NameDesc);
    state.select_next();
    assert_eq!(state.selected(), BucketListSortType::Default);
    state.select_prev();
    assert_eq!(state.selected(), BucketListSortType::NameDesc);
    state.select_prev();
    assert_eq!(state.selected(), BucketListSortType::NameAsc);
    state.reset();
    assert_eq!(state.selected(), BucketListSortType::Default);
}

#[test]
fn sort_types_have_labels() {
    assert_eq!(BucketListSortType::Default.str(), "Default");
    assert_eq!(BucketListSortType::NameAsc.str(), "Name (Asc)");
    assert_eq!(BucketListSortType::NameDesc.str(), "Name (Desc)");
    assert_eq!(BucketListSortType::NameDesc.next(), BucketListSortType::Default);
    assert_eq!(BucketListSortType::Default.prev(), BucketListSortType::NameDesc);
}

#[test]
fn input_takes_characters_and_backspace() {
    let mut state = InputDialogState::default();
    assert_eq!(state.input(), "");
    state.handle_key_event(Key::Backspace);
    assert_eq!(state.input(), "");
    state.handle_key_event(Key::Char('a'));
    state.handle_key_event(Key::Char('\u{e9}'));
    state.handle_key_event(Key::Char('c'));
    assert_eq!(state.input(), "a\u{e9}c");
    state.handle_key_event(Key::Backspace);
    state.handle_key_event(Key::Backspace);
    assert_eq!(state.input(), "a");
    state.handle_key_event(Key::Enter);
    state.handle_key_event(Key::Esc);
    state.handle_key_event(Key::Other);
    assert_eq!(state.input(), "a");
    state.clear_input();
    assert_eq!(state.input(), "");
}
