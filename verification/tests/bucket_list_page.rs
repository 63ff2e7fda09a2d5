use stu_core::event::{AppEventType, Key};
use stu_core::object::BucketItem;
use stu_core::pages::bucket_list::{BucketListPage, ViewState};
use stu_core::pages::bucket_rows::{build_list_item, build_list_items};
use stu_core::widget::BucketListSortType;

fn page_of(names: &[&str]) -> BucketListPage {
    let items = names.iter().map(|name| BucketItem { name: name.to_string() }).collect();
    BucketListPage::new(items)
}

fn numbered(count: usize) -> BucketListPage {
    let items = (0..count).map(|i| BucketItem { name: format!("bucket{}", i + 1) }).collect();
    BucketListPage::new(items)
}

#[test]
fn test_filter_items() {
    let mut page = page_of(&["foo", "bar", "baz", "qux", "foobar"]);

    page.handle_key(Key::Char('/'));
    page.handle_key(Key::Char('b'));
    page.handle_key(Key::Char('a'));

    assert_eq!(page.view_indices(), &vec![1, 2, 4]);

    page.handle_key(Key::Char('r'));

    assert_eq!(page.view_indices(), &vec![1, 4]);

    page.handle_key(Key::Char('r'));

    assert!(page.view_indices().is_empty());

    page.handle_key(Key::Backspace);
    page.handle_key(Key::Backspace);

    assert_eq!(page.view_indices(), &vec![1, 2, 4]);

    page.handle_key(Key::Esc);

    assert_eq!(page.view_indices(), &vec![0, 1, 2, 3, 4]);
}

#[test]
fn test_sort_items() {
    let mut page = page_of(&["foo", "bar", "baz", "qux", "foobar"]);

    page.handle_key(Key::Char('o'));

    page.handle_key(Key::Char('j')); // select NameAsc

    assert_eq!(page.view_indices(), &vec![1, 2, 0, 4, 3]);

    page.handle_key(Key::Char('j')); // select NameDesc
    page.handle_key(Key::Enter);

    assert_eq!(page.view_indices(), &vec![3, 4, 0, 2, 1]);

    page.handle_key(Key::Char('o'));
    page.handle_key(Key::Char('k')); // select NameAsc

    assert_eq!(page.view_indices(), &vec![1, 2, 0, 4, 3]);

    page.handle_key(Key::Esc);

    assert_eq!(page.view_indices(), &vec![0, 1, 2, 3, 4]);
}

#[test]
fn test_filter_and_sort_items() {
    let mut page = page_of(&["foo", "bar", "baz", "qux", "foobar"]);

    page.handle_key(Key::Char('/'));
    page.handle_key(Key::Char('b'));
    page.handle_key(Key::Char('a'));
    page.handle_key(Key::Enter);

    assert_eq!(page.view_indices(), &vec![1, 2, 4]);

    page.handle_key(Key::Char('o'));
    page.handle_key(Key::Char('j'));
    page.handle_key(Key::Char('j'));
    page.handle_key(Key::Enter);

    assert_eq!(page.view_indices(), &vec![4, 2, 1]);

    page.handle_key(Key::Esc);

    assert_eq!(page.view_indices(), &vec![3, 4, 0, 2, 1]);

    page.handle_key(Key::Char('/'));
    page.handle_key(Key::Char('f'));
    page.handle_key(Key::Char('o'));
    page.handle_key(Key::Enter);

    assert_eq!(page.view_indices(), &vec![4, 0]);

    page.handle_key(Key::Char('o'));
    page.handle_key(Key::Esc);

    assert_eq!(page.view_indices(), &vec![0, 4]);
}

#[test]
fn new_page_shows_every_bucket_and_selects_the_first() {
    let page = page_of(&["foo", "bar", "baz"]);
    assert_eq!(page.view_indices(), &vec![0, 1, 2]);
    assert_eq!(page.view_state(), ViewState::Default);
    assert_eq!(page.filter_input(), "");
    assert_eq!(page.sort_selected(), BucketListSortType::Default);
    assert_eq!(page.list_state().selected(), 0);
    assert_eq!(page.list_state().offset(), 0);
    assert_eq!(page.list_state().total(), 3);
    assert!(page.non_empty());
    assert_eq!(page.current_selected_item().name, "foo");
}

#[test]
fn page_without_buckets_is_empty_and_ignores_moves() {
    let mut page = page_of(&[]);
    assert!(!page.non_empty());
    assert_eq!(page.handle_key(Key::Enter), None);
    assert_eq!(page.handle_key(Key::Char('x')), None);
    assert_eq!(page.handle_key(Key::Char('j')), None);
    assert_eq!(page.list_state().selected(), 0);
    assert_eq!(page.handle_key(Key::Esc), Some(AppEventType::Quit));
}

#[test]
fn keys_on_the_list_ask_the_application() {
    let mut page = page_of(&["foo", "bar"]);
    assert_eq!(page.handle_key(Key::Esc), Some(AppEventType::Quit));
    assert_eq!(page.handle_key(Key::Enter), Some(AppEventType::BucketListMoveDown));
    assert_eq!(
        page.handle_key(Key::Char('x')),
        Some(AppEventType::BucketListOpenManagementConsole)
    );
    assert_eq!(page.handle_key(Key::Char('?')), Some(AppEventType::OpenHelp));
    assert_eq!(page.handle_key(Key::Char('z')), None);
    assert_eq!(page.handle_key(Key::Other), None);
    assert_eq!(page.view_state(), ViewState::Default);
    assert_eq!(page.view_indices(), &vec![0, 1]);
}

#[test]
fn selection_moves_with_j_k_g_and_capital_g() {
    let mut page = page_of(&["foo", "bar", "baz"]);
    page.handle_key(Key::Char('j'));
    assert_eq!(page.current_selected_item().name, "bar");
    page.handle_key(Key::Char('j'));
    assert_eq!(page.current_selected_item().name, "baz");
    page.handle_key(Key::Char('j'));
    assert_eq!(page.current_selected_item().name, "foo");
    page.handle_key(Key::Char('k'));
    assert_eq!(page.current_selected_item().name, "baz");
    page.handle_key(Key::Char('g'));
    assert_eq!(page.current_selected_item().name, "foo");
    page.handle_key(Key::Char('G'));
    assert_eq!(page.current_selected_item().name, "baz");
}

#[test]
fn selection_follows_the_order_shown() {
    let mut page = page_of(&["foo", "bar", "baz", "qux", "foobar"]);
    page.handle_key(Key::Char('o'));
    page.handle_key(Key::Char('j'));
    page.handle_key(Key::Enter);
    assert_eq!(page.current_selected_item().name, "bar");
    page.handle_key(Key::Char('G'));
    assert_eq!(page.current_selected_item().name, "qux");
}

#[test]
fn pages_move_by_the_height_of_the_list() {
    let mut page = numbered(16);
    page.set_list_height(8);
    page.handle_key(Key::Char('f'));
    assert_eq!(page.list_state().selected(), 8);
    assert_eq!(page.list_state().offset(), 8);
    page.handle_key(Key::Char('f'));
    assert_eq!(page.list_state().selected(), 15);
    assert_eq!(page.list_state().offset(), 8);
    page.handle_key(Key::Char('b'));
    assert_eq!(page.list_state().selected(), 7);
    assert_eq!(page.list_state().offset(), 0);
    page.handle_key(Key::Char('b'));
    assert_eq!(page.list_state().selected(), 0);
    assert_eq!(page.list_state().offset(), 0);
}

#[test]
fn dialogs_open_and_close() {
    let mut page = page_of(&["foo", "bar"]);
    assert_eq!(page.handle_key(Key::Char('/')), None);
    assert_eq!(page.view_state(), ViewState::FilterDialog);
    assert_eq!(page.handle_key(Key::Char('?')), Some(AppEventType::OpenHelp));
    assert_eq!(page.filter_input(), "");
    page.handle_key(Key::Char('o'));
    assert_eq!(page.filter_input(), "o");
    assert_eq!(page.view_state(), ViewState::FilterDialog);
    page.handle_key(Key::Esc);
    assert_eq!(page.view_state(), ViewState::Default);
    assert_eq!(page.filter_input(), "");

    assert_eq!(page.handle_key(Key::Char('o')), None);
    assert_eq!(page.view_state(), ViewState::SortDialog);
    assert_eq!(page.handle_key(Key::Char('?')), Some(AppEventType::OpenHelp));
    page.handle_key(Key::Char('k'));
    assert_eq!(page.sort_selected(), BucketListSortType::NameDesc);
    page.handle_key(Key::Char('j'));
    assert_eq!(page.sort_selected(), BucketListSortType::Default);
    page.handle_key(Key::Char('j'));
    page.handle_key(Key::Enter);
    assert_eq!(page.view_state(), ViewState::Default);
    assert_eq!(page.sort_selected(), BucketListSortType::NameAsc);
}

#[test]
fn escape_clears_a_filter_before_it_quits() {
    let mut page = page_of(&["foo", "bar"]);
    page.handle_key(Key::Char('/'));
    page.handle_key(Key::Char('b'));
    page.handle_key(Key::Enter);
    assert_eq!(page.view_indices(), &vec![1]);
    assert_eq!(page.handle_key(Key::Esc), None);
    assert_eq!(page.filter_input(), "");
    assert_eq!(page.view_indices(), &vec![0, 1]);
    assert_eq!(page.handle_key(Key::Esc), Some(AppEventType::Quit));
}

#[test]
fn filtering_starts_the_list_over() {
    let mut page = numbered(16);
    page.set_list_height(8);
    page.handle_key(Key::Char('G'));
    assert_eq!(page.list_state().selected(), 15);
    page.handle_key(Key::Char('/'));
    page.handle_key(Key::Char('1'));
    assert_eq!(page.view_indices(), &vec![0, 9, 10, 11, 12, 13, 14, 15]);
    assert_eq!(page.list_state().selected(), 0);
    assert_eq!(page.list_state().offset(), 0);
    assert_eq!(page.list_state().total(), 8);
    assert_eq!(page.list_state().height(), 0);
}

#[test]
fn buckets_of_one_name_keep_their_order() {
    let mut page = page_of(&["b", "a", "b", "a"]);
    page.handle_key(Key::Char('o'));
    page.handle_key(Key::Char('j'));
    assert_eq!(page.view_indices(), &vec![1, 3, 0, 2]);
    page.handle_key(Key::Char('j'));
    assert_eq!(page.view_indices(), &vec![0, 2, 1, 3]);
    page.handle_key(Key::Char('j'));
    assert_eq!(page.view_indices(), &vec![0, 1, 2, 3]);
}

#[test]
fn names_are_ordered_by_character_code() {
    let mut page = page_of(&["b", "B", "\u{e9}", "ab", "a", ""]);
    page.handle_key(Key::Char('o'));
    page.handle_key(Key::Char('j'));
    assert_eq!(page.view_indices(), &vec![5, 1, 4, 3, 0, 2]);
}

#[test]
fn rows_without_a_filter_hold_the_whole_name() {
    let page = page_of(&["bucket1", "bucket2", "bucket3"]);
    let rows = page.list_items(10);
    assert_eq!(rows.len(), 3);
    assert_eq!(rows[0].before, "");
    assert_eq!(rows[0].highlighted, "");
    assert_eq!(rows[0].after, "bucket1");
    assert!(rows[0].selected);
    assert_eq!(rows[2].after, "bucket3");
    assert!(!rows[2].selected);
}

#[test]
fn rows_stop_at_the_border() {
    let mut page = numbered(16);
    let rows = page.list_items(10);
    assert_eq!(rows.len(), 8);
    assert_eq!(rows[7].after, "bucket8");
    page.set_list_height(8);
    page.handle_key(Key::Char('G'));
    let rows = page.list_items(10);
    assert_eq!(rows.len(), 8);
    assert_eq!(rows[0].after, "bucket9");
    assert_eq!(rows[7].after, "bucket16");
    assert!(rows[7].selected);
    assert!(!rows[0].selected);
    assert_eq!(page.list_items(2).len(), 0);
    assert_eq!(page.list_items(3).len(), 1);
}

#[test]
fn rows_with_a_filter_are_cut_at_the_first_match() {
    let mut page = page_of(&["foo", "bar", "baz", "qux", "foobar"]);
    page.handle_key(Key::Char('/'));
    page.handle_key(Key::Char('b'));
    page.handle_key(Key::Char('a'));
    let rows = page.list_items(10);
    assert_eq!(rows.len(), 3);
    assert_eq!((rows[0].before, rows[0].highlighted, rows[0].after), ("", "ba", "r"));
    assert_eq!((rows[1].before, rows[1].highlighted, rows[1].after), ("", "ba", "z"));
    assert_eq!((rows[2].before, rows[2].highlighted, rows[2].after), ("foo", "ba", "r"));
    assert!(rows[0].selected);
}

#[test]
fn one_row_is_cut_at_the_first_of_two_matches() {
    let row = build_list_item("banana", true, "an");
    assert_eq!((row.before, row.highlighted, row.after), ("b", "an", "ana"));
    assert!(row.selected);
    let row = build_list_item("banana", false, "");
    assert_eq!((row.before, row.highlighted, row.after), ("", "", "banana"));
    assert!(!row.selected);
}

#[test]
fn rows_are_built_from_an_offset() {
    let items: Vec<BucketItem> =
        ["a", "b", "c", "d"].iter().map(|n| BucketItem { name: n.to_string() }).collect();
    let order = vec![3, 2, 1, 0];
    let rows = build_list_items(&items, &order, "", 1, 2, 4);
    assert_eq!(rows.len(), 2);
    assert_eq!(rows[0].after, "c");
    assert!(!rows[0].selected);
    assert_eq!(rows[1].after, "b");
    assert!(rows[1].selected);
    assert_eq!(build_list_items(&items, &order, "", 4, 0, 10).len(), 0);
}
