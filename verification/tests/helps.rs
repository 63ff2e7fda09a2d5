use stu_core::event::Key;
use stu_core::object::BucketItem;
use stu_core::pages::bucket_list::BucketListPage;
use stu_core::pages::util::{build_help, build_helps, build_short_helps};

fn some_page() -> BucketListPage {
    let items =
        ["foo", "bar"].iter().map(|name| BucketItem { name: name.to_string() }).collect();
    BucketListPage::new(items)
}

#[test]
fn help_line_puts_keys_in_brackets() {
    assert_eq!(build_help(&["Esc", "Ctrl-c"], "Quit app"), "<Esc> <Ctrl-c>: Quit app");
    assert_eq!(build_help(&["j/k"], "Select item"), "<j/k>: Select item");
    assert_eq!(build_help(&[], "Nothing"), ": Nothing");
}

#[test]
fn help_lines_keep_the_order_of_the_table() {
    let lines = build_helps(&[(&["a", "b", "c"], "First"), (&["d"], "Second")]);
    assert_eq!(lines, vec!["<a> <b> <c>: First".to_string(), "<d>: Second".to_string()]);
    let lines = build_short_helps(&[(&["a"], "First", 3), (&["d"], "Second", 0)]);
    assert_eq!(lines, vec![("<a>: First".to_string(), 3), ("<d>: Second".to_string(), 0)]);
}

#[test]
fn helps_of_the_list() {
    let page = some_page();
    assert_eq!(
        page.helps(),
        vec![
            "<Esc> <Ctrl-c>: Quit app",
            "<j/k>: Select item",
            "<g/G>: Go to top/bottom",
            "<f>: Scroll page forward",
            "<b>: Scroll page backward",
            "<Enter>: Open bucket",
            "</>: Filter bucket list",
            "<o>: Sort bucket list",
            "<x>: Open management console in browser",
        ]
    );
    assert_eq!(
        page.short_helps(),
        vec![
            ("<Esc>: Quit".to_string(), 0),
            ("<j/k>: Select".to_string(), 1),
            ("<g/G>: Top/Bottom".to_string(), 5),
            ("<Enter>: Open".to_string(), 2),
            ("</>: Filter".to_string(), 3),
            ("<o>: Sort".to_string(), 4),
            ("<?>: Help".to_string(), 0),
        ]
    );
}

#[test]
fn helps_of_the_filtered_list() {
    let mut page = some_page();
    page.handle_key(Key::Char('/'));
    page.handle_key(Key::Char('b'));
    page.handle_key(Key::Enter);
    assert_eq!(
        page.helps(),
        vec![
            "<Ctrl-c>: Quit app",
            "<Esc>: Clear filter",
            "<j/k>: Select item",
            "<g/G>: Go to top/bottom",
            "<f>: Scroll page forward",
            "<b>: Scroll page backward",
            "<Enter>: Open bucket",
            "</>: Filter bucket list",
            "<o>: Sort bucket list",
            "<x>: Open management console in browser",
        ]
    );
    assert_eq!(
        page.short_helps(),
        vec![
            ("<Esc>: Clear filter".to_string(), 0),
            ("<j/k>: Select".to_string(), 1),
            ("<g/G>: Top/Bottom".to_string(), 4),
            ("<Enter>: Open".to_string(), 2),
            ("</>: Filter".to_string(), 3),
            ("<o>: Sort".to_string(), 4),
            ("<?>: Help".to_string(), 0),
        ]
    );
}

#[test]
fn helps_of_the_filter_dialog() {
    let mut page = some_page();
    page.handle_key(Key::Char('/'));
    assert_eq!(
        page.helps(),
        vec!["<Ctrl-c>: Quit app", "<Esc>: Close filter dialog", "<Enter>: Apply filter"]
    );
    assert_eq!(
        page.short_helps(),
        vec![
            ("<Esc>: Close".to_string(), 2),
            ("<Enter>: Filter".to_string(), 1),
            ("<?>: Help".to_string(), 0),
        ]
    );
}

#[test]
fn helps_of_the_sort_dialog() {
    let mut page = some_page();
    page.handle_key(Key::Char('o'));
    assert_eq!(
        page.helps(),
        vec![
            "<Ctrl-c>: Quit app",
            "<Esc>: Close sort dialog",
            "<j/k>: Select item",
            "<Enter>: Apply sort",
        ]
    );
    assert_eq!(
        page.short_helps(),
        vec![
            ("<Esc>: Close".to_string(), 2),
            ("<j/k>: Select".to_string(), 3),
            ("<Enter>: Sort".to_string(), 1),
            ("<?>: Help".to_string(), 0),
        ]
    );
}
