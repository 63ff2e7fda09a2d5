use stu_core::event::Key;
use stu_core::object::BucketItem;
use stu_core::pages::bucket_list::BucketListPage;
use stu_core::pages::bucket_order::shown_before;
use stu_core::util::split_str;
use stu_core::widget::BucketListSortType;

fn passes(name: &str, filter: &str) -> bool {
    let mut page = BucketListPage::new(vec![BucketItem { name: name.to_string() }]);
    page.handle_key(Key::Char('/'));
    for c in filter.chars() {
        page.handle_key(Key::Char(c));
    }
    page.non_empty()
}

fn less(a: &str, b: &str) -> bool {
    let items = vec![BucketItem { name: a.to_string() }, BucketItem { name: b.to_string() }];
    a != b && shown_before(&items, BucketListSortType::NameAsc, 0, 1)
}

#[test]
fn filter_finds_a_part_anywhere() {
    assert!(passes("foobar", "oba"));
    assert!(passes("foobar", ""));
    assert!(passes("", ""));
    assert!(passes("foobar", "foobar"));
    assert!(passes("\u{e9}t\u{e9}", "t\u{e9}"));
    assert!(!passes("foobar", "baz"));
    assert!(!passes("foo", "fooo"));
    assert!(!passes("", "a"));
}

#[test]
fn split_str_cuts_at_the_first_match() {
    assert_eq!(split_str("foobar", "ob"), Some(("fo", "ob", "ar")));
    assert_eq!(split_str("banana", "an"), Some(("b", "an", "ana")));
    assert_eq!(split_str("a=b=c", "="), Some(("a", "=", "b=c")));
    assert_eq!(split_str("abc", "abc"), Some(("", "abc", "")));
    assert_eq!(split_str("abc", ""), Some(("", "", "abc")));
    assert_eq!(split_str("foobar", "x"), None);
    assert_eq!(split_str("\u{e9}t\u{e9}", "t"), Some(("\u{e9}", "t", "\u{e9}")));
}

#[test]
fn names_stand_in_the_order_of_texts() {
    assert!(less("", "a"));
    assert!(less("a", "ab"));
    assert!(less("ab", "b"));
    assert!(less("B", "a"));
    assert!(less("z", "\u{e9}"));
    assert!(less("\u{e9}", "\u{1f600}"));
    assert!(!less("b", "ab"));
    assert!(!less("b", "a"));
    assert!(!less("ab", "a"));
}

#[test]
fn shown_before_breaks_ties_by_place() {
    let items = vec![
        BucketItem { name: "b".to_string() },
        BucketItem { name: "a".to_string() },
        BucketItem { name: "b".to_string() },
    ];
    assert!(shown_before(&items, BucketListSortType::Default, 0, 1));
    assert!(!shown_before(&items, BucketListSortType::Default, 1, 0));
    assert!(!shown_before(&items, BucketListSortType::Default, 1, 1));
    assert!(shown_before(&items, BucketListSortType::NameAsc, 1, 0));
    assert!(shown_before(&items, BucketListSortType::NameAsc, 0, 2));
    assert!(!shown_before(&items, BucketListSortType::NameAsc, 2, 0));
    assert!(shown_before(&items, BucketListSortType::NameDesc, 0, 1));
    assert!(shown_before(&items, BucketListSortType::NameDesc, 0, 2));
    assert!(!shown_before(&items, BucketListSortType::NameDesc, 2, 0));
    assert!(!shown_before(&items, BucketListSortType::NameDesc, 1, 2));
}
