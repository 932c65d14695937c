use wu::paging::{has_next_page, has_previous_page, page_count};
use wu::theme::Theme;
use wu::util::{nested_option_memo_compare_fn, route_in_set, route_match, MsgChannel};

#[test]
fn route_matching() {
    assert!(route_match("/docs", "/docs"));
    assert!(route_match("/docs", "/docs/"));
    assert!(!route_match("/docs", "/docs/intro"));
    assert!(route_match("/docs/*", "/docs/intro"));
    assert!(!route_match("/docs/*", "/doc"));
    assert!(route_match("*", "/anything"));
    assert!(route_in_set(&vec!["/a", "/b/*"], "/b/c"));
    assert!(!route_in_set(&vec!["/a", "/b/*"], "/c"));
    assert!(!route_in_set(&vec![], "/c"));
}

#[test]
fn nested_option_changes() {
    let some = Some(3);
    let none: Option<i32> = None;
    assert!(nested_option_memo_compare_fn(Some(&some), None));
    assert!(nested_option_memo_compare_fn(None, Some(&none)));
    assert!(nested_option_memo_compare_fn(Some(&some), Some(&none)));
    assert!(!nested_option_memo_compare_fn(Some(&some), Some(&Some(4))));
    assert!(!nested_option_memo_compare_fn::<i32>(None, None));
}

#[test]
fn messages_are_consumed_once() {
    let mut c = MsgChannel::new();
    c.push("a");
    c.push("b");
    assert_eq!(c.consume(), vec!["a", "b"]);
    assert!(c.consume().is_empty());
}

#[test]
fn pages_and_navigation() {
    assert_eq!(page_count(0, 10), 0);
    assert_eq!(page_count(10, 10), 1);
    assert_eq!(page_count(11, 10), 2);
    assert_eq!(page_count(5, 0), 1);
    assert_eq!(page_count(u64::MAX, 2), u64::MAX / 2 + 1);
    assert!(!has_previous_page(0));
    assert!(has_previous_page(1));
    assert!(has_next_page(0, 11, 10));
    assert!(!has_next_page(1, 11, 10));
    assert!(!has_next_page(0, 5, 0));
}

#[test]
fn theme_resolution() {
    assert!(Theme::Auto.is_dark(true));
    assert!(!Theme::Auto.is_dark(false));
    assert!(Theme::Dark.is_dark(false));
    assert!(!Theme::Light.is_dark(true));
    assert_eq!(Theme::or_auto(None), Theme::Auto);
    assert_eq!(Theme::or_auto(Some(Theme::Dark)), Theme::Dark);
}
