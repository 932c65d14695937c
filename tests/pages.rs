use wu::demo::{brand_markup, Brand, Modals};
use wu::docs::{route_page, App, DocPage, Home, Navbar, NotFound, Sidebar};
use wu::classes::{has_no_dangling_backslash, join_classes};
use wu::markup::{Attr, Node};

fn text_of(n: &Node) -> &str {
    match n {
        Node::Text(t) => t.as_str(),
        _ => panic!("not a text"),
    }
}

fn parts(n: &Node) -> (&str, &Vec<Attr>, &Vec<Node>) {
    match n {
        Node::Element { tag, attrs, children } => (tag.as_str(), attrs, children),
        _ => panic!("not an element"),
    }
}

fn attr<'a>(attrs: &'a Vec<Attr>, name: &str) -> Option<&'a str> {
    attrs.iter().find(|a| a.name == name).map(|a| a.value.as_str())
}

#[test]
fn navbar_and_not_found() {
    let nav = Navbar();
    let (tag, attrs, children) = parts(&nav);
    assert_eq!(tag, "nav");
    assert_eq!(attr(attrs, "class"), Some("bg-blue-600 text-white p-4"));
    assert_eq!(text_of(&children[0]), "Wu Docs");
    let nf = NotFound();
    let (tag, _, children) = parts(&nf);
    assert_eq!(tag, "h1");
    assert_eq!(text_of(&children[0]), "404: Page not found");
}

#[test]
fn sidebar_links_to_the_introduction() {
    let side = Sidebar();
    let (tag, _, children) = parts(&side);
    assert_eq!(tag, "aside");
    let (ul, _, items) = parts(&children[0]);
    assert_eq!(ul, "ul");
    let (li, _, link) = parts(&items[0]);
    assert_eq!(li, "li");
    let (a, attrs, label) = parts(&link[0]);
    assert_eq!(a, "a");
    assert_eq!(attr(attrs, "href"), Some("/docs/intro"));
    assert_eq!(text_of(&label[0]), "Introduction");
}

#[test]
fn home_lists_every_component() {
    let home = Home();
    assert_eq!(home.len(), 2);
    let (_, _, heading) = parts(&home[0]);
    assert_eq!(text_of(&heading[0]), "Welcome to Wu Docs");
    let (_, _, items) = parts(&home[1]);
    assert_eq!(items.len(), 10);
    let (_, _, first) = parts(&items[0]);
    let (_, attrs, label) = parts(&first[0]);
    assert_eq!(attr(attrs, "href"), Some("/action_button"));
    assert_eq!(text_of(&label[0]), "ActionButton");
    let (_, _, last) = parts(&items[9]);
    let (_, attrs, label) = parts(&last[0]);
    assert_eq!(attr(attrs, "href"), Some("/toasts"));
    assert_eq!(text_of(&label[0]), "Toasts");
}

#[test]
fn routes_pick_pages() {
    let routes = App();
    assert_eq!(routes.len(), 12);
    assert_eq!(route_page(&routes, "/"), DocPage::Home);
    assert_eq!(route_page(&routes, ""), DocPage::Home);
    assert_eq!(route_page(&routes, "/action_button"), DocPage::ActionButton);
    assert_eq!(route_page(&routes, "/modal/"), DocPage::Modal);
    assert_eq!(route_page(&routes, "dropdown"), DocPage::Dropdown);
    assert_eq!(route_page(&routes, "/tabs"), DocPage::NotFound);
    assert_eq!(route_page(&routes, "/nowhere"), DocPage::NotFound);
    assert_eq!(route_page(&routes, "/drawer/x"), DocPage::NotFound);
}

#[test]
fn brand_merges_conflicting_classes() {
    let b = Brand("text-2xl", vec![Attr { name: "id".to_string(), value: "logo".to_string() }]);
    let (tag, attrs, children) = parts(&b);
    assert_eq!(tag, "div");
    assert_eq!(attr(attrs, "id"), Some("logo"));
    let class = attr(attrs, "class").unwrap();
    assert_eq!(class, "tablet:text-3xl font-bold select-none text-2xl");
    assert_eq!(text_of(&children[0]), "wu");
}

#[test]
fn brand_markup_places_class_last() {
    let b = brand_markup("a b".to_string(), vec![]);
    let (_, attrs, _) = parts(&b);
    assert_eq!(attrs.len(), 1);
    assert_eq!(attrs[0].name, "class");
    assert_eq!(attrs[0].value, "a b");
}

#[test]
fn modal_demo_page() {
    let page = Modals();
    assert_eq!(page.len(), 2);
    let (tag, attrs, label) = parts(&page[0]);
    assert_eq!(tag, "button");
    assert_eq!(attr(attrs, "popovertarget"), Some("wu-modal-demo"));
    assert_eq!(text_of(&label[0]), "Open modal");
    let (tag, attrs, body) = parts(&page[1]);
    assert_eq!(tag, "dialog");
    assert_eq!(attr(attrs, "id"), Some("wu-modal-demo"));
    let (_, _, inner) = parts(&body[0]);
    assert_eq!(inner.len(), 3);
    let (_, _, h) = parts(&inner[0]);
    assert_eq!(text_of(&h[0]), "A modal demo");
}

#[test]
fn class_lists_are_trimmed_and_empty_ones_skipped() {
    assert_eq!(join_classes(&vec![" a ", "", "  ", "b c"]), "a b c");
    assert_eq!(join_classes(&vec![]), "");
    let plain = Brand("", vec![]);
    let (_, attrs, _) = parts(&plain);
    assert_eq!(attr(attrs, "class"), Some("text-xl tablet:text-3xl font-bold select-none"));
}

#[test]
fn dangling_backslashes_are_detected() {
    assert!(has_no_dangling_backslash("bg-[a\\]b] p-2"));
    assert!(!has_no_dangling_backslash("bg-[a\\"));
    assert!(!has_no_dangling_backslash("bg-[a\\ p-2"));
    assert!(has_no_dangling_backslash(""));
    let b = Brand("w-[1px\\,]", vec![]);
    let (_, attrs, _) = parts(&b);
    assert!(attr(attrs, "class").is_some());
}
