//! The pages of the documentation site: its navigation bar, sidebar, index page,
//! not-found page, and the route table that picks a page for a path.

use vstd::prelude::*;
use vstd::string::*;
use crate::text::same_range;
use crate::markup::{Attr, Node, attr, attrs_view, child, classed_text, element, is_classed_text, is_element, is_link, link};

verus! {

/// The documented components, as (path, label) pairs, in the order the index lists them.
pub open spec fn doc_index() -> Seq<(Seq<char>, Seq<char>)> {
    seq![
        ("/action_button"@, "ActionButton"@),
        ("/debug_console"@, "DebugConsole"@),
        ("/drawer"@, "Drawer"@),
        ("/dropdown"@, "Dropdown"@),
        ("/input_code"@, "InputCode"@),
        ("/modal"@, "Modal"@),
        ("/shell"@, "Shell"@),
        ("/stack_context"@, "StackContext"@),
        ("/tabs"@, "Tabs"@),
        ("/toasts"@, "Toasts"@),
    ]
}

fn doc_index_table() -> (r: Vec<(&'static str, &'static str)>)
    ensures
        r@.map_values(|p: (&'static str, &'static str)| (p.0@, p.1@)) == doc_index(),
{
    let r = vec![
        ("/action_button", "ActionButton"),
        ("/debug_console", "DebugConsole"),
        ("/drawer", "Drawer"),
        ("/dropdown", "Dropdown"),
        ("/input_code", "InputCode"),
        ("/modal", "Modal"),
        ("/shell", "Shell"),
        ("/stack_context", "StackContext"),
        ("/tabs", "Tabs"),
        ("/toasts", "Toasts"),
    ];
    assert(r@.map_values(|p: (&'static str, &'static str)| (p.0@, p.1@)) =~= doc_index());
    r
}

/// `n` is a list item whose only child is a link to `href` labelled `label`.
pub open spec fn is_link_item(n: Node, href: Seq<char>, label: Seq<char>) -> bool {
    is_element(n, "li"@, seq![], 1) && is_link(child(n, 0), href, label)
}

fn link_item(href: &str, label: &str) -> (r: Node)
    ensures
        is_link_item(r, href@, label@),
{
    let a: Vec<Attr> = Vec::new();
    proof {
        assert(attrs_view(a@) =~= seq![]);
    }
    element("li", a, vec![link(href, label)])
}

/// The navigation bar: a `nav` element titled "Wu Docs".
#[allow(non_snake_case)]
pub fn Navbar() -> (r: Node)
    ensures
        is_classed_text(r, "nav"@, "bg-blue-600 text-white p-4"@, "Wu Docs"@),
{
    classed_text("nav", "bg-blue-600 text-white p-4", "Wu Docs")
}

/// The sidebar: an `aside` holding a list with a link to the introduction.
#[allow(non_snake_case)]
pub fn Sidebar() -> (r: Node)
    ensures
        is_element(r, "aside"@, seq![("class"@, "w-64 p-4 bg-gray-100 h-screen"@)], 1),
        is_element(child(r, 0), "ul"@, seq![], 1),
        is_link_item(child(child(r, 0), 0), "/docs/intro"@, "Introduction"@),
{
    let none: Vec<Attr> = Vec::new();
    proof {
        assert(attrs_view(none@) =~= seq![]);
    }
    let list = element("ul", none, vec![link_item("/docs/intro", "Introduction")]);
    let a = vec![attr("class", "w-64 p-4 bg-gray-100 h-screen")];
    proof {
        assert(attrs_view(a@) =~= seq![("class"@, "w-64 p-4 bg-gray-100 h-screen"@)]);
    }
    element("aside", a, vec![list])
}

/// The index page: a heading and a list linking every documented component, in the
/// order of [`doc_index`].
#[allow(non_snake_case)]
pub fn Home() -> (r: Vec<Node>)
    ensures
        r@.len() == 2,
        is_classed_text(r@[0], "h1"@, "text-2xl"@, "Welcome to Wu Docs"@),
        is_element(r@[1], "ul"@, seq![], doc_index().len()),
        forall|i: int|
            0 <= i < doc_index().len() ==> is_link_item(
                #[trigger] child(r@[1], i),
                doc_index()[i].0,
                doc_index()[i].1,
            ),
{
    let table = doc_index_table();
    let mut items: Vec<Node> = Vec::new();
    let mut i: usize = 0;
    while i < table.len()
        invariant
            0 <= i <= table@.len(),
            table@.map_values(|p: (&'static str, &'static str)| (p.0@, p.1@)) == doc_index(),
            items@.len() == i,
            forall|j: int|
                0 <= j < i ==> is_link_item(
                    #[trigger] items@[j],
                    doc_index()[j].0,
                    doc_index()[j].1,
                ),
        decreases table@.len() - i,
    {
        let (href, label) = table[i];
        items.push(link_item(href, label));
        proof {
            let m = table@.map_values(|p: (&'static str, &'static str)| (p.0@, p.1@));
            assert(m[i as int] == (href@, label@));
        }
        i = i + 1;
    }
    proof {
        assert(table@.map_values(|p: (&'static str, &'static str)| (p.0@, p.1@)).len()
            == table@.len());
    }
    let none: Vec<Attr> = Vec::new();
    proof {
        assert(attrs_view(none@) =~= seq![]);
    }
    let heading = classed_text("h1", "text-2xl", "Welcome to Wu Docs");
    let list = element("ul", none, items);
    vec![heading, list]
}

/// The page shown for a path that no route matches.
#[allow(non_snake_case)]
pub fn NotFound() -> (r: Node)
    ensures
        is_classed_text(r, "h1"@, "text-red-600"@, "404: Page not found"@),
{
    classed_text("h1", "text-red-600", "404: Page not found")
}

/// The pages the site can show.
#[derive(Clone, Copy, Debug, PartialEq, Eq, Structural)]
pub enum DocPage {
    Home,
    ActionButton,
    Drawer,
    Dropdown,
    InputCode,
    Modal,
    NotFound,
}

/// A route: a path and the page shown there.
#[derive(Clone, Copy, Debug)]
pub struct Route {
    pub path: &'static str,
    pub page: DocPage,
}

/// The paths and pages of the site's routes, in matching order.
pub open spec fn doc_routes() -> Seq<(Seq<char>, DocPage)> {
    seq![
        ("/"@, DocPage::Home),
        ("action_button"@, DocPage::ActionButton),
        ("debug_console"@, DocPage::NotFound),
        ("drawer"@, DocPage::Drawer),
        ("dropdown"@, DocPage::Dropdown),
        ("input_code"@, DocPage::InputCode),
        ("fallible_reactive_input"@, DocPage::NotFound),
        ("modal"@, DocPage::Modal),
        ("shell"@, DocPage::NotFound),
        ("stack_context"@, DocPage::NotFound),
        ("tabs"@, DocPage::NotFound),
        ("toasts"@, DocPage::NotFound),
    ]
}

/// The paths and pages of `routes`.
pub open spec fn routes_view(routes: Seq<Route>) -> Seq<(Seq<char>, DocPage)> {
    routes.map_values(|r: Route| (r.path@, r.page))
}

/// A path without one leading and one trailing slash.
pub open spec fn trim_slashes(s: Seq<char>) -> Seq<char> {
    let a = if s.len() > 0 && s[0] == '/' {
        s.subrange(1, s.len() as int)
    } else {
        s
    };
    if a.len() > 0 && a.last() == '/' {
        a.drop_last()
    } else {
        a
    }
}

/// The page of the first route whose path equals `path`, slashes at either end
/// aside; [`DocPage::NotFound`] when none does.
pub open spec fn page_for(routes: Seq<(Seq<char>, DocPage)>, path: Seq<char>) -> DocPage
    decreases routes.len(),
{
    if routes.len() == 0 {
        DocPage::NotFound
    } else if trim_slashes(routes[0].0) == trim_slashes(path) {
        routes[0].1
    } else {
        page_for(routes.subrange(1, routes.len() as int), path)
    }
}

/// The route table of the site; a path that matches none shows the not-found page.
#[allow(non_snake_case)]
pub fn App() -> (r: Vec<Route>)
    ensures
        routes_view(r@) == doc_routes(),
{
    let r = vec![
        Route { path: "/", page: DocPage::Home },
        Route { path: "action_button", page: DocPage::ActionButton },
        Route { path: "debug_console", page: DocPage::NotFound },
        Route { path: "drawer", page: DocPage::Drawer },
        Route { path: "dropdown", page: DocPage::Dropdown },
        Route { path: "input_code", page: DocPage::InputCode },
        Route { path: "fallible_reactive_input", page: DocPage::NotFound },
        Route { path: "modal", page: DocPage::Modal },
        Route { path: "shell", page: DocPage::NotFound },
        Route { path: "stack_context", page: DocPage::NotFound },
        Route { path: "tabs", page: DocPage::NotFound },
        Route { path: "toasts", page: DocPage::NotFound },
    ];
    assert(routes_view(r@) =~= doc_routes());
    r
}

/// The bounds of `s` without one leading and one trailing slash.
fn trimmed_bounds(s: &str) -> (r: (usize, usize))
    ensures
        r.0 <= r.1 <= s@.len(),
        s@.subrange(r.0 as int, r.1 as int) == trim_slashes(s@),
{
    let n = s.unicode_len();
    let lo: usize = if n > 0 && s.get_char(0) == '/' {
        1
    } else {
        0
    };
    let hi: usize = if n > lo && s.get_char(n - 1) == '/' {
        n - 1
    } else {
        n
    };
    proof {
        let a = if s@.len() > 0 && s@[0] == '/' {
            s@.subrange(1, s@.len() as int)
        } else {
            s@
        };
        assert(a =~= s@.subrange(lo as int, n as int));
        if n > lo && s@[n - 1] == '/' {
            assert(a.last() == s@[n - 1]);
            assert(a.drop_last() =~= s@.subrange(lo as int, hi as int));
        } else {
            assert(a =~= s@.subrange(lo as int, hi as int));
        }
    }
    (lo, hi)
}

/// The page that `routes` show at `path`.
pub fn route_page(routes: &Vec<Route>, path: &str) -> (r: DocPage)
    ensures
        r == page_for(routes_view(routes@), path@),
{
    let (plo, phi) = trimmed_bounds(path);
    assert(routes_view(routes@).subrange(0, routes@.len() as int) =~= routes_view(routes@));
    let mut i: usize = 0;
    while i < routes.len()
        invariant
            0 <= i <= routes@.len(),
            plo <= phi <= path@.len(),
            path@.subrange(plo as int, phi as int) == trim_slashes(path@),
            page_for(routes_view(routes@), path@) == page_for(
                routes_view(routes@).subrange(i as int, routes@.len() as int),
                path@,
            ),
        decreases routes@.len() - i,
    {
        let route = routes[i];
        let (rlo, rhi) = trimmed_bounds(route.path);
        let ghost rest = routes_view(routes@).subrange(i as int, routes@.len() as int);
        assert(rest[0] == (route.path@, route.page));
        if same_range(route.path, rlo, rhi, path, plo, phi) {
            return route.page;
        }
        assert(rest.subrange(1, rest.len() as int) =~= routes_view(routes@).subrange(
            i + 1,
            routes@.len() as int,
        ));
        i = i + 1;
    }
    DocPage::NotFound
}

} // verus!
