//! A plain description of markup: elements with attributes and children, and
//! texts. Pages are built as values of it and rendered by the host application.

use vstd::prelude::*;
use vstd::string::*;

verus! {

/// An attribute of an element.
pub struct Attr {
    pub name: String,
    pub value: String,
}

/// A markup node.
pub enum Node {
    Element { tag: String, attrs: Vec<Attr>, children: Vec<Node> },
    Text(String),
}

/// The names and values of `attrs`.
pub open spec fn attrs_view(attrs: Seq<Attr>) -> Seq<(Seq<char>, Seq<char>)> {
    attrs.map_values(|a: Attr| (a.name@, a.value@))
}

/// `n` is a text holding `s`.
pub open spec fn is_text(n: Node, s: Seq<char>) -> bool {
    match n {
        Node::Text(t) => t@ == s,
        _ => false,
    }
}

/// `n` is a `tag` element with attributes `attrs` and `count` children.
pub open spec fn is_element(
    n: Node,
    tag: Seq<char>,
    attrs: Seq<(Seq<char>, Seq<char>)>,
    count: nat,
) -> bool {
    match n {
        Node::Element { tag: t, attrs: a, children: c } => t@ == tag && attrs_view(a@) == attrs
            && c@.len() == count,
        _ => false,
    }
}

/// Child `i` of an element.
pub open spec fn child(n: Node, i: int) -> Node
    recommends
        n is Element,
{
    match n {
        Node::Element { children, .. } => children@[i],
        _ => n,
    }
}

/// `n` is a `tag` element with the single attribute `class` and the single text
/// child `text`.
pub open spec fn is_classed_text(n: Node, tag: Seq<char>, class: Seq<char>, text: Seq<char>) -> bool {
    is_element(n, tag, seq![("class"@, class)], 1) && is_text(child(n, 0), text)
}

/// `n` is a link to `href` whose only child is the text `label`.
pub open spec fn is_link(n: Node, href: Seq<char>, label: Seq<char>) -> bool {
    is_element(n, "a"@, seq![("href"@, href)], 1) && is_text(child(n, 0), label)
}

/// A text node.
pub fn text(s: &str) -> (r: Node)
    ensures
        is_text(r, s@),
{
    Node::Text(String::from_str(s))
}

/// An attribute.
pub fn attr(name: &str, value: &str) -> (r: Attr)
    ensures
        r.name@ == name@,
        r.value@ == value@,
{
    Attr { name: String::from_str(name), value: String::from_str(value) }
}

/// An element.
pub fn element(tag: &str, attrs: Vec<Attr>, children: Vec<Node>) -> (r: Node)
    ensures
        is_element(r, tag@, attrs_view(attrs@), children@.len()),
        forall|i: int| 0 <= i < children@.len() ==> child(r, i) == children@[i],
{
    Node::Element { tag: String::from_str(tag), attrs, children }
}

/// An element with one `class` attribute and one text child.
pub fn classed_text(tag: &str, class: &str, s: &str) -> (r: Node)
    ensures
        is_classed_text(r, tag@, class@, s@),
{
    let a = vec![attr("class", class)];
    proof {
        assert(attrs_view(a@) =~= seq![("class"@, class@)]);
    }
    element(tag, a, vec![text(s)])
}

/// A link to `href` labelled `label`.
pub fn link(href: &str, label: &str) -> (r: Node)
    ensures
        is_link(r, href@, label@),
{
    let a = vec![attr("href", href)];
    proof {
        assert(attrs_view(a@) =~= seq![("href"@, href@)]);
    }
    element("a", a, vec![text(label)])
}

} // verus!
