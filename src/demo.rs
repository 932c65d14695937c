//! Pieces of the demo site: the brand mark and the modal demonstration page.

use vstd::prelude::*;
use vstd::string::*;
use crate::classes::{join_classes, lemma_no_backslash_none_dangling, merge_classes, no_backslash, no_dangling_backslash, tw_joined, tw_merged, views_of};
use crate::markup::{Attr, Node, attr, attrs_view, child, classed_text, element, is_classed_text, is_element, is_text, text};

verus! {

/// The classes the brand mark always has, before the caller's.
pub open spec fn brand_base_class() -> Seq<char> {
    "text-xl tablet:text-3xl font-bold select-none"@
}

/// The brand mark with the class list `class`: a `div` with the caller's attributes
/// followed by `class`, holding the text "wu".
pub fn brand_markup(class: String, attrs: Vec<Attr>) -> (r: Node)
    ensures
        is_element(r, "div"@, attrs_view(attrs@) + seq![("class"@, class@)], 1),
        is_text(child(r, 0), "wu"@),
{
    let mut a = attrs;
    let ghost before = a@;
    a.push(Attr { name: String::from_str("class"), value: class });
    proof {
        assert(attrs_view(a@) =~= attrs_view(before) + seq![("class"@, class@)]);
    }
    element("div", a, vec![text("wu")])
}

/// The brand mark: its base classes and the caller's `class`, joined and merged,
/// later ones winning conflicts.
#[allow(non_snake_case)]
pub fn Brand(class: &str, attrs: Vec<Attr>) -> (r: Node)
    requires
        no_dangling_backslash(class@),
    ensures
        is_element(
            r,
            "div"@,
            attrs_view(attrs@) + seq![("class"@, tw_merged(tw_joined(seq![brand_base_class(), class@])))],
            1,
        ),
        is_text(child(r, 0), "wu"@),
{
    let parts = vec!["text-xl tablet:text-3xl font-bold select-none", class];
    proof {
        assert(views_of(parts@) =~= seq![brand_base_class(), class@]);
        reveal_strlit("text-xl tablet:text-3xl font-bold select-none");
        assert(no_backslash(parts@[0]@));
        lemma_no_backslash_none_dangling(parts@[0]@);
        assert(no_dangling_backslash(parts@[1]@));
    }
    let joined = join_classes(&parts);
    let merged = merge_classes(joined.as_str());
    brand_markup(merged, attrs)
}

/// The paragraph of the modal demonstration.
pub open spec fn demo_paragraph() -> Seq<char> {
    "Lorem ipsum dolor sit amet consectetur adipisicing elit. Assumenda soluta temporibus provident reprehenderit similique veniam repudiandae. Velit beatae minus, vel minima cupiditate quisquam distinctio harum assumenda accusamus qui laboriosam odio, molestiae repellat quam, esse at tenetur officia error!"@
}

/// The modal demonstration: a button that opens the popover dialog
/// `wu-modal-demo`, and that dialog, with a heading, a paragraph and a button.
#[allow(non_snake_case)]
pub fn Modals() -> (r: Vec<Node>)
    ensures
        r@.len() == 2,
        is_element(
            r@[0],
            "button"@,
            seq![("popovertarget"@, "wu-modal-demo"@), ("class"@, "btn btn-primary"@)],
            1,
        ),
        is_text(child(r@[0], 0), "Open modal"@),
        is_element(r@[1], "dialog"@, seq![("id"@, "wu-modal-demo"@), ("popover"@, ""@)], 1),
        is_element(child(r@[1], 0), "div"@, seq![("class"@, "flex flex-col gap-4 surface-1"@)], 3),
        is_classed_text(
            child(child(r@[1], 0), 0),
            "h1"@,
            "text-xl font-bold text-center"@,
            "A modal demo"@,
        ),
        is_element(child(child(r@[1], 0), 1), "p"@, seq![], 1),
        is_text(child(child(child(r@[1], 0), 1), 0), demo_paragraph()),
        is_classed_text(child(child(r@[1], 0), 2), "button"@, "btn btn-primary"@, "Ok"@),
{
    let open_attrs = vec![attr("popovertarget", "wu-modal-demo"), attr("class", "btn btn-primary")];
    proof {
        assert(attrs_view(open_attrs@) =~= seq![
            ("popovertarget"@, "wu-modal-demo"@),
            ("class"@, "btn btn-primary"@),
        ]);
    }
    let open = element("button", open_attrs, vec![text("Open modal")]);
    let none: Vec<Attr> = Vec::new();
    proof {
        assert(attrs_view(none@) =~= seq![]);
    }
    let paragraph = element(
        "p",
        none,
        vec![text("Lorem ipsum dolor sit amet consectetur adipisicing elit. Assumenda soluta temporibus provident reprehenderit similique veniam repudiandae. Velit beatae minus, vel minima cupiditate quisquam distinctio harum assumenda accusamus qui laboriosam odio, molestiae repellat quam, esse at tenetur officia error!")],
    );
    let body_attrs = vec![attr("class", "flex flex-col gap-4 surface-1")];
    proof {
        assert(attrs_view(body_attrs@) =~= seq![("class"@, "flex flex-col gap-4 surface-1"@)]);
    }
    let body = element(
        "div",
        body_attrs,
        vec![
            classed_text("h1", "text-xl font-bold text-center", "A modal demo"),
            paragraph,
            classed_text("button", "btn btn-primary", "Ok"),
        ],
    );
    let dialog_attrs = vec![attr("id", "wu-modal-demo"), attr("popover", "")];
    proof {
        assert(attrs_view(dialog_attrs@) =~= seq![("id"@, "wu-modal-demo"@), ("popover"@, ""@)]);
    }
    let dialog = element("dialog", dialog_attrs, vec![body]);
    vec![open, dialog]
}

} // verus!
