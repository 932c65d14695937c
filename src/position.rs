//! Positions inside a box, and the classes that place toasts and drawers there.

use vstd::prelude::*;
use vstd::string::*;

verus! {

/// All possible positions inside of a box.
#[derive(Clone, Copy, Debug, PartialEq, Eq, Structural)]
pub enum Position {
    TopLeft,
    Top,
    TopRight,
    Right,
    BottomRight,
    Bottom,
    BottomLeft,
    Left,
}

/// The overlay placement class of a toast list at a position.
pub open spec fn placement_of(p: Position) -> Seq<char> {
    match p {
        Position::TopLeft => "overlay-tl"@,
        Position::Top => "overlay-t"@,
        Position::TopRight => "overlay-tr"@,
        Position::Right => "overlay-r"@,
        Position::BottomRight => "overlay-br"@,
        Position::Bottom => "overlay-b"@,
        Position::BottomLeft => "overlay-bl"@,
        Position::Left => "overlay-l"@,
    }
}

/// The corner rounding class of the toasts of a list at a position.
pub open spec fn rounding_of(p: Position) -> Seq<char> {
    match p {
        Position::TopLeft => "last:rounded-br-(--wu-dynamic-toast-border-radius)"@,
        Position::Top => "last:rounded-b-(--wu-dynamic-toast-border-radius)"@,
        Position::TopRight => "last:rounded-bl-(--wu-dynamic-toast-border-radius)"@,
        Position::Right => "first:rounded-tl-(--wu-dynamic-toast-border-radius) last:rounded-bl-(--wu-dynamic-toast-border-radius)"@,
        Position::BottomRight => "first:rounded-tl-(--wu-dynamic-toast-border-radius)"@,
        Position::Bottom => "first:rounded-t-(--wu-dynamic-toast-border-radius)"@,
        Position::BottomLeft => "first:rounded-tr-(--wu-dynamic-toast-border-radius)"@,
        Position::Left => "first:rounded-tr-(--wu-dynamic-toast-border-radius) last:rounded-br-(--wu-dynamic-toast-border-radius)"@,
    }
}

impl Position {
    /// The overlay placement class of a toast list at this position.
    pub fn placement(&self) -> (r: &'static str)
        ensures
            r@ == placement_of(*self),
    {
        match self {
            Position::TopLeft => "overlay-tl",
            Position::Top => "overlay-t",
            Position::TopRight => "overlay-tr",
            Position::Right => "overlay-r",
            Position::BottomRight => "overlay-br",
            Position::Bottom => "overlay-b",
            Position::BottomLeft => "overlay-bl",
            Position::Left => "overlay-l",
        }
    }

    /// The corner rounding class of the toasts of a list at this position.
    pub fn rounding(&self) -> (r: &'static str)
        ensures
            r@ == rounding_of(*self),
    {
        match self {
            Position::TopLeft => "last:rounded-br-(--wu-dynamic-toast-border-radius)",
            Position::Top => "last:rounded-b-(--wu-dynamic-toast-border-radius)",
            Position::TopRight => "last:rounded-bl-(--wu-dynamic-toast-border-radius)",
            Position::Right => "first:rounded-tl-(--wu-dynamic-toast-border-radius) last:rounded-bl-(--wu-dynamic-toast-border-radius)",
            Position::BottomRight => "first:rounded-tl-(--wu-dynamic-toast-border-radius)",
            Position::Bottom => "first:rounded-t-(--wu-dynamic-toast-border-radius)",
            Position::BottomLeft => "first:rounded-tr-(--wu-dynamic-toast-border-radius)",
            Position::Left => "first:rounded-tr-(--wu-dynamic-toast-border-radius) last:rounded-br-(--wu-dynamic-toast-border-radius)",
        }
    }

    /// The class list of a toast list at this position.
    pub fn toast_list_class(&self) -> (r: String)
        ensures
            r@ == "overlay w-fit "@ + placement_of(*self),
    {
        let mut r = String::from_str("overlay w-fit ");
        r.append(self.placement());
        r
    }

    /// The class list of a toast in a list at this position.
    pub fn toast_item_class(&self) -> (r: String)
        ensures
            r@ == "horizontal vcenter gap-4 max-w-lvw min-h-(--wu-dynamic-toast-min-height) p-(--wu-dynamic-toast-padding) "@
                + rounding_of(*self),
    {
        let mut r = String::from_str(
            "horizontal vcenter gap-4 max-w-lvw min-h-(--wu-dynamic-toast-min-height) p-(--wu-dynamic-toast-padding) ",
        );
        r.append(self.rounding());
        r
    }
}

/// The side a drawer opens on: left, top and bottom stand, anything else is the
/// right side.
pub open spec fn drawer_side_of(p: Position) -> Position {
    match p {
        Position::Left => Position::Left,
        Position::Top => Position::Top,
        Position::Bottom => Position::Bottom,
        _ => Position::Right,
    }
}

/// The placement, border, shadow and size classes of a drawer on a side.
pub open spec fn drawer_classes_of(side: Position) -> Seq<char> {
    match side {
        Position::Left => "overlay-tl border-r-(--wu-dynamic-drawer-border-width) rounded-r-(--wu-dynamic-drawer-border-radius) shadow-right-lg w-(--wu-dynamic-drawer-size)"@,
        Position::Right => "overlay-tr border-l-(--wu-dynamic-drawer-border-width) rounded-l-(--wu-dynamic-drawer-border-radius) shadow-left-lg w-(--wu-dynamic-drawer-size)"@,
        Position::Top => "overlay-tl border-b-(--wu-dynamic-drawer-border-width) rounded-b-(--wu-dynamic-drawer-border-radius) shadow-lg h-(--wu-dynamic-drawer-size)"@,
        Position::Bottom => "overlay-bl border-t-(--wu-dynamic-drawer-border-width) rounded-t-(--wu-dynamic-drawer-border-radius) shadow-top-lg h-(--wu-dynamic-drawer-size)"@,
        _ => ""@,
    }
}

impl Position {
    /// The side a drawer asked for at this position opens on.
    pub fn drawer_side(&self) -> (r: Position)
        ensures
            r == drawer_side_of(*self),
    {
        match self {
            Position::Left => Position::Left,
            Position::Top => Position::Top,
            Position::Bottom => Position::Bottom,
            _ => Position::Right,
        }
    }

    /// The placement, border, shadow and size classes of a drawer asked for at
    /// this position.
    pub fn drawer_classes(&self) -> (r: &'static str)
        ensures
            r@ == drawer_classes_of(drawer_side_of(*self)),
    {
        match self.drawer_side() {
            Position::Left => "overlay-tl border-r-(--wu-dynamic-drawer-border-width) rounded-r-(--wu-dynamic-drawer-border-radius) shadow-right-lg w-(--wu-dynamic-drawer-size)",
            Position::Right => "overlay-tr border-l-(--wu-dynamic-drawer-border-width) rounded-l-(--wu-dynamic-drawer-border-radius) shadow-left-lg w-(--wu-dynamic-drawer-size)",
            Position::Top => "overlay-tl border-b-(--wu-dynamic-drawer-border-width) rounded-b-(--wu-dynamic-drawer-border-radius) shadow-lg h-(--wu-dynamic-drawer-size)",
            Position::Bottom => "overlay-bl border-t-(--wu-dynamic-drawer-border-width) rounded-t-(--wu-dynamic-drawer-border-radius) shadow-top-lg h-(--wu-dynamic-drawer-size)",
            _ => "",
        }
    }
}

} // verus!
