//! A composable page layout: a stack of shell contexts, each saying for every slot
//! (header, sidebars, footers) whether to show a view, hide the slot, or inherit
//! what the contexts beneath say.

use vstd::prelude::*;

verus! {

/// The slots of a shell.
#[derive(Clone, Copy, Debug, PartialEq, Eq, Structural)]
pub enum SlotKind {
    Header,
    InnerHeader,
    LeftSidebar,
    RightSidebar,
    InnerFooter,
    Footer,
}

/// What a context says of one slot.
pub enum ShellSlot<V> {
    /// Whatever the contexts beneath say.
    Inherit,
    /// The slot is not shown.
    Hidden,
    /// The slot shows the view.
    Shown(V),
}

/// What a context says of each slot.
pub struct ShellCtx<V> {
    header: ShellSlot<V>,
    inner_header: ShellSlot<V>,
    left_sidebar: ShellSlot<V>,
    right_sidebar: ShellSlot<V>,
    inner_footer: ShellSlot<V>,
    footer: ShellSlot<V>,
}

/// `r` says `slot` of `kind` and what `ctx` says of every other slot.
pub open spec fn sets_slot<V>(r: ShellCtx<V>, ctx: ShellCtx<V>, kind: SlotKind, slot: ShellSlot<V>) -> bool {
    forall|k: SlotKind| #[trigger] r.slot_of(k) == if k == kind {
        slot
    } else {
        ctx.slot_of(k)
    }
}

impl<V> ShellCtx<V> {
    /// What the context says of slot `kind`.
    pub closed spec fn slot_of(&self, kind: SlotKind) -> ShellSlot<V> {
        match kind {
            SlotKind::Header => self.header,
            SlotKind::InnerHeader => self.inner_header,
            SlotKind::LeftSidebar => self.left_sidebar,
            SlotKind::RightSidebar => self.right_sidebar,
            SlotKind::InnerFooter => self.inner_footer,
            SlotKind::Footer => self.footer,
        }
    }

    /// A context that inherits every slot.
    pub fn new() -> (r: Self)
        ensures
            forall|k: SlotKind| #[trigger] r.slot_of(k) is Inherit,
    {
        ShellCtx {
            header: ShellSlot::Inherit,
            inner_header: ShellSlot::Inherit,
            left_sidebar: ShellSlot::Inherit,
            right_sidebar: ShellSlot::Inherit,
            inner_footer: ShellSlot::Inherit,
            footer: ShellSlot::Inherit,
        }
    }

    /// A context that hides every slot.
    pub fn cleaned() -> (r: Self)
        ensures
            forall|k: SlotKind| #[trigger] r.slot_of(k) is Hidden,
    {
        ShellCtx {
            header: ShellSlot::Hidden,
            inner_header: ShellSlot::Hidden,
            left_sidebar: ShellSlot::Hidden,
            right_sidebar: ShellSlot::Hidden,
            inner_footer: ShellSlot::Hidden,
            footer: ShellSlot::Hidden,
        }
    }

    /// What the context says of slot `kind`.
    pub fn slot(&self, kind: SlotKind) -> (r: &ShellSlot<V>)
        ensures
            *r == self.slot_of(kind),
    {
        match kind {
            SlotKind::Header => &self.header,
            SlotKind::InnerHeader => &self.inner_header,
            SlotKind::LeftSidebar => &self.left_sidebar,
            SlotKind::RightSidebar => &self.right_sidebar,
            SlotKind::InnerFooter => &self.inner_footer,
            SlotKind::Footer => &self.footer,
        }
    }

    /// The context with slot `kind` set to `slot`.
    pub fn with_slot(self, kind: SlotKind, slot: ShellSlot<V>) -> (r: Self)
        ensures
            sets_slot(r, self, kind, slot),
    {
        let mut r = self;
        match kind {
            SlotKind::Header => r.header = slot,
            SlotKind::InnerHeader => r.inner_header = slot,
            SlotKind::LeftSidebar => r.left_sidebar = slot,
            SlotKind::RightSidebar => r.right_sidebar = slot,
            SlotKind::InnerFooter => r.inner_footer = slot,
            SlotKind::Footer => r.footer = slot,
        }
        r
    }

    /// Hides the header.
    pub fn no_header(self) -> (r: Self)
        ensures
            sets_slot(r, self, SlotKind::Header, ShellSlot::Hidden),
    {
        self.with_slot(SlotKind::Header, ShellSlot::Hidden)
    }

    /// Shows `view` in the header.
    pub fn header(self, view: V) -> (r: Self)
        ensures
            sets_slot(r, self, SlotKind::Header, ShellSlot::Shown(view)),
    {
        self.with_slot(SlotKind::Header, ShellSlot::Shown(view))
    }

    /// Hides the inner header.
    pub fn no_inner_header(self) -> (r: Self)
        ensures
            sets_slot(r, self, SlotKind::InnerHeader, ShellSlot::Hidden),
    {
        self.with_slot(SlotKind::InnerHeader, ShellSlot::Hidden)
    }

    /// Shows `view` in the inner header.
    pub fn inner_header(self, view: V) -> (r: Self)
        ensures
            sets_slot(r, self, SlotKind::InnerHeader, ShellSlot::Shown(view)),
    {
        self.with_slot(SlotKind::InnerHeader, ShellSlot::Shown(view))
    }

    /// Hides the left sidebar.
    pub fn no_left_sidebar(self) -> (r: Self)
        ensures
            sets_slot(r, self, SlotKind::LeftSidebar, ShellSlot::Hidden),
    {
        self.with_slot(SlotKind::LeftSidebar, ShellSlot::Hidden)
    }

    /// Shows `view` in the left sidebar.
    pub fn left_sidebar(self, view: V) -> (r: Self)
        ensures
            sets_slot(r, self, SlotKind::LeftSidebar, ShellSlot::Shown(view)),
    {
        self.with_slot(SlotKind::LeftSidebar, ShellSlot::Shown(view))
    }

    /// Hides the right sidebar.
    pub fn no_right_sidebar(self) -> (r: Self)
        ensures
            sets_slot(r, self, SlotKind::RightSidebar, ShellSlot::Hidden),
    {
        self.with_slot(SlotKind::RightSidebar, ShellSlot::Hidden)
    }

    /// Shows `view` in the right sidebar.
    pub fn right_sidebar(self, view: V) -> (r: Self)
        ensures
            sets_slot(r, self, SlotKind::RightSidebar, ShellSlot::Shown(view)),
    {
        self.with_slot(SlotKind::RightSidebar, ShellSlot::Shown(view))
    }

    /// Hides the inner footer.
    pub fn no_inner_footer(self) -> (r: Self)
        ensures
            sets_slot(r, self, SlotKind::InnerFooter, ShellSlot::Hidden),
    {
        self.with_slot(SlotKind::InnerFooter, ShellSlot::Hidden)
    }

    /// Shows `view` in the inner footer.
    pub fn inner_footer(self, view: V) -> (r: Self)
        ensures
            sets_slot(r, self, SlotKind::InnerFooter, ShellSlot::Shown(view)),
    {
        self.with_slot(SlotKind::InnerFooter, ShellSlot::Shown(view))
    }

    /// Hides the footer.
    pub fn no_footer(self) -> (r: Self)
        ensures
            sets_slot(r, self, SlotKind::Footer, ShellSlot::Hidden),
    {
        self.with_slot(SlotKind::Footer, ShellSlot::Hidden)
    }

    /// Shows `view` in the footer.
    pub fn footer(self, view: V) -> (r: Self)
        ensures
            sets_slot(r, self, SlotKind::Footer, ShellSlot::Shown(view)),
    {
        self.with_slot(SlotKind::Footer, ShellSlot::Shown(view))
    }
}

/// What `ctxs` show in slot `kind`: the view of the topmost context that does not
/// inherit the slot, or nothing when that context hides it or every context
/// inherits it.
pub open spec fn resolved<V>(ctxs: Seq<ShellCtx<V>>, kind: SlotKind) -> Option<V>
    decreases ctxs.len(),
{
    if ctxs.len() == 0 {
        None
    } else {
        match ctxs.last().slot_of(kind) {
            ShellSlot::Shown(v) => Some(v),
            ShellSlot::Hidden => None,
            ShellSlot::Inherit => resolved(ctxs.drop_last(), kind),
        }
    }
}

/// The contexts of a shell: the shell's own at the bottom, which is never popped,
/// and those pushed over it.
pub struct ShellStack<V> {
    ctxs: Vec<ShellCtx<V>>,
}

impl<V> ShellStack<V> {
    /// The contexts, the shell's own first.
    pub closed spec fn ctxs(&self) -> Seq<ShellCtx<V>> {
        self.ctxs@
    }

    pub closed spec fn well_formed(&self) -> bool {
        self.ctxs@.len() >= 1
    }

    /// A well-formed shell keeps its own context at the bottom, so it has at least
    /// one.
    pub proof fn lemma_well_formed(&self)
        requires
            self.well_formed(),
        ensures
            self.ctxs().len() >= 1,
    {
    }

    /// A shell whose own context is `base`.
    pub fn new(base: ShellCtx<V>) -> (r: Self)
        ensures
            r.well_formed(),
            r.ctxs() == seq![base],
    {
        let r = ShellStack { ctxs: vec![base] };
        assert(r.ctxs@ =~= seq![base]);
        r
    }

    /// Pushes `ctx` over the others.
    pub fn push(&mut self, ctx: ShellCtx<V>)
        requires
            old(self).well_formed(),
        ensures
            final(self).well_formed(),
            final(self).ctxs() == old(self).ctxs().push(ctx),
    {
        self.ctxs.push(ctx);
    }

    /// Pops the top context, unless only the shell's own is left; returns whether
    /// one was popped.
    pub fn pop(&mut self) -> (r: bool)
        requires
            old(self).well_formed(),
        ensures
            final(self).well_formed(),
            r == (old(self).ctxs().len() > 1),
            r ==> final(self).ctxs() == old(self).ctxs().drop_last(),
            !r ==> final(self).ctxs() == old(self).ctxs(),
    {
        if self.ctxs.len() <= 1 {
            return false;
        }
        self.ctxs.pop();
        true
    }

    /// What the shell shows in slot `kind`.
    pub fn resolve(&self, kind: SlotKind) -> (r: Option<&V>)
        ensures
            r is Some <==> resolved(self.ctxs(), kind) is Some,
            r is Some ==> *r->Some_0 == resolved(self.ctxs(), kind)->Some_0,
    {
        let mut i: usize = self.ctxs.len();
        assert(self.ctxs@.subrange(0, i as int) =~= self.ctxs@);
        while i > 0
            invariant
                0 <= i <= self.ctxs@.len(),
                resolved(self.ctxs@, kind) == resolved(self.ctxs@.subrange(0, i as int), kind),
            decreases i,
        {
            let ghost pre = self.ctxs@.subrange(0, i as int);
            assert(pre.drop_last() =~= self.ctxs@.subrange(0, i - 1));
            match self.ctxs[i - 1].slot(kind) {
                ShellSlot::Shown(v) => {
                    return Some(v);
                },
                ShellSlot::Hidden => {
                    return None;
                },
                ShellSlot::Inherit => {},
            }
            i = i - 1;
        }
        None
    }
}

} // verus!
