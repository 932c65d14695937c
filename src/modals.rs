//! The modal hook: a stack of modals whose top one traps keyboard focus.

use vstd::prelude::*;
use vstd::string::*;
use crate::classes::{join_classes, lemma_no_backslash_none_dangling, merge_classes, no_backslash, no_dangling_backslash, tw_joined, tw_merged, views_of};
use crate::focus::{Container, Descendant, ElementId, FocusTrap, Frame, Transition, TrapError, activation, boundary_of, deactivation};
use crate::stack::{EntryId, OverlayStack, StackEntry, ids_ordered, next_id_after, without_id};

verus! {

/// A modal: its own class list and the content it shows.
pub struct Modal<V> {
    pub class: String,
    pub content: V,
}

/// Open modals, newest on top, and the focus trap that follows them.
pub struct ModalHook<V> {
    modals: OverlayStack<Modal<V>>,
    trap: FocusTrap,
    /// The modal that pushed each trap frame, from the bottom frame up.
    owners: Vec<EntryId>,
}

impl<V> ModalHook<V> {
    /// The open modals, oldest first.
    pub closed spec fn entries(&self) -> Seq<StackEntry<Modal<V>>> {
        self.modals.entries()
    }

    /// The identifier the next modal gets.
    pub closed spec fn next_id(&self) -> EntryId {
        self.modals.next_id()
    }

    /// The frames of the focus trap.
    pub closed spec fn frames(&self) -> Seq<Frame> {
        self.trap.frames()
    }

    /// The modal that pushed each trap frame, from the bottom frame up.
    pub closed spec fn frame_owners(&self) -> Seq<EntryId> {
        self.owners@
    }

    /// Whether the top modal pushed the active trap frame.
    pub open spec fn top_owns_frame(&self) -> bool {
        &&& self.entries().len() > 0
        &&& self.frame_owners().len() > 0
        &&& self.frame_owners().last() == self.entries().last().id
    }

    pub closed spec fn well_formed(&self) -> bool {
        &&& self.modals.well_formed()
        &&& self.trap.well_formed()
        &&& self.owners@.len() == self.trap.frames().len()
    }

    /// No modal and no trap frame.
    pub fn new() -> (r: Self)
        ensures
            r.well_formed(),
            r.entries() == Seq::<StackEntry<Modal<V>>>::empty(),
            r.next_id() == 0,
            r.frames() == Seq::<Frame>::empty(),
            r.frame_owners() == Seq::<EntryId>::empty(),
    {
        ModalHook { modals: OverlayStack::new(), trap: FocusTrap::new(), owners: Vec::new() }
    }

    /// Whether the identifier counter has ever wrapped past `u64::MAX`.
    pub closed spec fn counter_wrapped(&self) -> bool {
        self.modals.counter_wrapped()
    }

    /// Modal identifiers increase from the oldest to the top one, which is
    /// therefore the surviving modal with the highest identifier, as long as the
    /// identifier counter has not wrapped.
    pub proof fn lemma_ids_increase(&self)
        requires
            self.well_formed(),
            !self.counter_wrapped(),
        ensures
            ids_ordered(self.entries(), self.next_id()),
    {
        self.modals.lemma_ids_ordered();
    }

    /// Opens `modal` on top and returns its identifier. Once it is rendered, the
    /// caller traps focus in it with [`ModalHook::trap_focus`].
    pub fn open(&mut self, modal: Modal<V>) -> (id: EntryId)
        requires
            old(self).well_formed(),
        ensures
            final(self).well_formed(),
            id == old(self).next_id(),
            final(self).entries() == old(self).entries().push(StackEntry { id, payload: modal }),
            final(self).next_id() == next_id_after(old(self).next_id()),
            final(self).counter_wrapped() == (old(self).counter_wrapped() || id == u64::MAX),
            final(self).frames() == old(self).frames(),
            final(self).frame_owners() == old(self).frame_owners(),
    {
        self.modals.push(modal)
    }

    /// Traps focus in `container`, the rendered top modal, while `origin` has
    /// focus; the new frame is recorded as the top modal's. When no modal is open
    /// or the container cannot be resolved, the trap is left as it was and the
    /// modal stays open without it.
    pub fn trap_focus(&mut self, origin: Option<ElementId>, container: Option<&Container>) -> (r:
        Result<Transition, TrapError>)
        requires
            old(self).well_formed(),
        ensures
            final(self).well_formed(),
            final(self).entries() == old(self).entries(),
            final(self).next_id() == old(self).next_id(),
            final(self).counter_wrapped() == old(self).counter_wrapped(),
            (container is None || old(self).entries().len() == 0) ==> r == Err::<
                Transition,
                TrapError,
            >(TrapError::MissingTarget) && final(self).frames() == old(self).frames()
                && final(self).frame_owners() == old(self).frame_owners(),
            (container is Some && old(self).entries().len() > 0) ==> ({
                let c = container->Some_0;
                let (frames, t) = activation(
                    old(self).frames(),
                    origin,
                    c.id,
                    boundary_of(c.descendants@),
                );
                &&& r == Ok::<Transition, TrapError>(t)
                &&& final(self).frames() == frames
                &&& final(self).frame_owners() == old(self).frame_owners().push(
                    old(self).entries().last().id,
                )
            }),
    {
        let top = match self.modals.top_id() {
            Some(top) => top,
            None => return Err(TrapError::MissingTarget),
        };
        let r = self.trap.activate(origin, container);
        if r.is_ok() {
            self.owners.push(top);
        }
        r
    }

    /// Deactivates the active trap frame when the top modal pushed it.
    fn release_top_frame(&mut self, top: EntryId, resumed: &Vec<Descendant>) -> (r: Option<Transition>)
        requires
            old(self).trap.well_formed(),
            old(self).owners@.len() == old(self).trap.frames().len(),
        ensures
            final(self).trap.well_formed(),
            final(self).owners@.len() == final(self).trap.frames().len(),
            final(self).modals == old(self).modals,
            (old(self).owners@.len() > 0 && old(self).owners@.last() == top) ==> ({
                let (frames, t) = deactivation(old(self).trap.frames(), boundary_of(resumed@));
                &&& r == Some(t)
                &&& final(self).trap.frames() == frames
                &&& final(self).owners@ == old(self).owners@.drop_last()
            }),
            !(old(self).owners@.len() > 0 && old(self).owners@.last() == top) ==> r is None
                && final(self).trap.frames() == old(self).trap.frames() && final(self).owners@
                == old(self).owners@,
    {
        let n = self.owners.len();
        if n > 0 && self.owners[n - 1] == top {
            self.owners.pop();
            Some(self.trap.deactivate(resumed))
        } else {
            None
        }
    }

    /// Closes the top modal, if any. When that modal pushed the active trap frame,
    /// the frame is left and the transition returned; `resumed` holds the
    /// descendants of the container named by [`ModalHook::resuming_target`].
    pub fn close(&mut self, resumed: &Vec<Descendant>) -> (r: (
        Option<StackEntry<Modal<V>>>,
        Option<Transition>,
    ))
        requires
            old(self).well_formed(),
        ensures
            final(self).well_formed(),
            final(self).next_id() == old(self).next_id(),
            final(self).counter_wrapped() == old(self).counter_wrapped(),
            old(self).entries().len() == 0 ==> r.0 is None
                && final(self).entries() == old(self).entries(),
            old(self).entries().len() > 0 ==> r.0 == Some(old(self).entries().last())
                && final(self).entries() == old(self).entries().drop_last(),
            old(self).top_owns_frame() ==> ({
                let (frames, t) = deactivation(old(self).frames(), boundary_of(resumed@));
                &&& r.1 == Some(t)
                &&& final(self).frames() == frames
                &&& final(self).frame_owners() == old(self).frame_owners().drop_last()
            }),
            !old(self).top_owns_frame() ==> r.1 is None && final(self).frames() == old(
                self,
            ).frames() && final(self).frame_owners() == old(self).frame_owners(),
    {
        let m = self.modals.pop();
        let t = match &m {
            Some(e) => self.release_top_frame(e.id, resumed),
            None => None,
        };
        (m, t)
    }

    /// Removes modal `id`. When it is the top modal and pushed the active trap
    /// frame, the frame is left as [`ModalHook::close`] leaves it and the transition
    /// is returned; otherwise the trap is not touched.
    pub fn remove(&mut self, id: EntryId, resumed: &Vec<Descendant>) -> (r: Option<Transition>)
        requires
            old(self).well_formed(),
        ensures
            final(self).well_formed(),
            final(self).next_id() == old(self).next_id(),
            final(self).counter_wrapped() == old(self).counter_wrapped(),
            final(self).entries() == without_id(old(self).entries(), id),
            (old(self).top_owns_frame() && old(self).entries().last().id == id) ==> ({
                let (frames, t) = deactivation(old(self).frames(), boundary_of(resumed@));
                &&& r == Some(t)
                &&& final(self).frames() == frames
                &&& final(self).frame_owners() == old(self).frame_owners().drop_last()
            }),
            !(old(self).top_owns_frame() && old(self).entries().last().id == id) ==> r is None
                && final(self).frames() == old(self).frames() && final(self).frame_owners()
                == old(self).frame_owners(),
    {
        let was_top = self.is_active_modal(id);
        self.modals.remove(id);
        if was_top {
            self.release_top_frame(id, resumed)
        } else {
            None
        }
    }

    /// The container whose descendants [`ModalHook::close`] needs.
    pub fn resuming_target(&self) -> (r: Option<ElementId>)
        ensures
            self.frames().len() >= 2 ==> r == Some(self.frames()[self.frames().len() - 2].target),
            self.frames().len() < 2 ==> r is None,
    {
        self.trap.resuming_target()
    }

    /// The focus trap, for key handling.
    pub fn trap(&self) -> (r: &FocusTrap)
        ensures
            r.frames() == self.frames(),
            self.well_formed() ==> r.well_formed(),
    {
        &self.trap
    }

    /// The modal at position `i` from the oldest, if there is one.
    pub fn entry(&self, i: usize) -> (r: Option<&StackEntry<Modal<V>>>)
        ensures
            i < self.entries().len() ==> r is Some && *r->Some_0 == self.entries()[i as int],
            i >= self.entries().len() ==> r is None,
    {
        self.modals.entry(i)
    }

    /// Number of open modals.
    pub fn len(&self) -> (r: usize)
        ensures
            r == self.entries().len(),
    {
        self.modals.len()
    }

    /// Whether `id` is the top modal, the one that takes focus and shows a close
    /// button.
    pub fn is_active_modal(&self, id: EntryId) -> (r: bool)
        ensures
            r == (self.entries().len() > 0 && self.entries().last().id == id),
    {
        match self.modals.top_id() {
            Some(top) => top == id,
            None => false,
        }
    }

    /// The class list of the backdrop: dimmed and blurred while a modal is open.
    pub fn backdrop_class(&self) -> (r: String)
        ensures
            r@ == tw_merged(
                tw_joined(
                    seq![
                        "overlay pointer-events-none"@,
                        if self.entries().len() > 0 {
                            "bg-black/25 backdrop-blur-sm"@
                        } else {
                            ""@
                        },
                    ],
                ),
            ),
    {
        let extra = if self.modals.is_empty() {
            ""
        } else {
            "bg-black/25 backdrop-blur-sm"
        };
        let parts = vec!["overlay pointer-events-none", extra];
        proof {
            assert(views_of(parts@) =~= seq!["overlay pointer-events-none"@, extra@]);
            reveal_strlit("overlay pointer-events-none");
            reveal_strlit("bg-black/25 backdrop-blur-sm");
            reveal_strlit("");
            assert(no_backslash(parts@[0]@));
            assert(no_backslash(parts@[1]@));
            lemma_no_backslash_none_dangling(parts@[0]@);
            lemma_no_backslash_none_dangling(parts@[1]@);
        }
        let joined = join_classes(&parts);
        merge_classes(joined.as_str())
    }
}

/// The class list of a modal: the base classes, the hook's default classes and
/// the modal's own, joined and merged, later ones winning conflicts.
pub fn modal_class(default_class: &str, class: &str) -> (r: String)
    requires
        no_dangling_backslash(default_class@),
        no_dangling_backslash(class@),
    ensures
        r@ == tw_merged(tw_joined(seq!["z-1 overlay-container"@, default_class@, class@])),
{
    let parts = vec!["z-1 overlay-container", default_class, class];
    proof {
        assert(views_of(parts@) =~= seq!["z-1 overlay-container"@, default_class@, class@]);
        reveal_strlit("z-1 overlay-container");
        assert(no_backslash(parts@[0]@));
        lemma_no_backslash_none_dangling(parts@[0]@);
        assert(no_dangling_backslash(parts@[1]@));
        assert(no_dangling_backslash(parts@[2]@));
    }
    let joined = join_classes(&parts);
    merge_classes(joined.as_str())
}

} // verus!
