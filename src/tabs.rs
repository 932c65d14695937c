//! A set of tabs with one selected tab. Tabs keep the order they were added in;
//! when the selected tab is removed, a fallback rule picks the next one.

use vstd::prelude::*;
use crate::stack::{EntryId, OverlayStack, StackEntry, first_index_of, has_id, next_id_after, only_id, without_id, without_ids};

verus! {

/// Which remaining tab becomes selected when the selected one is removed.
#[derive(Clone, Copy, Debug, PartialEq, Eq, Structural)]
pub enum Fallback {
    /// The first remaining tab.
    FirstRemaining,
    /// The last remaining tab.
    LastRemaining,
}

/// The tab that `fallback` picks among `entries`.
pub open spec fn fallback_pick<T>(entries: Seq<StackEntry<T>>, fallback: Fallback) -> Option<EntryId> {
    if entries.len() == 0 {
        None
    } else {
        match fallback {
            Fallback::FirstRemaining => Some(entries[0].id),
            Fallback::LastRemaining => Some(entries.last().id),
        }
    }
}

/// The selection after the tabs became `entries`: the selected tab if it is still
/// there, else the fallback's pick.
pub open spec fn reselected<T>(
    entries: Seq<StackEntry<T>>,
    selected: Option<EntryId>,
    fallback: Fallback,
) -> Option<EntryId> {
    match selected {
        Some(id) => if has_id(entries, id) {
            Some(id)
        } else {
            fallback_pick(entries, fallback)
        },
        None => fallback_pick(entries, fallback),
    }
}

/// Tabs, in the order they were added, and the selected one.
pub struct TabSet<T> {
    tabs: OverlayStack<T>,
    selected: Option<EntryId>,
    fallback: Fallback,
}

impl<T> TabSet<T> {
    /// The tabs, in the order they were added.
    pub closed spec fn entries(&self) -> Seq<StackEntry<T>> {
        self.tabs.entries()
    }

    /// The selected tab.
    pub closed spec fn selected(&self) -> Option<EntryId> {
        self.selected
    }

    /// The rule that picks a tab when the selected one goes.
    pub closed spec fn fallback(&self) -> Fallback {
        self.fallback
    }

    /// The identifier the next tab gets.
    pub closed spec fn next_id(&self) -> EntryId {
        self.tabs.next_id()
    }

    /// Some tab is selected exactly when there are tabs, and it is one of them.
    pub closed spec fn well_formed(&self) -> bool {
        &&& self.tabs.well_formed()
        &&& self.selected is None <==> self.tabs.entries().len() == 0
        &&& self.selected is Some ==> has_id(self.tabs.entries(), self.selected->Some_0)
    }

    /// In a well-formed tab set some tab is selected exactly when there are tabs,
    /// and the selected one is among them.
    pub proof fn lemma_well_formed(&self)
        requires
            self.well_formed(),
        ensures
            self.selected() is None <==> self.entries().len() == 0,
            self.selected() is Some ==> has_id(self.entries(), self.selected()->Some_0),
    {
    }

    /// Tabs made of `tabs`, numbered from zero in order, the first one selected.
    pub fn from_tabs(tabs: Vec<T>, fallback: Fallback) -> (r: Self)
        ensures
            r.well_formed(),
            r.fallback() == fallback,
            r.entries().len() == tabs@.len(),
            forall|i: int|
                0 <= i < tabs@.len() ==> r.entries()[i] == (StackEntry { id: i as u64, payload: tabs@[i] }),
            r.next_id() == tabs@.len(),
            r.selected() == (if tabs@.len() == 0 {
                None
            } else {
                Some(0u64)
            }),
    {
        let ghost items = tabs@;
        let n = tabs.len();
        let mut rest = tabs;
        let mut set: OverlayStack<T> = OverlayStack::new();
        let mut taken: usize = 0;
        while rest.len() > 0
            invariant
                set.well_formed(),
                !set.counter_wrapped(),
                taken + rest@.len() == items.len(),
                n == items.len(),
                rest@ == items.subrange(taken as int, items.len() as int),
                set.entries().len() == taken,
                set.next_id() == taken,
                forall|i: int|
                    0 <= i < taken ==> set.entries()[i] == (StackEntry { id: i as u64, payload: items[i] }),
            decreases rest@.len(),
        {
            let tab = rest.remove(0);
            set.push(tab);
            taken = taken + 1;
            assert(rest@ =~= items.subrange(taken as int, items.len() as int));
        }
        let selected = if taken == 0 {
            None
        } else {
            Some(0u64)
        };
        proof {
            if taken > 0 {
                assert(set.entries()[0].id == 0);
            }
        }
        TabSet { tabs: set, selected, fallback }
    }

    /// No tab.
    pub fn new(fallback: Fallback) -> (r: Self)
        ensures
            r.well_formed(),
            r.fallback() == fallback,
            r.entries() == Seq::<StackEntry<T>>::empty(),
            r.selected() is None,
            r.next_id() == 0,
    {
        TabSet { tabs: OverlayStack::new(), selected: None, fallback }
    }

    /// The selected tab.
    pub fn selected_id(&self) -> (r: Option<EntryId>)
        ensures
            r == self.selected(),
    {
        self.selected
    }

    /// The tab at position `i`, if there is one.
    pub fn entry(&self, i: usize) -> (r: Option<&StackEntry<T>>)
        ensures
            i < self.entries().len() ==> r is Some && *r->Some_0 == self.entries()[i as int],
            i >= self.entries().len() ==> r is None,
    {
        self.tabs.entry(i)
    }

    /// Number of tabs.
    pub fn len(&self) -> (r: usize)
        ensures
            r == self.entries().len(),
    {
        self.tabs.len()
    }

    /// Adds `tab` last and selects it: it has the highest identifier present.
    pub fn add(&mut self, tab: T) -> (id: EntryId)
        requires
            old(self).well_formed(),
        ensures
            final(self).well_formed(),
            id == old(self).next_id(),
            final(self).entries() == old(self).entries().push(StackEntry { id, payload: tab }),
            final(self).next_id() == next_id_after(old(self).next_id()),
            final(self).fallback() == old(self).fallback(),
            final(self).selected() == Some(id),
    {
        let ghost before = self.tabs.entries();
        let id = self.tabs.push(tab);
        proof {
            let e = self.tabs.entries();
            assert(e[e.len() - 1].id == id);
        }
        self.selected = Some(id);
        id
    }

    /// Selects tab `id`. An identifier that no tab has is refused: the selection
    /// stays and `false` is returned.
    pub fn switch_to(&mut self, id: EntryId) -> (r: bool)
        requires
            old(self).well_formed(),
        ensures
            final(self).well_formed(),
            r == has_id(old(self).entries(), id),
            final(self).entries() == old(self).entries(),
            final(self).next_id() == old(self).next_id(),
            final(self).fallback() == old(self).fallback(),
            final(self).selected() == (if r {
                Some(id)
            } else {
                old(self).selected()
            }),
    {
        if self.tabs.contains_id(id) {
            self.selected = Some(id);
            true
        } else {
            false
        }
    }

    /// Re-establishes the selection after a removal.
    fn reselect(&mut self)
        requires
            old(self).tabs.well_formed(),
        ensures
            final(self).well_formed(),
            final(self).tabs == old(self).tabs,
            final(self).fallback == old(self).fallback,
            final(self).selected == reselected(
                old(self).tabs.entries(),
                old(self).selected,
                old(self).fallback,
            ),
    {
        let keep = match self.selected {
            Some(id) => self.tabs.contains_id(id),
            None => false,
        };
        if !keep {
            self.selected = match self.fallback {
                Fallback::FirstRemaining => self.tabs.bottom_id(),
                Fallback::LastRemaining => self.tabs.top_id(),
            };
        }
        proof {
            let e = self.tabs.entries();
            if e.len() > 0 {
                assert(has_id(e, e[0].id));
                assert(has_id(e, e[e.len() - 1].id));
            }
        }
    }

    /// Removes tab `id`; if it was selected, the fallback picks the next one.
    pub fn remove(&mut self, id: EntryId)
        requires
            old(self).well_formed(),
        ensures
            final(self).well_formed(),
            final(self).entries() == without_id(old(self).entries(), id),
            final(self).next_id() == old(self).next_id(),
            final(self).fallback() == old(self).fallback(),
            final(self).selected() == reselected(
                final(self).entries(),
                old(self).selected(),
                old(self).fallback(),
            ),
    {
        self.tabs.remove(id);
        self.reselect();
    }

    /// Removes the tabs listed in `ids`; if the selected one goes, the fallback
    /// picks the next one.
    pub fn remove_many(&mut self, ids: &Vec<EntryId>)
        requires
            old(self).well_formed(),
        ensures
            final(self).well_formed(),
            final(self).entries() == without_ids(old(self).entries(), ids@),
            final(self).next_id() == old(self).next_id(),
            final(self).fallback() == old(self).fallback(),
            final(self).selected() == reselected(
                final(self).entries(),
                old(self).selected(),
                old(self).fallback(),
            ),
    {
        self.tabs.remove_many(ids);
        self.reselect();
    }

    /// Removes every tab but `id`; if the selected one goes, the fallback picks the
    /// next one.
    pub fn remove_all_except(&mut self, id: EntryId)
        requires
            old(self).well_formed(),
        ensures
            final(self).well_formed(),
            final(self).entries() == only_id(old(self).entries(), id),
            final(self).next_id() == old(self).next_id(),
            final(self).fallback() == old(self).fallback(),
            final(self).selected() == reselected(
                final(self).entries(),
                old(self).selected(),
                old(self).fallback(),
            ),
    {
        self.tabs.remove_all_except(id);
        self.reselect();
    }

    /// Replaces the content of tab `id` and hands back the old one (see
    /// [`OverlayStack::modify`]); the selection stays.
    pub fn modify(&mut self, id: EntryId, tab: T) -> (r: Option<T>)
        requires
            old(self).well_formed(),
        ensures
            final(self).well_formed(),
            final(self).next_id() == old(self).next_id(),
            final(self).fallback() == old(self).fallback(),
            final(self).selected() == old(self).selected(),
            match first_index_of(old(self).entries(), id) {
                Some(i) => r == Some(old(self).entries()[i].payload) && final(self).entries()
                    == old(self).entries().update(i, StackEntry { id, payload: tab }),
                None => r is None && final(self).entries() == old(self).entries(),
            },
    {
        let ghost before = self.tabs.entries();
        let r = self.tabs.modify(id, tab);
        proof {
            let e = self.tabs.entries();
            assert forall|k: int| 0 <= k < before.len() implies #[trigger] e[k].id == before[k].id by {
                match first_index_of(before, id) {
                    Some(i) => {
                        if k == i {
                            assert(before[i].id == id);
                        }
                    },
                    None => {},
                }
            }
            if let Some(s) = self.selected {
                let k = choose|k: int| 0 <= k < before.len() && before[k].id == s;
                assert(e[k].id == s);
            }
        }
        r
    }
}

} // verus!
