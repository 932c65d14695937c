//! Global states: a list of states under identifiers, of which the first is the
//! default (it is never removed) and one is selected.

use vstd::prelude::*;

verus! {

/// Identifier of a state: the 128 bits of a UUID.
pub type StateId = u128;

/// The identifiers of `states`, in order.
pub open spec fn ids_of<T>(states: Seq<(StateId, T)>) -> Seq<StateId> {
    states.map_values(|s: (StateId, T)| s.0)
}

/// States under identifiers, the default one first, and the selected one.
pub struct GlobalStates<T> {
    states: Vec<(StateId, T)>,
    selected: StateId,
}

impl<T> GlobalStates<T> {
    /// The states and their identifiers, the default one first.
    pub closed spec fn states(&self) -> Seq<(StateId, T)> {
        self.states@
    }

    /// The selected identifier.
    pub closed spec fn selected(&self) -> StateId {
        self.selected
    }

    /// The identifier of the default state.
    pub open spec fn default_of(&self) -> StateId {
        self.states()[0].0
    }

    /// There is a default state, and the selected identifier is one of the states'.
    pub closed spec fn well_formed(&self) -> bool {
        &&& self.states@.len() >= 1
        &&& ids_of(self.states@).contains(self.selected)
    }

    /// A well-formed value has its default state, and its selected identifier
    /// names one of its states.
    pub proof fn lemma_well_formed(&self)
        requires
            self.well_formed(),
        ensures
            self.states().len() >= 1,
            ids_of(self.states()).contains(self.selected()),
    {
    }

    /// One state, `default`, under `default_id`, selected.
    pub fn new(default_id: StateId, default: T) -> (r: Self)
        ensures
            r.well_formed(),
            r.states() == seq![(default_id, default)],
            r.selected() == default_id,
    {
        let r = GlobalStates { states: vec![(default_id, default)], selected: default_id };
        proof {
            assert(r.states@ =~= seq![(default_id, default)]);
            assert(ids_of(r.states@)[0] == default_id);
        }
        r
    }

    /// The states `states`, in order, the first one the default and selected. With
    /// no state given, the one state is `fallback` under `fallback_id`.
    pub fn from_states_with_ids(states: Vec<(StateId, T)>, fallback_id: StateId, fallback: T) -> (r:
        Self)
        ensures
            r.well_formed(),
            states@.len() == 0 ==> r.states() == seq![(fallback_id, fallback)],
            states@.len() > 0 ==> r.states() == states@,
            r.selected() == r.default_of(),
    {
        if states.len() == 0 {
            return Self::new(fallback_id, fallback);
        }
        let selected = states[0].0;
        let r = GlobalStates { states, selected };
        proof {
            assert(ids_of(r.states@)[0] == selected);
        }
        r
    }

    /// The position of the first state under `id`.
    fn position(&self, id: StateId) -> (r: Option<usize>)
        ensures
            r is None <==> !ids_of(self.states()).contains(id),
            r is Some ==> r->Some_0 < self.states().len() && self.states()[r->Some_0 as int].0 == id
                && forall|j: int| 0 <= j < r->Some_0 ==> self.states()[j].0 != id,
    {
        let mut i: usize = 0;
        while i < self.states.len()
            invariant
                0 <= i <= self.states@.len(),
                forall|j: int| 0 <= j < i ==> self.states@[j].0 != id,
            decreases self.states@.len() - i,
        {
            if self.states[i].0 == id {
                assert(ids_of(self.states@)[i as int] == id);
                return Some(i);
            }
            i = i + 1;
        }
        proof {
            if ids_of(self.states@).contains(id) {
                let k = choose|k: int| 0 <= k < ids_of(self.states@).len() && ids_of(self.states@)[k] == id;
                assert(self.states@[k].0 == id);
            }
        }
        None
    }

    /// The identifiers, the default one first.
    pub fn ids(&self) -> (r: Vec<StateId>)
        ensures
            r@ == ids_of(self.states()),
    {
        let mut r: Vec<StateId> = Vec::new();
        let mut i: usize = 0;
        while i < self.states.len()
            invariant
                0 <= i <= self.states@.len(),
                r@ == ids_of(self.states@.subrange(0, i as int)),
            decreases self.states@.len() - i,
        {
            r.push(self.states[i].0);
            i = i + 1;
            assert(r@ =~= ids_of(self.states@.subrange(0, i as int)));
        }
        assert(self.states@.subrange(0, i as int) =~= self.states@);
        r
    }

    /// Number of states.
    pub fn len(&self) -> (r: usize)
        ensures
            r == self.states().len(),
    {
        self.states.len()
    }

    /// The state at position `i` and its identifier, if there is one.
    pub fn entry(&self, i: usize) -> (r: Option<&(StateId, T)>)
        ensures
            i < self.states().len() ==> r is Some && *r->Some_0 == self.states()[i as int],
            i >= self.states().len() ==> r is None,
    {
        if i < self.states.len() {
            Some(&self.states[i])
        } else {
            None
        }
    }

    /// The identifier of the default state.
    pub fn default_id(&self) -> (r: StateId)
        requires
            self.well_formed(),
        ensures
            r == self.default_of(),
    {
        self.states[0].0
    }

    /// The selected identifier.
    pub fn selected_id(&self) -> (r: StateId)
        ensures
            r == self.selected(),
    {
        self.selected
    }

    /// The first state under `id`, if any.
    pub fn state(&self, id: StateId) -> (r: Option<&T>)
        ensures
            r is Some <==> ids_of(self.states()).contains(id),
            r is Some ==> exists|k: int|
                0 <= k < self.states().len() && self.states()[k].0 == id && (forall|j: int|
                    0 <= j < k ==> self.states()[j].0 != id) && *r->Some_0 == self.states()[k].1,
    {
        match self.position(id) {
            Some(i) => Some(&self.states[i].1),
            None => None,
        }
    }

    /// Adds `state` under `id`, last. The identifier is the caller's to choose
    /// (a fresh random UUID, as a rule).
    pub fn add_state(&mut self, id: StateId, state: T)
        requires
            old(self).well_formed(),
        ensures
            final(self).well_formed(),
            final(self).states() == old(self).states().push((id, state)),
            final(self).selected() == old(self).selected(),
    {
        let ghost before = self.states@;
        self.states.push((id, state));
        proof {
            let ib = ids_of(before);
            let ia = ids_of(self.states@);
            let k = choose|k: int| 0 <= k < ib.len() && ib[k] == self.selected;
            assert(ia[k] == self.selected);
        }
    }

    /// Selects state `id`, or the default state when there is none under `id`.
    pub fn set_active_state(&mut self, id: StateId)
        requires
            old(self).well_formed(),
        ensures
            final(self).well_formed(),
            final(self).states() == old(self).states(),
            final(self).selected() == (if ids_of(old(self).states()).contains(id) {
                id
            } else {
                old(self).default_of()
            }),
    {
        if self.position(id).is_some() {
            self.selected = id;
        } else {
            self.selected = self.states[0].0;
            assert(ids_of(self.states@)[0] == self.selected);
        }
    }

    /// Removes every state under `id`. The default identifier is never removed;
    /// when the selected identifier is removed, the default one becomes selected.
    /// Returns whether a state was removed.
    pub fn remove_state(&mut self, id: StateId) -> (r: bool)
        requires
            old(self).well_formed(),
        ensures
            final(self).well_formed(),
            r == (ids_of(old(self).states()).contains(id) && id != old(self).default_of()),
            r ==> final(self).states() == old(self).states().filter(|s: (StateId, T)| s.0 != id),
            !r ==> final(self).states() == old(self).states(),
            final(self).selected() == (if r && old(self).selected() == id {
                old(self).default_of()
            } else {
                old(self).selected()
            }),
    {
        if self.position(id).is_none() || self.states[0].0 == id {
            return false;
        }
        let ghost before = self.states@;
        let ghost p = |s: (StateId, T)| s.0 != id;
        let ghost n = before.len() as int;
        let mut i: usize = 0;
        let ghost mut k: int = 0;
        while i < self.states.len()
            invariant
                n == before.len(),
                p == (|s: (StateId, T)| s.0 != id),
                0 <= k <= n,
                self.states@ == before.subrange(0, k).filter(p) + before.subrange(k, n),
                i == before.subrange(0, k).filter(p).len(),
                self.selected == old(self).selected,
            decreases n - k,
        {
            proof {
                assert(before.subrange(0, k + 1) =~= before.subrange(0, k).push(before[k]));
                before.subrange(0, k).lemma_filter_push(before[k], p);
                assert(self.states@[i as int] == before.subrange(k, n)[0]);
            }
            if self.states[i].0 != id {
                i = i + 1;
            } else {
                self.states.remove(i);
            }
            proof {
                assert(self.states@ =~= before.subrange(0, k + 1).filter(p) + before.subrange(
                    k + 1,
                    n,
                ));
                k = k + 1;
            }
        }
        proof {
            assert(before.subrange(0, n) =~= before);
            assert(self.states@ =~= before.filter(p));
            lemma_filter_keeps_first(before, p);
            assert(self.states@[0] == before[0]);
        }
        if self.selected == id {
            self.selected = self.states[0].0;
            assert(ids_of(self.states@)[0] == self.selected);
        } else {
            proof {
                let ib = ids_of(before);
                let j = choose|j: int| 0 <= j < ib.len() && ib[j] == self.selected;
                assert(p(before[j]));
                before.lemma_filter_contains(p, j);
                let f = before.filter(p);
                let m = choose|m: int| 0 <= m < f.len() && f[m] == before[j];
                assert(ids_of(self.states@)[m] == self.selected);
            }
        }
        true
    }
}

/// When the first element passes, it stays first after filtering, and the result
/// is not empty.
proof fn lemma_filter_keeps_first<A>(s: Seq<A>, p: spec_fn(A) -> bool)
    requires
        s.len() >= 1,
        p(s[0]),
    ensures
        s.filter(p).len() >= 1,
        s.filter(p)[0] == s[0],
    decreases s.len(),
{
    reveal(Seq::filter);
    if s.len() > 1 {
        lemma_filter_keeps_first(s.drop_last(), p);
        assert(s.drop_last()[0] == s[0]);
    } else {
        assert(s.drop_last().filter(p) =~= Seq::<A>::empty()) by {
            assert(s.drop_last() =~= Seq::<A>::empty());
        }
    }
}

} // verus!
