//! A LIFO stack of overlay payloads, each tagged with an identifier that is
//! issued once from a per-stack counter.

use vstd::prelude::*;

verus! {

/// Identifier of a stack entry, issued in increasing order by its stack.
pub type EntryId = u64;

/// One entry of an [`OverlayStack`]: a payload and the identifier it was given when
/// it was pushed.
pub struct StackEntry<T> {
    pub id: EntryId,
    pub payload: T,
}

/// The identifier that follows `id`, wrapping to zero after `u64::MAX`.
pub open spec fn next_id_after(id: u64) -> u64 {
    if id == u64::MAX {
        0
    } else {
        (id + 1) as u64
    }
}

/// Identifiers strictly increase from bottom to top, and all lie below `next_id`.
pub open spec fn ids_ordered<T>(entries: Seq<StackEntry<T>>, next_id: u64) -> bool {
    &&& forall|i: int, j: int| 0 <= i < j < entries.len() ==> entries[i].id < entries[j].id
    &&& forall|i: int| 0 <= i < entries.len() ==> entries[i].id < next_id
}

/// The entries whose identifier is not `id`.
pub open spec fn without_id<T>(entries: Seq<StackEntry<T>>, id: EntryId) -> Seq<StackEntry<T>> {
    entries.filter(|e: StackEntry<T>| e.id != id)
}

/// The entries whose identifier is not listed in `ids`.
pub open spec fn without_ids<T>(entries: Seq<StackEntry<T>>, ids: Seq<EntryId>) -> Seq<
    StackEntry<T>,
> {
    entries.filter(|e: StackEntry<T>| !ids.contains(e.id))
}

/// The entries whose identifier is `id`.
pub open spec fn only_id<T>(entries: Seq<StackEntry<T>>, id: EntryId) -> Seq<StackEntry<T>> {
    entries.filter(|e: StackEntry<T>| e.id == id)
}

/// The index of the lowest entry whose identifier is `id`, if there is one.
pub open spec fn first_index_of<T>(entries: Seq<StackEntry<T>>, id: EntryId) -> Option<int> {
    if exists|i: int|
        0 <= i < entries.len() && entries[i].id == id && forall|j: int|
            0 <= j < i ==> entries[j].id != id {
        Some(
            choose|i: int|
                0 <= i < entries.len() && entries[i].id == id && forall|j: int|
                    0 <= j < i ==> entries[j].id != id,
        )
    } else {
        None
    }
}

proof fn lemma_first_index_found<T>(entries: Seq<StackEntry<T>>, id: EntryId, i: int)
    requires
        0 <= i < entries.len(),
        entries[i].id == id,
        forall|j: int| 0 <= j < i ==> entries[j].id != id,
    ensures
        first_index_of(entries, id) == Some(i),
{
    let c = choose|c: int|
        0 <= c < entries.len() && entries[c].id == id && forall|j: int|
            0 <= j < c ==> entries[j].id != id;
    assert(0 <= c < entries.len() && entries[c].id == id && forall|j: int|
        0 <= j < c ==> entries[j].id != id);
    if c < i {
        assert(entries[c].id != id);
    }
    if i < c {
        assert(entries[i].id != id);
    }
}

proof fn lemma_first_index_absent<T>(entries: Seq<StackEntry<T>>, id: EntryId)
    requires
        forall|j: int| 0 <= j < entries.len() ==> entries[j].id != id,
    ensures
        first_index_of(entries, id) is None,
{
}

/// Filtering keeps identifiers ordered.
proof fn lemma_filter_keeps_order<T>(
    entries: Seq<StackEntry<T>>,
    p: spec_fn(StackEntry<T>) -> bool,
    next_id: u64,
)
    requires
        ids_ordered(entries, next_id),
    ensures
        ids_ordered(entries.filter(p), next_id),
    decreases entries.len(),
{
    reveal(Seq::filter);
    if entries.len() > 0 {
        let rest = entries.drop_last();
        assert(ids_ordered(rest, next_id));
        lemma_filter_keeps_order(rest, p, next_id);
        broadcast use vstd::seq_lib::group_filter_ensures;

        let f = rest.filter(p);
        assert forall|i: int| 0 <= i < f.len() implies f[i].id < entries.last().id by {
            assert(f.contains(f[i]));
            rest.lemma_filter_contains_rev(p, f[i]);
            assert(rest.contains(f[i]));
            let j = choose|j: int| 0 <= j < rest.len() && rest[j] == f[i];
            assert(entries[j] == f[i]);
        }
        if p(entries.last()) {
            assert(entries.filter(p) == f.push(entries.last()));
        } else {
            assert(entries.filter(p) == f);
        }
    }
}

/// Whether some entry has identifier `id`.
pub open spec fn has_id<T>(entries: Seq<StackEntry<T>>, id: EntryId) -> bool {
    exists|i: int| 0 <= i < entries.len() && entries[i].id == id
}

/// Removing by identifier shortens the entries exactly when an entry has that
/// identifier, and leaves none with it.
pub proof fn lemma_without_id_len<T>(entries: Seq<StackEntry<T>>, id: EntryId)
    ensures
        has_id(entries, id) <==> without_id(entries, id).len() < entries.len(),
        without_id(entries, id).len() <= entries.len(),
        !has_id(without_id(entries, id), id),
    decreases entries.len(),
{
    reveal(Seq::filter);
    broadcast use vstd::seq_lib::group_filter_ensures;

    if entries.len() > 0 {
        let rest = entries.drop_last();
        lemma_without_id_len(rest, id);
        if has_id(entries, id) && entries.last().id != id {
            let i = choose|i: int| 0 <= i < entries.len() && entries[i].id == id;
            assert(rest[i].id == id);
        }
        if has_id(rest, id) {
            let i = choose|i: int| 0 <= i < rest.len() && rest[i].id == id;
            assert(entries[i].id == id);
        }
        let f = without_id(entries, id);
        if has_id(f, id) {
            let i = choose|i: int| 0 <= i < f.len() && f[i].id == id;
            assert(f.contains(f[i]));
        }
    }
}

/// Removing by identifier a second time changes nothing.
pub proof fn lemma_without_id_twice<T>(entries: Seq<StackEntry<T>>, id: EntryId)
    ensures
        without_id(without_id(entries, id), id) == without_id(entries, id),
{
    let f = without_id(entries, id);
    lemma_without_id_len(entries, id);
    lemma_without_id_len(f, id);
    lemma_filter_all_pass(f, |e: StackEntry<T>| e.id != id);
}

/// Filtering a sequence whose elements all pass gives it back.
pub proof fn lemma_filter_all_pass<A>(s: Seq<A>, p: spec_fn(A) -> bool)
    requires
        forall|i: int| 0 <= i < s.len() ==> p(s[i]),
    ensures
        s.filter(p) == s,
    decreases s.len(),
{
    reveal(Seq::filter);
    if s.len() > 0 {
        lemma_filter_all_pass(s.drop_last(), p);
        assert(s.drop_last().push(s.last()) =~= s);
    }
}

/// Whether `id` is listed in `ids`.
fn listed(ids: &Vec<EntryId>, id: EntryId) -> (r: bool)
    ensures
        r == ids@.contains(id),
{
    let mut i: usize = 0;
    while i < ids.len()
        invariant
            0 <= i <= ids@.len(),
            forall|j: int| 0 <= j < i ==> ids@[j] != id,
        decreases ids@.len() - i,
    {
        if ids[i] == id {
            assert(ids@[i as int] == id);
            return true;
        }
        i = i + 1;
    }
    false
}

/// A stack of overlay payloads. The active entry is the top one, which is the
/// entry with the highest identifier as long as the identifier counter has not
/// wrapped around.
pub struct OverlayStack<T> {
    entries: Vec<StackEntry<T>>,
    next_id: u64,
    wrapped: Ghost<bool>,
}

impl<T> OverlayStack<T> {
    /// The entries, from bottom to top.
    pub closed spec fn entries(&self) -> Seq<StackEntry<T>> {
        self.entries@
    }

    /// The identifier the next push will use.
    pub closed spec fn next_id(&self) -> u64 {
        self.next_id
    }

    /// Whether the identifier counter has ever wrapped past `u64::MAX`.
    pub closed spec fn counter_wrapped(&self) -> bool {
        self.wrapped@
    }

    pub closed spec fn well_formed(&self) -> bool {
        !self.wrapped@ ==> ids_ordered(self.entries@, self.next_id)
    }

    /// Identifiers increase from bottom to top and lie below the next one, as long
    /// as the identifier counter has not wrapped.
    pub proof fn lemma_ids_ordered(&self)
        requires
            self.well_formed(),
            !self.counter_wrapped(),
        ensures
            ids_ordered(self.entries(), self.next_id()),
    {
    }

    /// Creates an empty stack whose first identifier is zero.
    pub fn new() -> (r: Self)
        ensures
            r.well_formed(),
            r.entries() == Seq::<StackEntry<T>>::empty(),
            r.next_id() == 0,
            !r.counter_wrapped(),
    {
        OverlayStack { entries: Vec::new(), next_id: 0, wrapped: Ghost(false) }
    }

    /// Number of entries.
    pub fn len(&self) -> (r: usize)
        ensures
            r == self.entries().len(),
    {
        self.entries.len()
    }

    /// Whether the stack holds no entry.
    pub fn is_empty(&self) -> (r: bool)
        ensures
            r == (self.entries().len() == 0),
    {
        self.entries.len() == 0
    }

    /// Pushes `item` on top under a fresh identifier, which is returned.
    pub fn push(&mut self, item: T) -> (id: EntryId)
        requires
            old(self).well_formed(),
        ensures
            final(self).well_formed(),
            id == old(self).next_id(),
            final(self).entries() == old(self).entries().push(StackEntry { id, payload: item }),
            final(self).next_id() == next_id_after(old(self).next_id()),
            final(self).counter_wrapped() == (old(self).counter_wrapped() || id == u64::MAX),
    {
        let id = self.next_id;
        self.entries.push(StackEntry { id, payload: item });
        self.next_id = id.wrapping_add(1);
        let ghost wrapped = self.wrapped@ || id == u64::MAX;
        self.wrapped = Ghost(wrapped);
        id
    }

    /// Removes the top entry and hands it back; an empty stack is left as it is.
    pub fn pop(&mut self) -> (r: Option<StackEntry<T>>)
        requires
            old(self).well_formed(),
        ensures
            final(self).well_formed(),
            final(self).next_id() == old(self).next_id(),
            final(self).counter_wrapped() == old(self).counter_wrapped(),
            old(self).entries().len() == 0 ==> r is None && final(self).entries() == old(
                self,
            ).entries(),
            old(self).entries().len() > 0 ==> r == Some(old(self).entries().last())
                && final(self).entries() == old(self).entries().drop_last(),
    {
        self.entries.pop()
    }

    /// Removes every entry whose identifier is `id`. The order of the others is kept.
    pub fn remove(&mut self, id: EntryId)
        requires
            old(self).well_formed(),
        ensures
            final(self).well_formed(),
            final(self).entries() == without_id(old(self).entries(), id),
            final(self).next_id() == old(self).next_id(),
            final(self).counter_wrapped() == old(self).counter_wrapped(),
    {
        let ids = vec![id];
        self.retain_listed(&ids, false);
        proof {
            let by_list = |e: StackEntry<T>| ids@.contains(e.id) == false;
            let by_id = |e: StackEntry<T>| e.id != id;
            assert forall|e: StackEntry<T>| #[trigger] by_list(e) == by_id(e) by {
                if e.id == id {
                    assert(ids@[0] == e.id);
                }
            }
            assert(by_list =~= by_id);
        }
    }

    /// Removes every entry whose identifier is listed in `ids`. The order of the
    /// others is kept.
    pub fn remove_many(&mut self, ids: &Vec<EntryId>)
        requires
            old(self).well_formed(),
        ensures
            final(self).well_formed(),
            final(self).entries() == without_ids(old(self).entries(), ids@),
            final(self).next_id() == old(self).next_id(),
            final(self).counter_wrapped() == old(self).counter_wrapped(),
    {
        self.retain_listed(ids, false);
        proof {
            let by_list = |e: StackEntry<T>| ids@.contains(e.id) == false;
            let by_id = |e: StackEntry<T>| !ids@.contains(e.id);
            assert(by_list =~= by_id);
        }
    }

    /// Removes every entry whose identifier is not `id`.
    pub fn remove_all_except(&mut self, id: EntryId)
        requires
            old(self).well_formed(),
        ensures
            final(self).well_formed(),
            final(self).entries() == only_id(old(self).entries(), id),
            final(self).next_id() == old(self).next_id(),
            final(self).counter_wrapped() == old(self).counter_wrapped(),
    {
        let ids = vec![id];
        self.retain_listed(&ids, true);
        proof {
            let by_list = |e: StackEntry<T>| ids@.contains(e.id) == true;
            let by_id = |e: StackEntry<T>| e.id == id;
            assert forall|e: StackEntry<T>| #[trigger] by_list(e) == by_id(e) by {
                if e.id == id {
                    assert(ids@[0] == e.id);
                }
            }
            assert(by_list =~= by_id);
        }
    }

    /// Keeps the entries whose identifier is listed in `ids` exactly when
    /// `keep_listed` holds, in their order.
    fn retain_listed(&mut self, ids: &Vec<EntryId>, keep_listed: bool)
        requires
            old(self).well_formed(),
        ensures
            final(self).well_formed(),
            final(self).entries() == old(self).entries().filter(
                |e: StackEntry<T>| ids@.contains(e.id) == keep_listed,
            ),
            final(self).next_id() == old(self).next_id(),
            final(self).counter_wrapped() == old(self).counter_wrapped(),
    {
        let ghost p = |e: StackEntry<T>| ids@.contains(e.id) == keep_listed;
        let ghost before = self.entries@;
        let ghost n = before.len() as int;
        let mut i: usize = 0;
        let ghost mut k: int = 0;
        while i < self.entries.len()
            invariant
                n == before.len(),
                before == old(self).entries@,
                p == (|e: StackEntry<T>| ids@.contains(e.id) == keep_listed),
                0 <= k <= n,
                self.entries@ == before.subrange(0, k).filter(p) + before.subrange(k, n),
                i == before.subrange(0, k).filter(p).len(),
                self.next_id == old(self).next_id,
                self.wrapped == old(self).wrapped,
            decreases n - k,
        {
            proof {
                assert(before.subrange(0, k + 1) =~= before.subrange(0, k).push(before[k]));
                before.subrange(0, k).lemma_filter_push(before[k], p);
                assert(self.entries@[i as int] == before.subrange(k, n)[0]);
                assert(self.entries@[i as int] == before[k]);
            }
            if listed(ids, self.entries[i].id) == keep_listed {
                i = i + 1;
                proof {
                    assert(p(before[k]));
                    assert(before.subrange(0, k + 1).filter(p) == before.subrange(0, k).filter(
                        p,
                    ).push(before[k]));
                    assert(self.entries@ =~= before.subrange(0, k + 1).filter(p) + before.subrange(
                        k + 1,
                        n,
                    ));
                }
            } else {
                self.entries.remove(i);
                proof {
                    assert(!p(before[k]));
                    assert(before.subrange(0, k + 1).filter(p) == before.subrange(0, k).filter(p));
                    assert(self.entries@ =~= before.subrange(0, k + 1).filter(p) + before.subrange(
                        k + 1,
                        n,
                    ));
                }
            }
            proof {
                k = k + 1;
            }
        }
        proof {
            assert(before.subrange(0, n) =~= before);
            assert(self.entries@ =~= before.filter(p));
            if !self.wrapped@ {
                lemma_filter_keeps_order(before, p, self.next_id);
            }
        }
    }

    /// Replaces the payload of the lowest entry whose identifier is `id`, keeping
    /// its place and identifier, and hands back the payload it held. Without such
    /// an entry nothing changes.
    pub fn modify(&mut self, id: EntryId, item: T) -> (r: Option<T>)
        requires
            old(self).well_formed(),
        ensures
            final(self).well_formed(),
            final(self).next_id() == old(self).next_id(),
            final(self).counter_wrapped() == old(self).counter_wrapped(),
            match first_index_of(old(self).entries(), id) {
                Some(i) => r == Some(old(self).entries()[i].payload) && final(self).entries()
                    == old(self).entries().update(i, StackEntry { id, payload: item }),
                None => r is None && final(self).entries() == old(self).entries(),
            },
    {
        let n = self.entries.len();
        let mut i: usize = 0;
        while i < n
            invariant
                n == self.entries@.len(),
                0 <= i <= n,
                self.entries@ == old(self).entries@,
                self.well_formed(),
                self.next_id == old(self).next_id,
                self.wrapped == old(self).wrapped,
                forall|j: int| 0 <= j < i ==> self.entries@[j].id != id,
            decreases n - i,
        {
            if self.entries[i].id == id {
                let ghost before = self.entries@;
                let previous = self.entries.remove(i);
                self.entries.insert(i, StackEntry { id, payload: item });
                proof {
                    assert(self.entries@ =~= before.update(i as int, StackEntry { id, payload: item }));
                    lemma_first_index_found(before, id, i as int);
                    assert forall|j: int| 0 <= j < n implies #[trigger] self.entries@[j].id
                        == before[j].id by {}
                }
                proof {
                    if !self.wrapped@ {
                        assert(ids_ordered(before, self.next_id));
                    }
                }
                return Some(previous.payload);
            }
            i = i + 1;
        }
        proof {
            lemma_first_index_absent(self.entries@, id);
        }
        None
    }

    /// The identifier of the top entry, if any.
    pub fn top_id(&self) -> (r: Option<EntryId>)
        ensures
            self.entries().len() == 0 ==> r is None,
            self.entries().len() > 0 ==> r == Some(self.entries().last().id),
    {
        let n = self.entries.len();
        if n == 0 {
            None
        } else {
            Some(self.entries[n - 1].id)
        }
    }

    /// The identifier of the bottom entry, if any.
    pub fn bottom_id(&self) -> (r: Option<EntryId>)
        ensures
            self.entries().len() == 0 ==> r is None,
            self.entries().len() > 0 ==> r == Some(self.entries()[0].id),
    {
        if self.entries.len() == 0 {
            None
        } else {
            Some(self.entries[0].id)
        }
    }

    /// Whether some entry has identifier `id`.
    pub fn contains_id(&self, id: EntryId) -> (r: bool)
        ensures
            r == has_id(self.entries(), id),
    {
        let mut i: usize = 0;
        while i < self.entries.len()
            invariant
                0 <= i <= self.entries@.len(),
                forall|j: int| 0 <= j < i ==> self.entries@[j].id != id,
            decreases self.entries@.len() - i,
        {
            if self.entries[i].id == id {
                return true;
            }
            i = i + 1;
        }
        false
    }

    /// The entry at position `i` from the bottom, if there is one.
    pub fn entry(&self, i: usize) -> (r: Option<&StackEntry<T>>)
        ensures
            i < self.entries().len() ==> r is Some && *r->Some_0 == self.entries()[i as int],
            i >= self.entries().len() ==> r is None,
    {
        if i < self.entries.len() {
            Some(&self.entries[i])
        } else {
            None
        }
    }

    /// The payload of the top entry, if any.
    pub fn active(&self) -> (r: Option<&T>)
        ensures
            r is Some <==> self.entries().len() > 0,
            r is Some ==> *r->Some_0 == self.entries().last().payload,
    {
        let n = self.entries.len();
        if n == 0 {
            None
        } else {
            Some(&self.entries[n - 1].payload)
        }
    }
}

/// The entries and next identifier that a run of operations leaves, where `Some(x)`
/// pushes `x` and `None` pops, exactly as [`OverlayStack::push`] and
/// [`OverlayStack::pop`] state.
pub open spec fn replay<T>(entries: Seq<StackEntry<T>>, next_id: u64, ops: Seq<Option<T>>) -> (
    Seq<StackEntry<T>>,
    u64,
)
    decreases ops.len(),
{
    if ops.len() == 0 {
        (entries, next_id)
    } else {
        let (e, n) = replay(entries, next_id, ops.drop_last());
        match ops.last() {
            Some(x) => (e.push(StackEntry { id: n, payload: x }), next_id_after(n)),
            None => (
                if e.len() == 0 {
                    e
                } else {
                    e.drop_last()
                },
                n,
            ),
        }
    }
}

/// Number of pushes in a run of operations.
pub open spec fn push_count<T>(ops: Seq<Option<T>>) -> nat
    decreases ops.len(),
{
    if ops.len() == 0 {
        0
    } else {
        push_count(ops.drop_last()) + if ops.last() is Some {
            1nat
        } else {
            0nat
        }
    }
}

/// A run of pushes of `items`, in order.
pub open spec fn pushes<T>(items: Seq<T>) -> Seq<Option<T>> {
    items.map_values(|x: T| Some(x))
}

/// A run of `k` pops.
pub open spec fn pops<T>(k: nat) -> Seq<Option<T>> {
    Seq::new(k, |i: int| None)
}

/// Stack discipline: after any run of pushes and pops on a stack whose identifier
/// counter does not wrap during the run, the identifiers still increase from bottom
/// to top, so the active (top) entry is the surviving entry with the highest
/// identifier.
pub proof fn lemma_active_is_highest<T>(
    entries: Seq<StackEntry<T>>,
    next_id: u64,
    ops: Seq<Option<T>>,
)
    requires
        ids_ordered(entries, next_id),
        next_id + push_count(ops) <= u64::MAX,
    ensures
        ids_ordered(replay(entries, next_id, ops).0, replay(entries, next_id, ops).1),
        replay(entries, next_id, ops).1 == next_id + push_count(ops),
        ({
            let e = replay(entries, next_id, ops).0;
            forall|i: int| 0 <= i < e.len() - 1 ==> e[i].id < e.last().id
        }),
    decreases ops.len(),
{
    if ops.len() > 0 {
        lemma_active_is_highest(entries, next_id, ops.drop_last());
        let (e, n) = replay(entries, next_id, ops.drop_last());
        match ops.last() {
            Some(x) => {
                let e2 = e.push(StackEntry { id: n, payload: x });
                assert(ids_ordered(e2, next_id_after(n)));
            },
            None => {
                if e.len() > 0 {
                    assert(ids_ordered(e.drop_last(), n));
                }
            },
        }
    }
}

proof fn lemma_pushes_extend<T>(entries: Seq<StackEntry<T>>, next_id: u64, items: Seq<T>)
    ensures
        replay(entries, next_id, pushes(items)).0.len() == entries.len() + items.len(),
        replay(entries, next_id, pushes(items)).0.subrange(0, entries.len() as int) == entries,
    decreases items.len(),
{
    if items.len() > 0 {
        assert(pushes(items).drop_last() =~= pushes(items.drop_last()));
        lemma_pushes_extend(entries, next_id, items.drop_last());
        let e = replay(entries, next_id, pushes(items.drop_last())).0;
        assert(e.push(StackEntry { id: 0, payload: items.last() }).subrange(
            0,
            entries.len() as int,
        ) =~= e.subrange(0, entries.len() as int));
        let n = replay(entries, next_id, pushes(items.drop_last())).1;
        assert(e.push(StackEntry { id: n, payload: items.last() }).subrange(
            0,
            entries.len() as int,
        ) =~= e.subrange(0, entries.len() as int));
    }
}

proof fn lemma_pops_shrink<T>(entries: Seq<StackEntry<T>>, next_id: u64, ops: Seq<Option<T>>, k: nat)
    requires
        k <= replay(entries, next_id, ops).0.len(),
    ensures
        ({
            let e = replay(entries, next_id, ops).0;
            replay(entries, next_id, ops + pops(k)).0 == e.subrange(0, e.len() - k)
        }),
    decreases k,
{
    let e = replay(entries, next_id, ops).0;
    if k == 0 {
        assert(ops + pops::<T>(0) =~= ops);
        assert(e.subrange(0, e.len() as int) =~= e);
    } else {
        assert((ops + pops(k)).drop_last() =~= ops + pops((k - 1) as nat));
        lemma_pops_shrink(entries, next_id, ops, (k - 1) as nat);
        assert(e.subrange(0, e.len() - (k - 1)).drop_last() =~= e.subrange(0, e.len() - k));
    }
}

/// Pushing `n` payloads and then popping `n` times leaves the entries as they were;
/// from an empty stack, it leaves the stack empty.
pub proof fn lemma_push_then_pop_all<T>(entries: Seq<StackEntry<T>>, next_id: u64, items: Seq<T>)
    ensures
        replay(entries, next_id, pushes(items) + pops(items.len())).0 == entries,
{
    lemma_pushes_extend(entries, next_id, items);
    lemma_pops_shrink(entries, next_id, pushes(items), items.len());
}

/// The payloads of `entries`, from bottom to top.
pub open spec fn payloads_of<T>(entries: Seq<StackEntry<T>>) -> Seq<T> {
    entries.map_values(|e: StackEntry<T>| e.payload)
}

/// The payloads a run of operations leaves: `Some(x)` appends `x`, `None` drops
/// the last payload, if there is one.
pub open spec fn payload_replay<T>(payloads: Seq<T>, ops: Seq<Option<T>>) -> Seq<T>
    decreases ops.len(),
{
    if ops.len() == 0 {
        payloads
    } else {
        let p = payload_replay(payloads, ops.drop_last());
        match ops.last() {
            Some(x) => p.push(x),
            None => if p.len() == 0 {
                p
            } else {
                p.drop_last()
            },
        }
    }
}

/// Stack discipline for any run, whether the identifier counter wraps or not: the
/// payloads follow the model in which a push appends and a pop drops the last
/// payload, so the active payload is the last one of the model, the most recently
/// pushed payload that survives.
pub proof fn lemma_payloads_follow_model<T>(
    entries: Seq<StackEntry<T>>,
    next_id: u64,
    ops: Seq<Option<T>>,
)
    ensures
        payloads_of(replay(entries, next_id, ops).0) == payload_replay(payloads_of(entries), ops),
    decreases ops.len(),
{
    if ops.len() > 0 {
        lemma_payloads_follow_model(entries, next_id, ops.drop_last());
        let (e, n) = replay(entries, next_id, ops.drop_last());
        match ops.last() {
            Some(x) => {
                assert(payloads_of(e.push(StackEntry { id: n, payload: x })) =~= payloads_of(e).push(
                    x,
                ));
            },
            None => {
                if e.len() > 0 {
                    assert(payloads_of(e.drop_last()) =~= payloads_of(e).drop_last());
                }
            },
        }
    }
}

} // verus!
