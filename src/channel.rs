//! A registry of overlay stacks, each scoped by a channel tag, so that independent
//! features can use the same stack machinery without sharing state.

use vstd::prelude::*;
use crate::stack::{EntryId, OverlayStack, StackEntry, without_id, without_ids, only_id, first_index_of};
use crate::text::same_text;
use vstd::string::*;

verus! {

/// Why a registry operation was refused.
#[derive(Clone, Copy, Debug, PartialEq, Eq, Structural)]
pub enum ChannelError {
    /// No stack is registered under the tag.
    UnknownTag,
    /// A stack is already registered under the tag.
    DuplicateTag,
}

/// A stack and the tag it is registered under.
struct Channel<T> {
    tag: String,
    stack: OverlayStack<T>,
}

/// Tags are unique and every stack is well formed.
spec fn channels_valid<T>(c: Seq<Channel<T>>) -> bool {
    &&& forall|i: int, j: int| 0 <= i < j < c.len() ==> c[i].tag@ != c[j].tag@
    &&& forall|i: int| 0 <= i < c.len() ==> (#[trigger] c[i]).stack.well_formed()
}

spec fn has_tag<T>(c: Seq<Channel<T>>, tag: Seq<char>) -> bool {
    exists|i: int| 0 <= i < c.len() && c[i].tag@ == tag
}

spec fn index_of_tag<T>(c: Seq<Channel<T>>, tag: Seq<char>) -> int {
    choose|i: int| 0 <= i < c.len() && c[i].tag@ == tag
}

proof fn lemma_index_of_tag<T>(c: Seq<Channel<T>>, i: int)
    requires
        channels_valid(c),
        0 <= i < c.len(),
    ensures
        has_tag(c, c[i].tag@),
        index_of_tag(c, c[i].tag@) == i,
{
    let j = index_of_tag(c, c[i].tag@);
    assert(0 <= j < c.len() && c[j].tag@ == c[i].tag@);
}

/// Replacing the stack at index `i` keeps the tags and touches no other stack.
proof fn lemma_replace_stack<T>(c: Seq<Channel<T>>, i: int, d: Seq<Channel<T>>)
    requires
        channels_valid(c),
        0 <= i < c.len(),
        d.len() == c.len(),
        d[i].tag@ == c[i].tag@,
        d[i].stack.well_formed(),
        forall|j: int| 0 <= j < c.len() && j != i ==> d[j] == c[j],
    ensures
        channels_valid(d),
        has_tag(d, c[i].tag@),
        index_of_tag(d, c[i].tag@) == i,
        forall|t: Seq<char>| #[trigger] has_tag(d, t) == has_tag(c, t),
        forall|t: Seq<char>|
            has_tag(c, t) && t != c[i].tag@ ==> d[index_of_tag(d, t)] == c[index_of_tag(c, t)],
{
    assert forall|a: int, b: int| 0 <= a < b < d.len() implies d[a].tag@ != d[b].tag@ by {
        assert(d[a].tag@ == c[a].tag@);
        assert(d[b].tag@ == c[b].tag@);
    }
    assert forall|t: Seq<char>| #[trigger] has_tag(d, t) == has_tag(c, t) by {
        if has_tag(c, t) {
            let k = index_of_tag(c, t);
            assert(d[k].tag@ == t);
        }
        if has_tag(d, t) {
            let k = index_of_tag(d, t);
            assert(c[k].tag@ == t);
        }
    }
    lemma_index_of_tag(d, i);
    assert forall|t: Seq<char>| has_tag(c, t) && t != c[i].tag@ implies d[index_of_tag(d, t)]
        == c[index_of_tag(c, t)] by {
        let k = index_of_tag(c, t);
        assert(k != i);
        assert(d[k] == c[k]);
        lemma_index_of_tag(d, k);
    }
}

/// Removing the channel at index `i` keeps the other tags and their stacks.
proof fn lemma_remove_channel<T>(c: Seq<Channel<T>>, i: int)
    requires
        channels_valid(c),
        0 <= i < c.len(),
    ensures
        channels_valid(c.remove(i)),
        !has_tag(c.remove(i), c[i].tag@),
        forall|t: Seq<char>| t != c[i].tag@ ==> #[trigger] has_tag(c.remove(i), t) == has_tag(c, t),
        forall|t: Seq<char>|
            has_tag(c, t) && t != c[i].tag@ ==> c.remove(i)[index_of_tag(c.remove(i), t)]
                == c[index_of_tag(c, t)],
{
    let d = c.remove(i);
    assert forall|j: int| 0 <= j < d.len() implies #[trigger] d[j] == (if j < i {
        c[j]
    } else {
        c[j + 1]
    }) by {}
    assert forall|a: int, b: int| 0 <= a < b < d.len() implies d[a].tag@ != d[b].tag@ by {
        let ca = if a < i { a } else { a + 1 };
        let cb = if b < i { b } else { b + 1 };
        assert(d[a] == c[ca]);
        assert(d[b] == c[cb]);
    }
    assert forall|j: int| 0 <= j < d.len() implies (#[trigger] d[j]).stack.well_formed() by {
        if j < i {
            assert(d[j] == c[j]);
        } else {
            assert(d[j] == c[j + 1]);
        }
    }
    if has_tag(d, c[i].tag@) {
        let k = index_of_tag(d, c[i].tag@);
        let ck = if k < i { k } else { k + 1 };
        assert(d[k] == c[ck]);
    }
    assert forall|t: Seq<char>| t != c[i].tag@ implies #[trigger] has_tag(d, t) == has_tag(c, t) by {
        if has_tag(c, t) {
            let k = index_of_tag(c, t);
            assert(k != i);
            let dk = if k < i { k } else { k - 1 };
            assert(d[dk] == c[k]);
        }
        if has_tag(d, t) {
            let k = index_of_tag(d, t);
            let ck = if k < i { k } else { k + 1 };
            assert(d[k] == c[ck]);
        }
    }
    assert forall|t: Seq<char>| has_tag(c, t) && t != c[i].tag@ implies d[index_of_tag(d, t)]
        == c[index_of_tag(c, t)] by {
        let k = index_of_tag(c, t);
        assert(k != i);
        let dk = if k < i { k } else { k - 1 };
        assert(d[dk] == c[k]);
        lemma_index_of_tag(d, dk);
    }
}

/// Overlay stacks of payloads `T`, one per registered tag.
pub struct ChannelRegistry<T> {
    channels: Vec<Channel<T>>,
}

impl<T> ChannelRegistry<T> {
    pub closed spec fn well_formed(&self) -> bool {
        channels_valid(self.channels@)
    }

    /// Whether a stack is registered under `tag`.
    pub closed spec fn contains(&self, tag: Seq<char>) -> bool {
        has_tag(self.channels@, tag)
    }

    /// The stack registered under `tag`.
    pub closed spec fn stack_of(&self, tag: Seq<char>) -> OverlayStack<T> {
        self.channels@[index_of_tag(self.channels@, tag)].stack
    }

    /// Every tag but `tag` is registered in both or neither, with the same stack.
    pub open spec fn others_unchanged(&self, other: &Self, tag: Seq<char>) -> bool {
        forall|t: Seq<char>|
            t != tag ==> (#[trigger] self.contains(t) == other.contains(t) && (self.contains(t)
                ==> self.stack_of(t) == other.stack_of(t)))
    }

    /// A registry with no tag.
    pub fn new() -> (r: Self)
        ensures
            r.well_formed(),
            forall|t: Seq<char>| !r.contains(t),
    {
        ChannelRegistry { channels: Vec::new() }
    }

    /// The index of the channel registered under `tag`.
    fn find(&self, tag: &str) -> (r: Option<usize>)
        requires
            self.well_formed(),
        ensures
            r is None <==> !self.contains(tag@),
            r is Some ==> r->Some_0 == index_of_tag(self.channels@, tag@) && r->Some_0
                < self.channels@.len(),
    {
        let mut i: usize = 0;
        while i < self.channels.len()
            invariant
                0 <= i <= self.channels@.len(),
                channels_valid(self.channels@),
                forall|j: int| 0 <= j < i ==> self.channels@[j].tag@ != tag@,
            decreases self.channels@.len() - i,
        {
            if same_text(self.channels[i].tag.as_str(), tag) {
                proof {
                    lemma_index_of_tag(self.channels@, i as int);
                }
                return Some(i);
            }
            i = i + 1;
        }
        None
    }

    /// Registers an empty stack under `tag`; a tag that is taken is refused.
    pub fn register(&mut self, tag: &str) -> (r: Result<(), ChannelError>)
        requires
            old(self).well_formed(),
        ensures
            final(self).well_formed(),
            old(self).contains(tag@) ==> r == Err::<(), ChannelError>(ChannelError::DuplicateTag)
                && *final(self) == *old(self),
            !old(self).contains(tag@) ==> ({
                let s = final(self).stack_of(tag@);
                &&& r is Ok
                &&& final(self).contains(tag@)
                &&& s.entries().len() == 0
                &&& s.next_id() == 0
                &&& !s.counter_wrapped()
            }),
            final(self).others_unchanged(old(self), tag@),
    {
        match self.find(tag) {
            Some(_) => Err(ChannelError::DuplicateTag),
            None => {
                let ghost c = self.channels@;
                self.channels.push(Channel { tag: String::from_str(tag), stack: OverlayStack::new() });
                proof {
                    let d = self.channels@;
                    assert forall|i: int| 0 <= i < c.len() implies d[i] == c[i] by {}
                    assert(channels_valid(d)) by {
                        assert forall|a: int, b: int| 0 <= a < b < d.len() implies d[a].tag@
                            != d[b].tag@ by {
                            if b == c.len() {
                                assert(c[a].tag@ != tag@);
                            }
                        }
                    }
                    lemma_index_of_tag(d, c.len() as int);
                    assert forall|t: Seq<char>| t != tag@ implies #[trigger] has_tag(d, t)
                        == has_tag(c, t) && (has_tag(d, t) ==> d[index_of_tag(d, t)]
                        == c[index_of_tag(c, t)]) by {
                        if has_tag(c, t) {
                            let k = index_of_tag(c, t);
                            assert(d[k] == c[k]);
                            lemma_index_of_tag(d, k);
                        }
                        if has_tag(d, t) {
                            let k = index_of_tag(d, t);
                            assert(k < c.len());
                            assert(c[k].tag@ == t);
                        }
                    }
                }
                Ok(())
            },
        }
    }

    /// Drops the stack registered under `tag`, freeing the tag.
    pub fn unregister(&mut self, tag: &str) -> (r: Result<(), ChannelError>)
        requires
            old(self).well_formed(),
        ensures
            final(self).well_formed(),
            final(self).others_unchanged(old(self), tag@),
            !old(self).contains(tag@) ==> r == Err::<(), ChannelError>(ChannelError::UnknownTag)
                && *final(self) == *old(self),
            old(self).contains(tag@) ==> r is Ok && !final(self).contains(tag@),
    {
        match self.find(tag) {
            None => Err(ChannelError::UnknownTag),
            Some(i) => {
                let ghost c = self.channels@;
                self.channels.remove(i);
                proof {
                    lemma_index_of_tag(c, i as int);
                    lemma_remove_channel(c, i as int);
                }
                Ok(())
            },
        }
    }

    /// Pushes `item` on the stack registered under `tag` (see [`OverlayStack::push`]).
    pub fn push(&mut self, tag: &str, item: T) -> (r: Result<EntryId, ChannelError>)
        requires
            old(self).well_formed(),
        ensures
            final(self).well_formed(),
            final(self).others_unchanged(old(self), tag@),
            !old(self).contains(tag@) ==> r == Err::<EntryId, ChannelError>(
                ChannelError::UnknownTag,
            ) && *final(self) == *old(self),
            old(self).contains(tag@) ==> ({
                let s = old(self).stack_of(tag@);
                let id = r->Ok_0;
                &&& r is Ok
                &&& final(self).contains(tag@)
                &&& id == s.next_id()
                &&& final(self).stack_of(tag@).entries() == s.entries().push(
                    StackEntry { id, payload: item },
                )
                &&& final(self).stack_of(tag@).next_id() == crate::stack::next_id_after(
                    s.next_id(),
                )
                &&& final(self).stack_of(tag@).counter_wrapped() == (s.counter_wrapped() || id
                    == u64::MAX)
            }),
    {
        match self.find(tag) {
            None => Err(ChannelError::UnknownTag),
            Some(i) => {
                let ghost c = self.channels@;
                let mut ch = self.channels.remove(i);
                let id = ch.stack.push(item);
                self.channels.insert(i, ch);
                proof {
                    lemma_replace_stack(c, i as int, self.channels@);
                }
                Ok(id)
            },
        }
    }

    /// Pops the stack registered under `tag` (see [`OverlayStack::pop`]).
    pub fn pop(&mut self, tag: &str) -> (r: Result<Option<StackEntry<T>>, ChannelError>)
        requires
            old(self).well_formed(),
        ensures
            final(self).well_formed(),
            final(self).others_unchanged(old(self), tag@),
            !old(self).contains(tag@) ==> r is Err && r->Err_0 == ChannelError::UnknownTag
                && *final(self) == *old(self),
            old(self).contains(tag@) ==> ({
                let s = old(self).stack_of(tag@);
                let t = final(self).stack_of(tag@);
                &&& r is Ok
                &&& final(self).contains(tag@)
                &&& t.next_id() == s.next_id()
                &&& t.counter_wrapped() == s.counter_wrapped()
                &&& s.entries().len() == 0 ==> r->Ok_0 is None && t.entries() == s.entries()
                &&& s.entries().len() > 0 ==> r->Ok_0 == Some(s.entries().last()) && t.entries()
                    == s.entries().drop_last()
            }),
    {
        match self.find(tag) {
            None => Err(ChannelError::UnknownTag),
            Some(i) => {
                let ghost c = self.channels@;
                let mut ch = self.channels.remove(i);
                let e = ch.stack.pop();
                self.channels.insert(i, ch);
                proof {
                    lemma_replace_stack(c, i as int, self.channels@);
                }
                Ok(e)
            },
        }
    }

    /// Removes the entries with identifier `id` from the stack registered under `tag`
    /// (see [`OverlayStack::remove`]).
    pub fn remove(&mut self, tag: &str, id: EntryId) -> (r: Result<(), ChannelError>)
        requires
            old(self).well_formed(),
        ensures
            final(self).well_formed(),
            final(self).others_unchanged(old(self), tag@),
            !old(self).contains(tag@) ==> r is Err && r->Err_0 == ChannelError::UnknownTag
                && *final(self) == *old(self),
            old(self).contains(tag@) ==> ({
                let s = old(self).stack_of(tag@);
                let t = final(self).stack_of(tag@);
                &&& r is Ok
                &&& final(self).contains(tag@)
                &&& t.next_id() == s.next_id()
                &&& t.counter_wrapped() == s.counter_wrapped()
                &&& t.entries() == without_id(s.entries(), id)
            }),
    {
        match self.find(tag) {
            None => Err(ChannelError::UnknownTag),
            Some(i) => {
                let ghost c = self.channels@;
                let mut ch = self.channels.remove(i);
                ch.stack.remove(id);
                self.channels.insert(i, ch);
                proof {
                    lemma_replace_stack(c, i as int, self.channels@);
                }
                Ok(())
            },
        }
    }

    /// Removes the entries whose identifier is listed in `ids` from the stack registered
    /// under `tag` (see [`OverlayStack::remove_many`]).
    pub fn remove_many(&mut self, tag: &str, ids: &Vec<EntryId>) -> (r: Result<(), ChannelError>)
        requires
            old(self).well_formed(),
        ensures
            final(self).well_formed(),
            final(self).others_unchanged(old(self), tag@),
            !old(self).contains(tag@) ==> r is Err && r->Err_0 == ChannelError::UnknownTag
                && *final(self) == *old(self),
            old(self).contains(tag@) ==> ({
                let s = old(self).stack_of(tag@);
                let t = final(self).stack_of(tag@);
                &&& r is Ok
                &&& final(self).contains(tag@)
                &&& t.next_id() == s.next_id()
                &&& t.counter_wrapped() == s.counter_wrapped()
                &&& t.entries() == without_ids(s.entries(), ids@)
            }),
    {
        match self.find(tag) {
            None => Err(ChannelError::UnknownTag),
            Some(i) => {
                let ghost c = self.channels@;
                let mut ch = self.channels.remove(i);
                ch.stack.remove_many(ids);
                self.channels.insert(i, ch);
                proof {
                    lemma_replace_stack(c, i as int, self.channels@);
                }
                Ok(())
            },
        }
    }

    /// Removes the entries whose identifier is not `id` from the stack registered under
    /// `tag` (see [`OverlayStack::remove_all_except`]).
    pub fn remove_all_except(&mut self, tag: &str, id: EntryId) -> (r: Result<(), ChannelError>)
        requires
            old(self).well_formed(),
        ensures
            final(self).well_formed(),
            final(self).others_unchanged(old(self), tag@),
            !old(self).contains(tag@) ==> r is Err && r->Err_0 == ChannelError::UnknownTag
                && *final(self) == *old(self),
            old(self).contains(tag@) ==> ({
                let s = old(self).stack_of(tag@);
                let t = final(self).stack_of(tag@);
                &&& r is Ok
                &&& final(self).contains(tag@)
                &&& t.next_id() == s.next_id()
                &&& t.counter_wrapped() == s.counter_wrapped()
                &&& t.entries() == only_id(s.entries(), id)
            }),
    {
        match self.find(tag) {
            None => Err(ChannelError::UnknownTag),
            Some(i) => {
                let ghost c = self.channels@;
                let mut ch = self.channels.remove(i);
                ch.stack.remove_all_except(id);
                self.channels.insert(i, ch);
                proof {
                    lemma_replace_stack(c, i as int, self.channels@);
                }
                Ok(())
            },
        }
    }

    /// Replaces the payload of entry `id` of the stack registered under `tag`
    /// (see [`OverlayStack::modify`]).
    pub fn modify(&mut self, tag: &str, id: EntryId, item: T) -> (r: Result<Option<T>, ChannelError>)
        requires
            old(self).well_formed(),
        ensures
            final(self).well_formed(),
            final(self).others_unchanged(old(self), tag@),
            !old(self).contains(tag@) ==> r is Err && r->Err_0 == ChannelError::UnknownTag
                && *final(self) == *old(self),
            old(self).contains(tag@) ==> ({
                let s = old(self).stack_of(tag@);
                let t = final(self).stack_of(tag@);
                &&& r is Ok
                &&& final(self).contains(tag@)
                &&& t.next_id() == s.next_id()
                &&& t.counter_wrapped() == s.counter_wrapped()
                &&& match first_index_of(s.entries(), id) {
                    Some(k) => r->Ok_0 == Some(s.entries()[k].payload) && t.entries()
                        == s.entries().update(k, StackEntry { id, payload: item }),
                    None => r->Ok_0 is None && t.entries() == s.entries(),
                }
            }),
    {
        match self.find(tag) {
            None => Err(ChannelError::UnknownTag),
            Some(i) => {
                let ghost c = self.channels@;
                let mut ch = self.channels.remove(i);
                let x = ch.stack.modify(id, item);
                self.channels.insert(i, ch);
                proof {
                    lemma_replace_stack(c, i as int, self.channels@);
                }
                Ok(x)
            },
        }
    }

    /// The active payload of the stack registered under `tag`
    /// (see [`OverlayStack::active`]).
    pub fn active(&self, tag: &str) -> (r: Result<Option<&T>, ChannelError>)
        requires
            self.well_formed(),
        ensures
            !self.contains(tag@) ==> r is Err && r->Err_0 == ChannelError::UnknownTag,
            self.contains(tag@) ==> ({
                let e = self.stack_of(tag@).entries();
                &&& r is Ok
                &&& r->Ok_0 is Some <==> e.len() > 0
                &&& r->Ok_0 is Some ==> *r->Ok_0->Some_0 == e.last().payload
            }),
    {
        match self.find(tag) {
            None => Err(ChannelError::UnknownTag),
            Some(i) => Ok(self.channels[i].stack.active()),
        }
    }
}

} // verus!
