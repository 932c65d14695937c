//! Small utilities: route-set membership, a change test for nested options, and a
//! message channel.

use vstd::prelude::*;
use vstd::string::*;
use crate::text::same_range;

verus! {

/// Whether `route` matches `path`. A route ending in `*` matches every path that
/// starts with the rest of it; any other route matches the path without one
/// trailing slash.
pub open spec fn route_matches(route: Seq<char>, path: Seq<char>) -> bool {
    if route.len() > 0 && route.last() == '*' {
        let prefix = route.drop_last();
        path.len() >= prefix.len() && path.subrange(0, prefix.len() as int) == prefix
    } else {
        route == if path.len() > 0 && path.last() == '/' {
            path.drop_last()
        } else {
            path
        }
    }
}

/// Whether `route` matches `path` (see [`route_matches`]).
pub fn route_match(route: &str, path: &str) -> (r: bool)
    ensures
        r == route_matches(route@, path@),
{
    let rn = route.unicode_len();
    let pn = path.unicode_len();
    if rn > 0 && route.get_char(rn - 1) == '*' {
        let k = rn - 1;
        if pn < k {
            return false;
        }
        let r = same_range(path, 0, k, route, 0, k);
        proof {
            assert(route@.subrange(0, k as int) =~= route@.drop_last());
        }
        r
    } else {
        let end: usize = if pn > 0 && path.get_char(pn - 1) == '/' {
            pn - 1
        } else {
            pn
        };
        let r = same_range(route, 0, rn, path, 0, end);
        proof {
            assert(route@.subrange(0, rn as int) =~= route@);
            if pn > 0 && path@[pn - 1] == '/' {
                assert(path@.subrange(0, end as int) =~= path@.drop_last());
            } else {
                assert(path@.subrange(0, end as int) =~= path@);
            }
        }
        r
    }
}

/// Whether some route of `routes` matches `path`.
pub fn route_in_set(routes: &Vec<&str>, path: &str) -> (r: bool)
    ensures
        r == exists|i: int| 0 <= i < routes@.len() && route_matches(routes@[i]@, path@),
{
    let mut i: usize = 0;
    while i < routes.len()
        invariant
            0 <= i <= routes@.len(),
            forall|j: int| 0 <= j < i ==> !route_matches(routes@[j]@, path@),
        decreases routes@.len() - i,
    {
        if route_match(routes[i], path) {
            return true;
        }
        i = i + 1;
    }
    false
}

/// Whether a memoised nested option changed between present and absent, at either
/// level, without looking at the data.
pub fn nested_option_memo_compare_fn<T>(old: Option<&Option<T>>, new: Option<&Option<T>>) -> (r:
    bool)
    ensures
        r == match (old, new) {
            (Some(_), None) => true,
            (None, Some(_)) => true,
            (Some(a), Some(b)) => a.is_some() != b.is_some(),
            (None, None) => false,
        },
{
    match (old, new) {
        (Some(_), None) => true,
        (None, Some(_)) => true,
        (Some(a), Some(b)) => a.is_some() != b.is_some(),
        (None, None) => false,
    }
}

/// A queue of messages pushed downstream and consumed all at once.
pub struct MsgChannel<Msg> {
    msgs: Vec<Msg>,
}

impl<Msg> MsgChannel<Msg> {
    /// The messages waiting, oldest first.
    pub closed spec fn pending(&self) -> Seq<Msg> {
        self.msgs@
    }

    /// A channel with no message.
    pub fn new() -> (r: Self)
        ensures
            r.pending() == Seq::<Msg>::empty(),
    {
        MsgChannel { msgs: Vec::new() }
    }

    /// Pushes a new message.
    pub fn push(&mut self, msg: Msg)
        ensures
            final(self).pending() == old(self).pending().push(msg),
    {
        self.msgs.push(msg);
    }

    /// Takes every waiting message, oldest first, leaving none.
    pub fn consume(&mut self) -> (r: Vec<Msg>)
        ensures
            r@ == old(self).pending(),
            final(self).pending() == Seq::<Msg>::empty(),
    {
        let mut taken: Vec<Msg> = Vec::new();
        std::mem::swap(&mut taken, &mut self.msgs);
        taken
    }
}

/// Whether a component is rendered as an icon or as text.
#[derive(Clone, Copy, Debug, PartialEq, Eq, Hash, Structural)]
pub enum Flavor {
    Icon,
    Text,
}

} // verus!
