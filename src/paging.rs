//! Paging through a record set a window at a time.

use vstd::prelude::*;

verus! {

/// Number of pages of `limit` records that `total` records fill; one page holds
/// everything when `limit` is zero.
pub open spec fn pages_of(total: u64, limit: u64) -> int {
    if limit == 0 {
        1
    } else {
        (total + limit - 1) / (limit as int)
    }
}

/// Number of pages of `limit` records that `total` records fill; one page holds
/// everything when `limit` is zero.
pub fn page_count(total: u64, limit: u64) -> (r: u64)
    ensures
        r == pages_of(total, limit),
{
    if limit == 0 {
        return 1;
    }
    let q = total / limit;
    proof {
        let t = total as int;
        let l = limit as int;
        if t % l != 0 {
            assert(l >= 2);
            assert(t / l <= t / 2) by (nonlinear_arith)
                requires
                    l >= 2,
                    t >= 0,
            ;
        }
    }
    let r = if total % limit == 0 {
        q
    } else {
        q + 1
    };
    proof {
        let t = total as int;
        let l = limit as int;
        assert(t == l * (t / l) + t % l) by (nonlinear_arith)
            requires
                l > 0,
        ;
        assert((t + l - 1) / l == if t % l == 0 {
            t / l
        } else {
            t / l + 1
        }) by (nonlinear_arith)
            requires
                l > 0,
                t == l * (t / l) + t % l,
                0 <= t % l < l,
        ;
    }
    r
}

/// Whether a page comes before page `offset` (counted from zero).
pub fn has_previous_page(offset: u64) -> (r: bool)
    ensures
        r == (offset > 0),
{
    offset != 0
}

/// Whether a page comes after page `offset` (counted from zero) of `total`
/// records in pages of `limit`.
pub fn has_next_page(offset: u64, total: u64, limit: u64) -> (r: bool)
    ensures
        r == (offset + 1 < pages_of(total, limit)),
{
    let pages = page_count(total, limit);
    pages > 0 && offset < pages - 1
}

} // verus!
