//! Class lists: joining them, and merging Tailwind classes so that later classes
//! override conflicting earlier ones.

use vstd::prelude::*;
use vstd::string::*;

verus! {

/// The class list that Tailwind merging, with the default prefix (none) and
/// separator (`:`), makes of `s`.
pub uninterp spec fn tw_merged(s: Seq<char>) -> Seq<char>;

/// Whether `c` is whitespace: a character with the Unicode White_Space property.
pub open spec fn is_white_space(c: char) -> bool {
    let u = c as u32;
    ||| 0x9 <= u <= 0xD
    ||| u == 0x20
    ||| u == 0x85
    ||| u == 0xA0
    ||| u == 0x1680
    ||| 0x2000 <= u <= 0x200A
    ||| u == 0x2028
    ||| u == 0x2029
    ||| u == 0x202F
    ||| u == 0x205F
    ||| u == 0x3000
}

/// `s` without leading whitespace.
pub open spec fn trim_start(s: Seq<char>) -> Seq<char>
    decreases s.len(),
{
    if s.len() > 0 && is_white_space(s[0]) {
        trim_start(s.subrange(1, s.len() as int))
    } else {
        s
    }
}

/// `s` without trailing whitespace.
pub open spec fn trim_end(s: Seq<char>) -> Seq<char>
    decreases s.len(),
{
    if s.len() > 0 && is_white_space(s.last()) {
        trim_end(s.drop_last())
    } else {
        s
    }
}

/// `s` without leading and trailing whitespace.
pub open spec fn trimmed(s: Seq<char>) -> Seq<char> {
    trim_end(trim_start(s))
}

/// Whether `s` holds no backslash.
pub open spec fn no_backslash(s: Seq<char>) -> bool {
    !s.contains('\\')
}

/// Whether every backslash of `s` is followed by a character that is not
/// whitespace, so that no whitespace-separated class ends in a backslash.
pub open spec fn no_dangling_backslash(s: Seq<char>) -> bool {
    forall|k: int|
        0 <= k < s.len() && #[trigger] s[k] == '\\' ==> k + 1 < s.len() && !is_white_space(s[k + 1])
}

/// A text without backslashes has none dangling.
pub proof fn lemma_no_backslash_none_dangling(s: Seq<char>)
    requires
        no_backslash(s),
    ensures
        no_dangling_backslash(s),
{
    assert forall|k: int| 0 <= k < s.len() && #[trigger] s[k] == '\\' implies k + 1 < s.len()
        && !is_white_space(s[k + 1]) by {
        assert(s.contains(s[k]));
    }
}

proof fn lemma_trim_start_keeps(s: Seq<char>)
    requires
        no_dangling_backslash(s),
    ensures
        no_dangling_backslash(trim_start(s)),
    decreases s.len(),
{
    if s.len() > 0 && is_white_space(s[0]) {
        let t = s.subrange(1, s.len() as int);
        assert forall|k: int| 0 <= k < t.len() && #[trigger] t[k] == '\\' implies k + 1 < t.len()
            && !is_white_space(t[k + 1]) by {
            assert(s[k + 1] == t[k]);
        }
        lemma_trim_start_keeps(t);
    }
}

proof fn lemma_trim_end_keeps(s: Seq<char>)
    requires
        no_dangling_backslash(s),
    ensures
        no_dangling_backslash(trim_end(s)),
    decreases s.len(),
{
    if s.len() > 0 && is_white_space(s.last()) {
        let t = s.drop_last();
        assert forall|k: int| 0 <= k < t.len() && #[trigger] t[k] == '\\' implies k + 1 < t.len()
            && !is_white_space(t[k + 1]) by {
            assert(s[k] == t[k]);
            if k + 1 == t.len() {
                assert(s[k + 1] == s.last());
            }
        }
        lemma_trim_end_keeps(t);
    }
}

/// Trimming keeps every backslash followed by a character that is not whitespace.
pub proof fn lemma_trimmed_keeps(s: Seq<char>)
    requires
        no_dangling_backslash(s),
    ensures
        no_dangling_backslash(trimmed(s)),
{
    lemma_trim_start_keeps(s);
    lemma_trim_end_keeps(trim_start(s));
}

/// Whether `c` is whitespace (see [`is_white_space`]).
pub fn white_space(c: char) -> (r: bool)
    ensures
        r == is_white_space(c),
{
    let u = c as u32;
    (0x9 <= u && u <= 0xD) || u == 0x20 || u == 0x85 || u == 0xA0 || u == 0x1680 || (0x2000 <= u
        && u <= 0x200A) || u == 0x2028 || u == 0x2029 || u == 0x202F || u == 0x205F || u == 0x3000
}

/// Whether every backslash of `s` is followed by a character that is not
/// whitespace, as class lists handed to the Tailwind merger must be.
pub fn has_no_dangling_backslash(s: &str) -> (r: bool)
    ensures
        r == no_dangling_backslash(s@),
{
    let n = s.unicode_len();
    let mut i: usize = 0;
    while i < n
        invariant
            n == s@.len(),
            0 <= i <= n,
            forall|k: int|
                0 <= k < i && #[trigger] s@[k] == '\\' ==> k + 1 < s@.len() && !is_white_space(
                    s@[k + 1],
                ),
        decreases n - i,
    {
        if s.get_char(i) == '\\' {
            if i + 1 >= n || white_space(s.get_char(i + 1)) {
                return false;
            }
        }
        i = i + 1;
    }
    true
}

/// Relies on `tailwind_fuse::merge::tw_merge_options` with options given in full
/// (empty prefix, `:` separator), which resolves conflicts between the Tailwind
/// classes of a class list, later ones winning; with the options fixed, the
/// result depends on the class list alone. Its parser splits the list at
/// whitespace, and a backslash that ends a class inside a bracketed part makes it
/// slice past the end, so a backslash must be followed by a character that is not
/// whitespace.
#[verifier::external_body]
pub(crate) fn merge_classes(s: &str) -> (r: String)
    requires
        no_dangling_backslash(s@),
    ensures
        r@ == tw_merged(s@),
{
    let options = tailwind_fuse::merge::MergeOptions { prefix: "", separator: ":" };
    tailwind_fuse::merge::tw_merge_options(s, options)
}

/// Relies on `str::trim`: the text without leading and trailing whitespace, where
/// whitespace is the Unicode White_Space property.
#[verifier::external_body]
fn trim(s: &str) -> (r: &str)
    ensures
        r@ == trimmed(s@),
{
    s.trim()
}

/// The class lists `parts`, each trimmed, the empty ones skipped, the others
/// separated by one space.
pub open spec fn tw_joined(parts: Seq<Seq<char>>) -> Seq<char>
    decreases parts.len(),
{
    if parts.len() == 0 {
        Seq::empty()
    } else {
        let acc = tw_joined(parts.drop_last());
        let t = trimmed(parts.last());
        if t.len() == 0 {
            acc
        } else if acc.len() == 0 {
            t
        } else {
            acc + " "@ + t
        }
    }
}

/// The views of `parts`.
pub open spec fn views_of(parts: Seq<&str>) -> Seq<Seq<char>> {
    parts.map_values(|p: &str| p@)
}

/// Joins class lists: each is trimmed, empty ones are skipped, and the others are
/// separated by one space.
pub fn join_classes(parts: &Vec<&str>) -> (r: String)
    ensures
        r@ == tw_joined(views_of(parts@)),
        (forall|i: int| 0 <= i < parts@.len() ==> no_dangling_backslash(#[trigger] parts@[i]@))
            ==> no_dangling_backslash(r@),
{
    proof {
        reveal_strlit(" ");
    }
    let mut r = String::from_str("");
    proof {
        reveal_strlit("");
        assert(views_of(parts@.subrange(0, 0)) =~= Seq::<Seq<char>>::empty());
    }
    let mut i: usize = 0;
    while i < parts.len()
        invariant
            0 <= i <= parts@.len(),
            r@ == tw_joined(views_of(parts@.subrange(0, i as int))),
            (forall|k: int| 0 <= k < i ==> no_dangling_backslash(#[trigger] parts@[k]@))
                ==> no_dangling_backslash(r@),
            " "@ == seq![' '],
        decreases parts@.len() - i,
    {
        let t = trim(parts[i]);
        let ghost before = r@;
        proof {
            assert(views_of(parts@.subrange(0, i + 1)).drop_last() =~= views_of(
                parts@.subrange(0, i as int),
            ));
            assert(views_of(parts@.subrange(0, i + 1)).last() == parts@[i as int]@);
        }
        if t.unicode_len() > 0 {
            if r.as_str().unicode_len() > 0 {
                r.append(" ");
            }
            r.append(t);
        }
        proof {
            if forall|k: int| 0 <= k < i + 1 ==> no_dangling_backslash(#[trigger] parts@[k]@) {
                assert(no_dangling_backslash(parts@[i as int]@));
                assert(no_dangling_backslash(before));
                lemma_trimmed_keeps(parts@[i as int]@);
                assert forall|k: int| 0 <= k < r@.len() && #[trigger] r@[k] == '\\' implies k + 1
                    < r@.len() && !is_white_space(r@[k + 1]) by {
                    if t@.len() > 0 {
                        if before.len() == 0 {
                            assert(r@ =~= t@);
                        } else {
                            assert(r@ =~= before + seq![' '] + t@);
                            if k < before.len() {
                                assert(r@[k] == before[k]);
                                if k + 1 < before.len() {
                                    assert(r@[k + 1] == before[k + 1]);
                                }
                            } else {
                                assert(k > before.len());
                                assert(r@[k] == t@[k - before.len() - 1]);
                                assert(r@[k + 1] == t@[k - before.len()]);
                            }
                        }
                    }
                }
            }
        }
        i = i + 1;
    }
    proof {
        assert(parts@.subrange(0, i as int) =~= parts@);
    }
    r
}

} // verus!
