//! Paths as text: their order in a listing, and the name shown for each.

use vstd::prelude::*;
use vstd::std_specs::iter::IteratorSpec;
use vstd::string::*;
use vstd::utf8::encode_utf8;

verus! {

/// `k` is the first position at which `a` and `b` differ, where the end of
/// `a` counts as differing from a code point of `b`.
pub open spec fn differ_at(a: Seq<char>, b: Seq<char>, k: int) -> bool {
    &&& 0 <= k <= a.len()
    &&& k < b.len()
    &&& a.take(k) == b.take(k)
    &&& k < a.len() ==> a[k] != b[k]
}

/// The lexicographic order of paths by code point: `a` comes strictly
/// before `b` when `a` is a proper prefix of `b`, or when at the first
/// position where the two differ `a` holds the smaller code point.
pub open spec fn path_before(a: Seq<char>, b: Seq<char>) -> bool {
    exists|k: int|
        #[trigger] differ_at(a, b, k) && (k < a.len() ==> (a[k] as u32) < (b[k] as u32))
}

/// Two paths have at most one first difference.
pub proof fn lemma_first_difference_is_unique(a: Seq<char>, b: Seq<char>, j: int, k: int)
    requires
        differ_at(a, b, j),
        differ_at(a, b, k),
    ensures
        j == k,
{
    if j < k {
        assert(a.take(k)[j] == b.take(k)[j]);
    }
    if k < j {
        assert(a.take(j)[k] == b.take(j)[k]);
    }
}

/// No path comes before itself.
pub proof fn lemma_path_before_is_irreflexive(a: Seq<char>)
    ensures
        !path_before(a, a),
{
}

/// Of two paths, neither comes before the other only when they are equal.
pub proof fn lemma_path_order_is_total(a: Seq<char>, b: Seq<char>)
    ensures
        a == b || path_before(a, b) || path_before(b, a),
{
    if a != b {
        assert(a.take(0) =~= b.take(0));
        lemma_unequal_paths_differ(a, b, 0);
    }
}

/// Two unequal paths that agree on their first `k` code points have a
/// first difference at `k` or later.
proof fn lemma_unequal_paths_differ(a: Seq<char>, b: Seq<char>, k: int)
    requires
        a != b,
        0 <= k <= a.len(),
        k <= b.len(),
        a.take(k) == b.take(k),
    ensures
        path_before(a, b) || path_before(b, a),
    decreases a.len() - k,
{
    if k == a.len() {
        if k == b.len() {
            assert(a.take(k) == a);
            assert(b.take(k) == b);
        } else {
            assert(differ_at(a, b, k));
        }
    } else if k == b.len() {
        assert(differ_at(b, a, k));
    } else if a[k] != b[k] {
        vstd::utf8::char_u32_cast(a[k], a[k] as u32);
        vstd::utf8::char_u32_cast(b[k], b[k] as u32);
        if (a[k] as u32) < (b[k] as u32) {
            assert(differ_at(a, b, k));
        } else {
            assert(differ_at(b, a, k));
        }
    } else {
        assert(a.take(k + 1) == a.take(k).push(a[k]));
        assert(b.take(k + 1) == b.take(k).push(b[k]));
        lemma_unequal_paths_differ(a, b, k + 1);
    }
}

/// The order of paths is transitive.
pub proof fn lemma_path_before_is_transitive(a: Seq<char>, b: Seq<char>, c: Seq<char>)
    requires
        path_before(a, b),
        path_before(b, c),
    ensures
        path_before(a, c),
{
    let i = choose|k: int| #[trigger]
        differ_at(a, b, k) && (k < a.len() ==> (a[k] as u32) < (b[k] as u32));
    let j = choose|k: int| #[trigger]
        differ_at(b, c, k) && (k < b.len() ==> (b[k] as u32) < (c[k] as u32));
    let k = if i <= j { i } else { j };
    assert(a.take(k) == a.take(i).take(k));
    assert(b.take(k) == b.take(i).take(k));
    assert(b.take(k) == b.take(j).take(k));
    assert(c.take(k) == c.take(j).take(k));
    if i < j {
        assert(b.take(j)[i] == c.take(j)[i]);
    }
    if j < i {
        assert(a.take(i)[j] == b.take(i)[j]);
    }
    assert(differ_at(a, c, k));
}

/// Of two paths, at most one comes before the other.
pub proof fn lemma_path_before_is_asymmetric(a: Seq<char>, b: Seq<char>)
    requires
        path_before(a, b),
    ensures
        !path_before(b, a),
{
    if path_before(b, a) {
        lemma_path_before_is_transitive(a, b, a);
    }
}

/// Tells whether `a` comes strictly before `b` in the order of a listing.
pub fn precedes(a: &str, b: &str) -> (before: bool)
    ensures
        before == path_before(a@, b@),
{
    broadcast use group_string_axioms;
    let mut rest_a = a.chars();
    let mut rest_b = b.chars();
    let ghost mut k: int = 0;
    loop
        invariant
            0 <= k <= a@.len(),
            k <= b@.len(),
            a@.take(k) == b@.take(k),
            rest_a.remaining() == a@.skip(k),
            rest_b.remaining() == b@.skip(k),
        decreases a@.len() - k,
    {
        let next_a = rest_a.next();
        let next_b = rest_b.next();
        match (next_a, next_b) {
            (Some(x), Some(y)) => {
                if x != y {
                    proof {
                        assert(differ_at(a@, b@, k));
                        assert forall|j: int| differ_at(a@, b@, j) implies j == k by {
                            lemma_first_difference_is_unique(a@, b@, j, k);
                        }
                    }
                    return (x as u32) < (y as u32);
                }
                proof {
                    assert(a@.take(k + 1) == a@.take(k).push(a@[k]));
                    assert(b@.take(k + 1) == b@.take(k).push(b@[k]));
                    k = k + 1;
                }
            },
            (None, Some(_)) => {
                assert(differ_at(a@, b@, k));
                return true;
            },
            (_, None) => {
                proof {
                    assert forall|j: int| !differ_at(a@, b@, j) by {
                        if differ_at(a@, b@, j) {
                            assert(a@.take(k)[j] == b@.take(k)[j]);
                        }
                    }
                }
                return false;
            },
        }
    }
}

/// The separator between the components of a path.
pub const SEPARATOR: char = '/';

/// The final component of a path: the code points that follow its last
/// separator, or the whole path where it holds none. A path that ends in a
/// separator has an empty name.
pub open spec fn file_name(path: Seq<char>) -> Seq<char>
    decreases path.len(),
{
    if path.len() == 0 || path.last() == SEPARATOR {
        Seq::empty()
    } else {
        file_name(path.drop_last()).push(path.last())
    }
}

/// The name is the longest tail of the path that holds no separator.
pub proof fn lemma_file_name_is_last_component(path: Seq<char>)
    ensures
        file_name(path).len() <= path.len(),
        file_name(path) == path.skip(path.len() - file_name(path).len()),
        !file_name(path).contains(SEPARATOR),
        file_name(path).len() < path.len() ==> path[path.len() - file_name(path).len() - 1]
            == SEPARATOR,
    decreases path.len(),
{
    if path.len() == 0 || path.last() == SEPARATOR {
        assert(path.skip(path.len() as int) == Seq::<char>::empty());
    } else {
        let front = path.drop_last();
        lemma_file_name_is_last_component(front);
        let held = file_name(front);
        assert(path.skip(path.len() - held.len() - 1) == front.skip(front.len() - held.len()).push(
            path.last(),
        ));
    }
}

/// A text has at most as many code points as its encoding has bytes.
proof fn lemma_text_fits_its_bytes(text: Seq<char>)
    ensures
        text.len() <= encode_utf8(text).len(),
    decreases text.len(),
{
    if text.len() > 0 {
        lemma_text_fits_its_bytes(text.drop_first());
    }
}

/// Gives the name to show for the entry at `path`: its final component.
pub fn display_name(path: &str) -> (name: String)
    ensures
        name@ == file_name(path@),
{
    broadcast use group_string_axioms;
    let limit: usize = path.as_bytes().len();
    proof {
        lemma_text_fits_its_bytes(path@);
        assert(path@.len() <= limit);
    }
    let mut rest = path.chars();
    let mut seen: usize = 0;
    let mut start: usize = 0;
    loop
        invariant
            start <= seen <= path@.len() <= usize::MAX,
            rest.remaining() == path@.skip(seen as int),
            file_name(path@.take(seen as int)) == path@.subrange(start as int, seen as int),
        ensures
            start <= seen == path@.len(),
            file_name(path@) == path@.subrange(start as int, seen as int),
        decreases path@.len() - seen,
    {
        match rest.next() {
            Some(c) => {
                proof {
                    let shorter = path@.take(seen as int);
                    let longer = path@.take(seen + 1);
                    assert(longer.drop_last() == shorter);
                    assert(longer.last() == c);
                    if c != SEPARATOR {
                        assert(path@.subrange(start as int, seen + 1) == path@.subrange(
                            start as int,
                            seen as int,
                        ).push(c));
                    }
                }
                seen = seen + 1;
                if c == SEPARATOR {
                    start = seen;
                }
            },
            None => {
                assert(path@.take(seen as int) == path@);
                break;
            },
        }
    }
    path.substring_char(start, seen).to_owned()
}

} // verus!
