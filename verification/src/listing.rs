//! Putting the entries of a directory in the order of the listing.

use vstd::prelude::*;
use vstd::seq_lib::*;

use crate::path::{
    lemma_path_before_is_asymmetric, lemma_path_before_is_transitive, lemma_path_order_is_total,
    path_before, precedes,
};

verus! {

/// A listing is in order when no entry comes before one that stands earlier.
pub open spec fn is_sorted(paths: Seq<Seq<char>>) -> bool {
    forall|i: int, j: int|
        0 <= i < j < paths.len() ==> !path_before(#[trigger] paths[j], #[trigger] paths[i])
}

/// Two listings in order that hold the same paths, each as often in the one
/// as in the other, are the same listing: the order leaves no choice.
pub proof fn lemma_sorted_listing_is_unique(a: Seq<Seq<char>>, b: Seq<Seq<char>>)
    requires
        is_sorted(a),
        is_sorted(b),
        a.to_multiset() == b.to_multiset(),
    ensures
        a == b,
    decreases a.len(),
{
    a.to_multiset_ensures();
    b.to_multiset_ensures();
    if a.len() > 0 {
        assert(a.contains(b.last())) by {
            assert(b[b.len() - 1] == b.last());
            assert(b.to_multiset().count(b.last()) > 0);
        }
        assert(b.contains(a.last())) by {
            assert(a[a.len() - 1] == a.last());
            assert(a.to_multiset().count(a.last()) > 0);
        }
        let i = choose|i: int| 0 <= i < a.len() && a[i] == b.last();
        let j = choose|j: int| 0 <= j < b.len() && b[j] == a.last();
        assert(!path_before(a.last(), a[i]));
        assert(!path_before(b.last(), b[j]));
        lemma_path_order_is_total(a.last(), b.last());
        assert(a.drop_last() == a.remove(a.len() - 1));
        assert(b.drop_last() == b.remove(b.len() - 1));
        lemma_sorted_listing_is_unique(a.drop_last(), b.drop_last());
        assert(a == a.drop_last().push(a.last()));
        assert(b == b.drop_last().push(b.last()));
    } else {
        assert(a == b);
    }
}

/// Puts `path` into the sorted `listing`, behind every entry that does not
/// come after it.
fn insert_sorted(listing: &mut Vec<String>, path: String)
    requires
        is_sorted(old(listing).deep_view()),
    ensures
        is_sorted(final(listing).deep_view()),
        final(listing).deep_view().to_multiset() == old(listing).deep_view().to_multiset().insert(path@),
{
    let mut at: usize = 0;
    while at < listing.len() && !precedes(path.as_str(), listing[at].as_str())
        invariant
            at <= listing.len(),
            forall|i: int| 0 <= i < at ==> !path_before(path@, #[trigger] listing[i]@),
        decreases listing.len() - at,
    {
        at = at + 1;
    }
    let ghost before = listing.deep_view();
    listing.insert(at, path);
    proof {
        let after = listing.deep_view();
        assert(after == before.insert(at as int, path@));
        broadcast use to_multiset_insert;
        assert forall|i: int, j: int| 0 <= i < j < after.len() implies !path_before(
            #[trigger] after[j],
            #[trigger] after[i],
        ) by {
            if i == at {
                if path_before(after[j], path@) {
                    if j > at + 1 {
                        assert(!path_before(before[j - 1], before[at as int]));
                        lemma_path_before_is_transitive(after[j], path@, before[at as int]);
                    } else {
                        lemma_path_before_is_asymmetric(after[j], path@);
                    }
                }
            } else if j == at {
            } else {
                let i0 = if i < at { i } else { i - 1 };
                let j0 = if j < at { j } else { j - 1 };
                assert(!path_before(before[j0], before[i0]));
            }
        }
    }
}

/// Sorts paths into the order of the listing. The result holds the same
/// paths, each as often as it was given, and none of them comes before one
/// that stands earlier.
pub fn sort_paths(paths: Vec<String>) -> (listing: Vec<String>)
    ensures
        is_sorted(listing.deep_view()),
        listing.deep_view().to_multiset() == paths.deep_view().to_multiset(),
        listing@.len() == paths@.len(),
{
    let mut rest = paths;
    let mut listing: Vec<String> = Vec::new();
    assert(listing.deep_view() == Seq::<Seq<char>>::empty());
    assert(listing.deep_view().to_multiset() == vstd::multiset::Multiset::<Seq<char>>::empty()) by {
        broadcast use group_to_multiset_ensures;
    }
    loop
        invariant
            is_sorted(listing.deep_view()),
            listing.deep_view().to_multiset().add(rest.deep_view().to_multiset())
                == paths.deep_view().to_multiset(),
        ensures
            is_sorted(listing.deep_view()),
            listing.deep_view().to_multiset() == paths.deep_view().to_multiset(),
        decreases rest.len(),
    {
        let ghost waiting = rest.deep_view();
        match rest.pop() {
            Some(path) => {
                proof {
                    assert(waiting == rest.deep_view().push(path@));
                    broadcast use to_multiset_build;
                }
                insert_sorted(&mut listing, path);
            },
            None => {
                proof {
                    assert(rest.deep_view() == Seq::<Seq<char>>::empty());
                    broadcast use group_to_multiset_ensures;
                }
                break;
            },
        }
    }
    proof {
        listing.deep_view().to_multiset_ensures();
        paths.deep_view().to_multiset_ensures();
    }
    listing
}

} // verus!
