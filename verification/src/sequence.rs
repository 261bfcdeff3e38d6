//! Exchanging two elements of a sequence.

use vstd::prelude::*;
use vstd::seq_lib::to_multiset_contains;
use vstd::seq_lib::to_multiset_update;

verus! {

/// `s` with the elements at `a` and `b` exchanged; `s` itself unless both
/// indices are in bounds.
pub open spec fn swapped<T>(s: Seq<T>, a: int, b: int) -> Seq<T> {
    if 0 <= a < s.len() && 0 <= b < s.len() {
        s.update(a, s[b]).update(b, s[a])
    } else {
        s
    }
}

/// Exchanging two elements permutes the sequence.
pub proof fn lemma_swapped_permutes<T>(s: Seq<T>, a: int, b: int)
    ensures
        swapped(s, a, b).len() == s.len(),
        swapped(s, a, b).to_multiset() == s.to_multiset(),
{
    broadcast use vstd::multiset::group_multiset_axioms;

    if 0 <= a < s.len() && 0 <= b < s.len() {
        let half = s.update(a, s[b]);
        to_multiset_update(s, a, s[b]);
        to_multiset_update(half, b, s[a]);
        to_multiset_contains(s, s[a]);
        assert(s.to_multiset().insert(s[b]).remove(s[a]).insert(s[a]).remove(s[b])
            =~= s.to_multiset());
    }
}

} // verus!
