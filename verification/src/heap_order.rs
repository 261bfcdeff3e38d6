//! The heap order on sequences, and the two operations that repair it.
//!
//! A sequence is a heap when no element is greater than its parent, the
//! parent of index `i > 0` being index `(i - 1) / 2`. [`sift_up`] and
//! [`sift_down`] say, as functions on sequences, where each element stands
//! after a repair; the lemmas show that a repair permutes the sequence and
//! yields a heap.

use crate::order::le;
use crate::order::lemma_le_reflexive;
use crate::order::lemma_le_total;
use crate::order::lemma_le_transitive;
use crate::order::total_order;
use crate::sequence::lemma_swapped_permutes;
use crate::sequence::swapped;
use vstd::prelude::*;
use vstd::seq_lib::to_multiset_build;
use vstd::seq_lib::to_multiset_contains;
use vstd::seq_lib::to_multiset_remove;

verus! {

/// The index of the parent of index `i`.
pub open spec fn parent(i: int) -> int {
    (i - 1) / 2
}

/// The element at `i` is not greater than its parent.
pub open spec fn ordered_at<T: Ord>(s: Seq<T>, i: int) -> bool {
    le(s[i], s[parent(i)])
}

/// The element at `i` is not greater than the parent of its parent.
pub open spec fn below_grandparent<T: Ord>(s: Seq<T>, i: int) -> bool {
    le(s[i], s[parent(parent(i))])
}

/// The max-heap property: no element is greater than its parent.
pub open spec fn is_heap<T: Ord>(s: Seq<T>) -> bool {
    forall|i: int| 0 < i < s.len() ==> #[trigger] ordered_at(s, i)
}

/// No element of `s` is greater than the first.
pub open spec fn first_is_greatest<T: Ord>(s: Seq<T>) -> bool {
    forall|i: int| 0 <= i < s.len() ==> le(#[trigger] s[i], s[0])
}

/// The heap property but for the element at `pos`, which may be greater than
/// its parent. Its children are not greater than its parent.
pub open spec fn is_heap_but_above<T: Ord>(s: Seq<T>, pos: int) -> bool {
    &&& forall|i: int| 0 < i < s.len() && i != pos ==> #[trigger] ordered_at(s, i)
    &&& forall|i: int|
        0 < i < s.len() && parent(i) == pos && pos > 0 ==> #[trigger] below_grandparent(s, i)
}

/// The heap property but for the element at `pos`, which may be less than
/// its children. Its children are not greater than its parent.
pub open spec fn is_heap_but_below<T: Ord>(s: Seq<T>, pos: int) -> bool {
    &&& forall|i: int| 0 < i < s.len() && parent(i) != pos ==> #[trigger] ordered_at(s, i)
    &&& forall|i: int|
        0 < i < s.len() && parent(i) == pos && pos > 0 ==> #[trigger] below_grandparent(s, i)
}

/// Where the elements of `s` stand after the element at `pos` has moved up:
/// while it is greater than its parent, the two change places.
pub open spec fn sift_up<T: Ord>(s: Seq<T>, pos: int) -> Seq<T>
    decreases pos,
{
    if 0 < pos < s.len() && !le(s[pos], s[parent(pos)]) {
        sift_up(swapped(s, parent(pos), pos), parent(pos))
    } else {
        s
    }
}

/// The child of `pos` that an element moving down changes places with: the
/// right child if there is one and the left child is not greater than it,
/// else the left child.
pub open spec fn greater_child<T: Ord>(s: Seq<T>, pos: int) -> int {
    if 2 * pos + 2 < s.len() && le(s[2 * pos + 1], s[2 * pos + 2]) {
        2 * pos + 2
    } else {
        2 * pos + 1
    }
}

/// Where the elements of `s` stand after the element at `pos` has moved
/// down: while it has a child and its greater child is greater than it, the
/// two change places.
pub open spec fn sift_down<T: Ord>(s: Seq<T>, pos: int) -> Seq<T>
    decreases s.len() - pos,
{
    let child = greater_child(s, pos);
    if 0 <= pos && 2 * pos + 1 < s.len() && !le(s[child], s[pos]) {
        sift_down(swapped(s, child, pos), child)
    } else {
        s
    }
}

/// Moving an element up permutes the sequence.
pub proof fn lemma_sift_up_permutes<T: Ord>(s: Seq<T>, pos: int)
    ensures
        sift_up(s, pos).len() == s.len(),
        sift_up(s, pos).to_multiset() == s.to_multiset(),
    decreases pos,
{
    if 0 < pos < s.len() && !le(s[pos], s[parent(pos)]) {
        lemma_swapped_permutes(s, parent(pos), pos);
        lemma_sift_up_permutes(swapped(s, parent(pos), pos), parent(pos));
    }
}

/// Moving an element down permutes the sequence.
pub proof fn lemma_sift_down_permutes<T: Ord>(s: Seq<T>, pos: int)
    ensures
        sift_down(s, pos).len() == s.len(),
        sift_down(s, pos).to_multiset() == s.to_multiset(),
    decreases s.len() - pos,
{
    let child = greater_child(s, pos);
    if 0 <= pos && 2 * pos + 1 < s.len() && !le(s[child], s[pos]) {
        lemma_swapped_permutes(s, child, pos);
        lemma_sift_down_permutes(swapped(s, child, pos), child);
    }
}

/// Moving up the one element that may be greater than its parent yields a
/// heap.
pub proof fn lemma_sift_up_restores<T: Ord>(s: Seq<T>, pos: int)
    requires
        total_order::<T>(),
        0 <= pos < s.len(),
        is_heap_but_above(s, pos),
    ensures
        is_heap(sift_up(s, pos)),
    decreases pos,
{
    let up = parent(pos);
    if 0 < pos && !le(s[pos], s[up]) {
        let t = swapped(s, up, pos);
        lemma_le_total(s[pos], s[up]);
        assert forall|i: int| 0 < i < t.len() && i != up implies #[trigger] ordered_at(t, i) by {
            if i == pos {
                // the element that moved down is below the one that moved up
            } else if parent(i) == pos {
                // a child of `pos` was below the parent of `pos`
                assert(below_grandparent(s, i));
            } else if parent(i) == up {
                // the other child of `up` was below what stood there
                assert(ordered_at(s, i));
                lemma_le_transitive(s[i], s[up], s[pos]);
            } else {
                assert(ordered_at(s, i));
            }
        }
        assert forall|i: int|
            0 < i < t.len() && parent(i) == up && up > 0 implies #[trigger] below_grandparent(
            t,
            i,
        ) by {
            assert(ordered_at(s, up));
            if i != pos {
                assert(ordered_at(s, i));
                lemma_le_transitive(s[i], s[up], s[parent(up)]);
            }
        }
        lemma_sift_up_restores(t, up);
    } else {
        assert forall|i: int| 0 < i < s.len() implies #[trigger] ordered_at(s, i) by {}
    }
}

/// Moving down the one element that may be less than its children yields a
/// heap.
pub proof fn lemma_sift_down_restores<T: Ord>(s: Seq<T>, pos: int)
    requires
        total_order::<T>(),
        0 <= pos,
        is_heap_but_below(s, pos),
    ensures
        is_heap(sift_down(s, pos)),
    decreases s.len() - pos,
{
    let left = 2 * pos + 1;
    let right = 2 * pos + 2;
    let child = greater_child(s, pos);
    if left < s.len() {
        let other = if child == left { right } else { left };
        if right < s.len() {
            lemma_le_total(s[left], s[right]);
        }
        if le(s[child], s[pos]) {
            assert forall|i: int| 0 < i < s.len() implies #[trigger] ordered_at(s, i) by {
                if i == other {
                    lemma_le_transitive(s[other], s[child], s[pos]);
                }
            }
        } else {
            let t = swapped(s, child, pos);
            lemma_le_total(s[child], s[pos]);
            assert forall|i: int|
                0 < i < t.len() && parent(i) != child implies #[trigger] ordered_at(t, i) by {
                if i == child {
                    // the element that moved down is below the one that moved up
                } else if i == other {
                    // the other child was below the greater child
                } else if i == pos {
                    // the greater child was below the parent of `pos`
                    assert(below_grandparent(s, child));
                } else {
                    assert(ordered_at(s, i));
                }
            }
            assert forall|i: int|
                0 < i < t.len() && parent(i) == child implies #[trigger] below_grandparent(
                t,
                i,
            ) by {
                assert(ordered_at(s, i));
            }
            lemma_sift_down_restores(t, child);
        }
    } else {
        assert forall|i: int| 0 < i < s.len() implies #[trigger] ordered_at(s, i) by {}
    }
}

/// In a heap the element at `i` is not greater than the first.
proof fn lemma_below_root<T: Ord>(s: Seq<T>, i: int)
    requires
        total_order::<T>(),
        is_heap(s),
        0 <= i < s.len(),
    ensures
        le(s[i], s[0]),
    decreases i,
{
    if i == 0 {
        lemma_le_reflexive(s[0]);
    } else {
        assert(ordered_at(s, i));
        lemma_below_root(s, parent(i));
        lemma_le_transitive(s[i], s[parent(i)], s[0]);
    }
}

/// In a heap no element is greater than the first.
pub proof fn lemma_heap_root_is_greatest<T: Ord>(s: Seq<T>)
    requires
        total_order::<T>(),
        is_heap(s),
    ensures
        first_is_greatest(s),
{
    assert forall|i: int| 0 <= i < s.len() implies le(#[trigger] s[i], s[0]) by {
        lemma_below_root(s, i);
    }
}

/// The heap that results when `value` is pushed on the heap `s`: `value` is
/// appended and moves up.
pub open spec fn pushed<T: Ord>(s: Seq<T>, value: T) -> Seq<T> {
    sift_up(s.push(value), s.len() as int)
}

/// What is left of `s` when its first element is removed and its last takes
/// the place of the first.
pub open spec fn without_root<T>(s: Seq<T>) -> Seq<T> {
    swapped(s, 0, s.len() - 1).drop_last()
}

/// The heap that results when the greatest element is popped from the heap
/// `s`: the last element takes the place of the first and moves down.
pub open spec fn popped<T: Ord>(s: Seq<T>) -> Seq<T> {
    sift_down(without_root(s), 0)
}

/// Pushing adds one element and permutes the others.
pub proof fn lemma_pushed_permutes<T: Ord>(s: Seq<T>, value: T)
    ensures
        pushed(s, value).len() == s.len() + 1,
        pushed(s, value).to_multiset() == s.to_multiset().insert(value),
{
    to_multiset_build(s, value);
    lemma_sift_up_permutes(s.push(value), s.len() as int);
}

/// Pushing on a heap yields a heap.
pub proof fn lemma_pushed_is_heap<T: Ord>(s: Seq<T>, value: T)
    requires
        total_order::<T>(),
        is_heap(s),
    ensures
        is_heap(pushed(s, value)),
{
    let t = s.push(value);
    let pos = s.len() as int;
    assert forall|i: int| 0 < i < t.len() && i != pos implies #[trigger] ordered_at(t, i) by {
        assert(ordered_at(s, i));
    }
    lemma_sift_up_restores(t, pos);
}

/// Removing the first element takes one element away and permutes the
/// others.
pub proof fn lemma_without_root_permutes<T>(s: Seq<T>)
    requires
        s.len() > 0,
    ensures
        without_root(s).len() == s.len() - 1,
        without_root(s).to_multiset() == s.to_multiset().remove(s[0]),
{
    let last = s.len() - 1;
    let t = swapped(s, 0, last);
    lemma_swapped_permutes(s, 0, last);
    to_multiset_remove(t, last);
}

/// Popping takes the first element away and permutes the others.
pub proof fn lemma_popped_permutes<T: Ord>(s: Seq<T>)
    requires
        s.len() > 0,
    ensures
        popped(s).len() == s.len() - 1,
        popped(s).to_multiset() == s.to_multiset().remove(s[0]),
{
    lemma_without_root_permutes(s);
    lemma_sift_down_permutes(without_root(s), 0);
}

/// Popping yields a heap, if the elements were in heap order but for the
/// first, which is the one that leaves.
pub proof fn lemma_popped_is_heap<T: Ord>(s: Seq<T>)
    requires
        total_order::<T>(),
        is_heap_but_below(s, 0),
        s.len() > 0,
    ensures
        is_heap(popped(s)),
{
    let t = without_root(s);
    assert forall|i: int| 0 < i < t.len() && parent(i) != 0 implies #[trigger] ordered_at(t, i) by {
        assert(ordered_at(s, i));
    }
    lemma_sift_down_restores(t, 0);
}

/// After a push on a heap neither the pushed value nor any element that was
/// there is greater than the first element.
pub proof fn lemma_pushed_root_is_greatest<T: Ord>(s: Seq<T>, value: T)
    requires
        total_order::<T>(),
        is_heap(s),
    ensures
        le(value, pushed(s, value)[0]),
        forall|i: int| 0 <= i < s.len() ==> le(#[trigger] s[i], pushed(s, value)[0]),
{
    let t = pushed(s, value);
    lemma_pushed_permutes(s, value);
    lemma_pushed_is_heap(s, value);
    assert forall|x: T| s.to_multiset().insert(value).count(x) > 0 implies le(x, t[0]) by {
        to_multiset_contains(t, x);
        let j = choose|j: int| 0 <= j < t.len() && t[j] == x;
        lemma_below_root(t, j);
    }
    assert(s.to_multiset().insert(value).count(value) > 0) by {
        broadcast use vstd::multiset::group_multiset_axioms;

    }
    assert forall|i: int| 0 <= i < s.len() implies le(#[trigger] s[i], t[0]) by {
        broadcast use vstd::multiset::group_multiset_axioms;

        to_multiset_contains(s, s[i]);
    }
}

/// Pops come in descending order: what a heap yields after a pop is not
/// greater than what that pop yielded.
pub proof fn lemma_pops_descend<T: Ord>(s: Seq<T>)
    requires
        total_order::<T>(),
        is_heap(s),
        s.len() > 1,
    ensures
        le(popped(s)[0], s[0]),
{
    broadcast use vstd::multiset::group_multiset_axioms;

    let t = popped(s);
    lemma_popped_permutes(s);
    to_multiset_contains(t, t[0]);
    to_multiset_contains(s, t[0]);
    let j = choose|j: int| 0 <= j < s.len() && s[j] == t[0];
    lemma_below_root(s, j);
}

/// Pushing a value on the empty heap yields the heap of that value alone, and
/// popping from it gives the value back and leaves the empty heap.
pub proof fn lemma_push_pop_duality<T: Ord>(value: T)
    ensures
        pushed(Seq::<T>::empty(), value) == seq![value],
        pushed(Seq::<T>::empty(), value)[0] == value,
        popped(pushed(Seq::<T>::empty(), value)) == Seq::<T>::empty(),
{
    let one = Seq::<T>::empty().push(value);
}

/// Replacing the first element leaves the elements below it as they were:
/// if they were in heap order but for the first, they still are.
pub proof fn lemma_root_replaced<T: Ord>(s: Seq<T>, value: T)
    requires
        is_heap_but_below(s, 0),
        s.len() > 0,
    ensures
        is_heap_but_below(s.update(0, value), 0),
{
    let t = s.update(0, value);
    assert forall|i: int| 0 < i < t.len() && parent(i) != 0 implies #[trigger] ordered_at(t, i) by {
        assert(ordered_at(s, i));
    }
}

} // verus!
