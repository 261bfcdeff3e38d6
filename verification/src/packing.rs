//! The layout of a sequence of elements over a sequence of cells, as a
//! mathematical model.
//!
//! The element at heap index `i` stands in slot `child_pos(i)` of cell
//! `storage_index(i)`, so `len` elements take `(len + 1) / 2` cells, all of
//! them full but possibly the last.

use crate::children::child_pos;
use crate::children::storage_index;
use crate::children::Children;
use crate::sequence::swapped;
use vstd::prelude::*;

verus! {

/// The content of the slot that stands for heap index `index`.
pub open spec fn slot_at<T: Ord>(cells: Seq<Children<T>>, index: int) -> Option<T> {
    cells[storage_index(index)].slot(child_pos(index))
}

/// `cells` with `value` put in the slot that stands for heap index `index`.
pub open spec fn replace_slot<T: Ord>(cells: Seq<Children<T>>, index: int, value: Option<T>) -> Seq<
    Children<T>,
> {
    cells.update(
        storage_index(index),
        cells[storage_index(index)].with_slot(child_pos(index), value),
    )
}

/// The number of cells that `len` elements take.
pub open spec fn cells_needed(len: int) -> int {
    (len + 1) / 2
}

/// The packing invariant: there are exactly as many cells as `len` elements
/// need, and a slot is occupied if and only if its heap index is below `len`.
pub open spec fn packed<T: Ord>(cells: Seq<Children<T>>, len: int) -> bool {
    &&& 0 <= len
    &&& cells.len() == cells_needed(len)
    &&& forall|i: int|
        0 <= i < 2 * cells.len() ==> (#[trigger] slot_at(cells, i) is Some <==> i < len)
}

/// The first `len` elements held by `cells`, by heap index.
pub open spec fn unpacked<T: Ord>(cells: Seq<Children<T>>, len: int) -> Seq<T> {
    Seq::new(len as nat, |i: int| slot_at(cells, i)->0)
}

/// The cells after the elements at `a` and `b` have changed places: the
/// element at `a` is taken out, put at `b`, and what it displaced there is
/// put at `a`.
pub open spec fn swap_slots<T: Ord>(cells: Seq<Children<T>>, a: int, b: int) -> Seq<Children<T>> {
    let taken = replace_slot(cells, a, None);
    let placed = replace_slot(taken, b, slot_at(cells, a));
    replace_slot(placed, a, slot_at(cells, b))
}

/// The cells after `value` has been appended to the `len` elements they
/// hold: it fills the right slot of the last cell if that is free, else the
/// left slot of a new cell.
pub open spec fn push_slot<T: Ord>(cells: Seq<Children<T>>, len: int, value: T) -> Seq<Children<T>> {
    if storage_index(len) < cells.len() {
        replace_slot(cells, len, Some(value))
    } else {
        cells.push(Children { left: Some(value), right: None })
    }
}

/// The cells after the last of the `len` elements they hold has been
/// removed: its slot is emptied, and its cell goes if it held nothing else.
pub open spec fn pop_slot<T: Ord>(cells: Seq<Children<T>>, len: int) -> Seq<Children<T>> {
    let taken = replace_slot(cells, len - 1, None);
    if cells[storage_index(len - 1)].occupancy() == 1 {
        taken.drop_last()
    } else {
        taken
    }
}

/// Replacing the content of one slot leaves every other slot as it was.
pub proof fn lemma_replace_slot<T: Ord>(cells: Seq<Children<T>>, index: int, value: Option<T>)
    requires
        0 <= index < 2 * cells.len(),
    ensures
        replace_slot(cells, index, value).len() == cells.len(),
        slot_at(replace_slot(cells, index, value), index) == value,
        forall|j: int|
            0 <= j < 2 * cells.len() && j != index ==> #[trigger] slot_at(
                replace_slot(cells, index, value),
                j,
            ) == slot_at(cells, j),
{
}

/// Putting back what a slot holds changes nothing.
pub proof fn lemma_replace_slot_same<T: Ord>(cells: Seq<Children<T>>, index: int)
    requires
        0 <= index < 2 * cells.len(),
    ensures
        replace_slot(cells, index, slot_at(cells, index)) == cells,
{
    assert(replace_slot(cells, index, slot_at(cells, index)) =~= cells);
}

/// Replacing an element by another keeps the packing, and updates the
/// sequence of elements at that index.
pub proof fn lemma_replace_element<T: Ord>(cells: Seq<Children<T>>, len: int, index: int)
    requires
        packed(cells, len),
        0 <= index < len,
    ensures
        forall|value: Option<T>|
            value is Some ==> packed(#[trigger] replace_slot(cells, index, value), len),
        forall|value: Option<T>|
            value is Some ==> unpacked(#[trigger] replace_slot(cells, index, value), len)
                == unpacked(cells, len).update(index, value->0),
{
    assert forall|value: Option<T>| value is Some implies packed(
        #[trigger] replace_slot(cells, index, value),
        len,
    ) && unpacked(replace_slot(cells, index, value), len) == unpacked(cells, len).update(
        index,
        value->0,
    ) by {
        let after = replace_slot(cells, index, value);
        lemma_replace_slot(cells, index, value);
        assert forall|i: int| 0 <= i < 2 * after.len() implies (#[trigger] slot_at(after, i) is Some
            <==> i < len) by {
            assert(i != index ==> slot_at(after, i) == slot_at(cells, i));
        }
        assert(unpacked(after, len) =~= unpacked(cells, len).update(index, value->0));
    }
}

/// Exchanging two elements slot by slot keeps the packing and exchanges
/// them in the sequence of elements.
pub proof fn lemma_swap_slots<T: Ord>(cells: Seq<Children<T>>, len: int, a: int, b: int)
    requires
        packed(cells, len),
        0 <= a < len,
        0 <= b < len,
        a != b,
    ensures
        packed(swap_slots(cells, a, b), len),
        unpacked(swap_slots(cells, a, b), len) == swapped(unpacked(cells, len), a, b),
{
    let taken = replace_slot(cells, a, None);
    let placed = replace_slot(taken, b, slot_at(cells, a));
    let after = swap_slots(cells, a, b);
    lemma_replace_slot(cells, a, None);
    lemma_replace_slot(taken, b, slot_at(cells, a));
    lemma_replace_slot(placed, a, slot_at(cells, b));
    assert forall|i: int| 0 <= i < 2 * cells.len() implies #[trigger] slot_at(after, i) == (if i
        == a {
        slot_at(cells, b)
    } else if i == b {
        slot_at(cells, a)
    } else {
        slot_at(cells, i)
    }) by {
        if i != a && i != b {
            assert(slot_at(placed, i) == slot_at(taken, i));
            assert(slot_at(taken, i) == slot_at(cells, i));
        }
    }
    assert forall|i: int| 0 <= i < 2 * after.len() implies (#[trigger] slot_at(after, i) is Some
        <==> i < len) by {
        assert(slot_at(cells, i) is Some <==> i < len);
        assert(slot_at(cells, a) is Some);
        assert(slot_at(cells, b) is Some);
    }
    assert(unpacked(after, len) =~= swapped(unpacked(cells, len), a, b));
}

/// Appending an element keeps the packing and appends it to the sequence of
/// elements.
pub proof fn lemma_push_slot<T: Ord>(cells: Seq<Children<T>>, len: int, value: T)
    requires
        packed(cells, len),
    ensures
        packed(push_slot(cells, len, value), len + 1),
        unpacked(push_slot(cells, len, value), len + 1) == unpacked(cells, len).push(value),
{
    let after = push_slot(cells, len, value);
    if storage_index(len) < cells.len() {
        lemma_replace_slot(cells, len, Some(value));
    }
    assert(slot_at(after, len) == Some(value));
    assert forall|i: int| 0 <= i < 2 * cells.len() && i != len implies #[trigger] slot_at(after, i)
        == slot_at(cells, i) by {}
    assert forall|i: int| 0 <= i < 2 * after.len() implies (#[trigger] slot_at(after, i) is Some
        <==> i < len + 1) by {
        if i < 2 * cells.len() && i != len {
            assert(slot_at(cells, i) is Some <==> i < len);
        }
    }
    assert(unpacked(after, len + 1) =~= unpacked(cells, len).push(value));
}

/// Removing the last element keeps the packing and removes it from the
/// sequence of elements.
pub proof fn lemma_pop_slot<T: Ord>(cells: Seq<Children<T>>, len: int)
    requires
        packed(cells, len),
        len > 0,
    ensures
        packed(pop_slot(cells, len), len - 1),
        unpacked(pop_slot(cells, len), len - 1) == unpacked(cells, len).drop_last(),
        slot_at(cells, len - 1) == Some(unpacked(cells, len).last()),
{
    let last = len - 1;
    let taken = replace_slot(cells, last, None);
    let after = pop_slot(cells, len);
    lemma_replace_slot(cells, last, None);
    lemma_packed_occupancy(cells, len);
    assert(slot_at(cells, last) is Some);
    assert forall|i: int| 0 <= i < 2 * after.len() && i != last implies #[trigger] slot_at(after, i)
        == slot_at(cells, i) by {
        assert(slot_at(after, i) == slot_at(taken, i));
    }
    assert forall|i: int| 0 <= i < 2 * after.len() implies (#[trigger] slot_at(after, i) is Some
        <==> i < last) by {
        if i != last {
            assert(slot_at(cells, i) is Some <==> i < len);
        }
    }
    assert(unpacked(after, last) =~= unpacked(cells, len).drop_last());
}

/// The packing invariant in terms of cells: every cell but possibly the
/// last is full, and the last holds one element, in its left slot, exactly
/// when the length is odd.
pub proof fn lemma_packed_occupancy<T: Ord>(cells: Seq<Children<T>>, len: int)
    requires
        packed(cells, len),
    ensures
        cells.len() == cells_needed(len),
        forall|c: int| 0 <= c < cells.len() - 1 ==> (#[trigger] cells[c]).occupancy() == 2,
        cells.len() > 0 ==> cells.last().occupancy() == (if len % 2 == 1 { 1nat } else { 2nat }),
        cells.len() > 0 ==> cells.last().left is Some,
{
    assert forall|c: int| 0 <= c < cells.len() implies (#[trigger] cells[c]).left is Some && (
    cells[c].right is Some <==> 2 * c + 1 < len) by {
        assert(slot_at(cells, 2 * c) == cells[c].left);
        assert(slot_at(cells, 2 * c + 1) == cells[c].right);
    }
}

} // verus!
