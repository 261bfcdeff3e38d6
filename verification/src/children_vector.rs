//! The mapping from heap indices to storage cells.
//!
//! A [`ChildrenVector`] presents a growable sequence of elements while storing
//! them two to a cell, so that `n` elements occupy `(n + 1) / 2` cells.

use crate::children::get_child_pos;
use crate::children::get_children_storage_index;
use crate::children::storage_index;
use crate::children::Children;
use crate::iter::Iter;
use crate::iter::IterMut;
use crate::packing::cells_needed;
use crate::packing::lemma_pop_slot;
use crate::packing::lemma_push_slot;
use crate::packing::lemma_replace_element;
use crate::packing::lemma_replace_slot_same;
use crate::packing::lemma_swap_slots;
use crate::packing::packed;
use crate::packing::pop_slot;
use crate::packing::push_slot;
use crate::packing::replace_slot;
use crate::packing::slot_at;
use crate::packing::swap_slots;
use crate::packing::unpacked;
use crate::sequence::swapped;
use vstd::prelude::*;

verus! {

/// A sequence of elements, stored in pairs.
#[derive(Debug, PartialEq, Eq)]
pub struct ChildrenVector<T: Ord> {
    /// The number of elements. It cannot be had from the number of cells,
    /// since the last cell may hold one element or two.
    len: u32,
    /// The cells.
    children: Vec<Children<T>>,
}

/// Shared access to one slot of a cell.
pub struct ChildInfo<'a, T> {
    /// The slot.
    pub child: &'a Option<T>,
}

/// Exclusive access to one slot of a cell.
pub struct ChildInfoMut<'a, T> {
    /// The slot.
    pub child: &'a mut Option<T>,
    /// The occupancy of the slot's cell when the access was handed out.
    pub child_count: usize,
}

impl<'a, T> ChildInfo<'a, T> {
    fn new(child: &'a Option<T>) -> (r: Self)
        ensures
            r.child == child,
    {
        Self { child }
    }
}

impl<'a, T> ChildInfoMut<'a, T> {
    fn new(child: &'a mut Option<T>, child_count: usize) -> (r: Self)
        ensures
            *r.child == *old(child),
            *final(child) == *final(r.child),
            r.child_count == child_count,
    {
        Self { child, child_count }
    }
}

impl<T: Ord> View for ChildrenVector<T> {
    type V = Seq<T>;

    /// The elements, by heap index.
    open spec fn view(&self) -> Seq<T> {
        unpacked(self.cells(), self.spec_len() as int)
    }
}

impl<T: Ord> Default for ChildrenVector<T> {
    /// Creates an empty sequence.
    fn default() -> (r: Self)
        ensures
            r.well_formed(),
            r@ == Seq::<T>::empty(),
    {
        Self::new()
    }
}

impl<T: Ord> ChildrenVector<T> {
    /// The number of elements.
    pub closed spec fn spec_len(&self) -> u32 {
        self.len
    }

    /// The cells, in storage order.
    pub closed spec fn cells(&self) -> Seq<Children<T>> {
        self.children@
    }

    /// The cell that stands for heap index `index` exists.
    pub open spec fn has_cell(&self, index: int) -> bool {
        storage_index(index) < self.cells().len()
    }

    /// The packing invariant: there are exactly as many cells as the elements
    /// need, and a slot is occupied if and only if its heap index is below the
    /// length.
    pub open spec fn well_formed(&self) -> bool {
        packed(self.cells(), self.spec_len() as int)
    }

    /// Creates an empty sequence.
    pub fn new() -> (r: Self)
        ensures
            r.well_formed(),
            r@ == Seq::<T>::empty(),
            r.spec_len() == 0,
            r.cells().len() == 0,
    {
        let r = Self { len: 0, children: Vec::new() };
        r
    }

    /// Returns the number of elements.
    #[verifier::when_used_as_spec(spec_len)]
    pub fn len(&self) -> (r: u32)
        ensures
            r == self.spec_len(),
            r == self@.len(),
    {
        self.len
    }

    /// Returns the number of cells in use.
    pub fn children_count(&self) -> (r: u32)
        requires
            self.well_formed(),
        ensures
            r == self.cells().len(),
            r == (self.spec_len() + 1) / 2,
    {
        self.children.len() as u32
    }

    /// Returns `true` if there are no elements.
    pub fn is_empty(&self) -> (r: bool)
        ensures
            r == (self.spec_len() == 0),
    {
        self.len() == 0
    }

    /// Returns a shared reference to the element at `index`, or `None` if
    /// `index` is out of bounds.
    pub fn get(&self, index: u32) -> (r: Option<&T>)
        requires
            self.well_formed(),
        ensures
            index < self.spec_len() ==> r == Some(&self@[index as int]),
            index >= self.spec_len() ==> r is None,
    {
        self.get_child(index)?.child.as_ref()
    }

    /// Returns an exclusive reference to the element at `index`, or `None` if
    /// `index` is out of bounds. What the caller leaves behind the reference
    /// is the element at `index` afterwards.
    pub fn get_mut(&mut self, index: u32) -> (r: Option<&mut T>)
        requires
            old(self).well_formed(),
        ensures
            final(self).well_formed(),
            final(self).spec_len() == old(self).spec_len(),
            final(self).cells().len() == old(self).cells().len(),
            r is Some <==> index < old(self).spec_len(),
            r is None ==> final(self)@ == old(self)@,
            r is Some ==> *r->0 == old(self)@[index as int],
            r is Some ==> final(self)@ == old(self)@.update(index as int, *final(r->0)),
    {
        proof {
            if index < self.spec_len() {
                lemma_replace_element(self.cells(), self.spec_len() as int, index as int);
            } else if self.has_cell(index as int) {
                lemma_replace_slot_same(self.cells(), index as int);
            }
        }
        let child_info = self.get_child_mut(index)?;
        child_info.child.as_mut()
    }

    /// Swaps the elements at the given indices. Nothing happens if the two
    /// indices are the same; otherwise both must be in bounds.
    pub fn swap(&mut self, a: u32, b: u32)
        requires
            old(self).well_formed(),
            a == b || (a < old(self).spec_len() && b < old(self).spec_len()),
        ensures
            final(self).well_formed(),
            final(self).spec_len() == old(self).spec_len(),
            final(self).cells().len() == old(self).cells().len(),
            final(self)@ == swapped(old(self)@, a as int, b as int),
            a == b ==> final(self).cells() == old(self).cells(),
            a != b ==> final(self).cells() == swap_slots(old(self).cells(), a as int, b as int),
    {
        if a == b {
            return ;
        }
        proof {
            lemma_swap_slots(self.cells(), self.spec_len() as int, a as int, b as int);
        }
        let child_info_a = self.get_child_mut(a).expect("index a must exist");
        let mut a_opt = child_info_a.child.take();

        let child_info_b = self.get_child_mut(b).expect("index b must exist");
        core::mem::swap(child_info_b.child, &mut a_opt);
        let b_opt = a_opt;

        let child_info_a = self.get_child_mut(a).expect("index a must exist");
        *child_info_a.child = b_opt;
    }

    /// Removes the element at `index` and returns it. The last element takes
    /// its place. Returns `None`, and changes nothing, if there are no
    /// elements; otherwise `index` must be in bounds.
    pub fn swap_remove(&mut self, index: u32) -> (r: Option<T>)
        requires
            old(self).well_formed(),
            old(self).spec_len() == 0 || index < old(self).spec_len(),
        ensures
            final(self).well_formed(),
            final(self).cells().len() == cells_needed(final(self).spec_len() as int),
            old(self).spec_len() == 0 ==> r is None,
            old(self).spec_len() == 0 ==> final(self)@ == old(self)@,
            old(self).spec_len() == 0 ==> final(self).cells() == old(self).cells(),
            old(self).spec_len() > 0 ==> r == Some(old(self)@[index as int]),
            old(self).spec_len() > 0 ==> final(self).spec_len() == old(self).spec_len() - 1,
            old(self).spec_len() > 0 ==> final(self)@ == swapped(
                old(self)@,
                index as int,
                old(self).spec_len() - 1,
            ).drop_last(),
            index < old(self).spec_len() - 1 ==> final(self)@[index as int] == old(self)@.last(),
    {
        if self.is_empty() {
            return None;
        }
        self.swap(index, self.len() - 1);
        self.pop()
    }

    /// Returns an iterator over shared references to the elements, by heap
    /// index.
    pub fn iter(&self) -> (r: Iter<'_, T>)
        requires
            self.well_formed(),
        ensures
            r.elements() == self@,
            r.begin() == 0,
            r.end() == self.spec_len(),
            r@ == self@,
    {
        Iter::new(self)
    }

    /// Returns an iterator over exclusive references to the elements, by
    /// heap index.
    pub fn iter_mut(&mut self) -> (r: IterMut<'_, T>)
        requires
            old(self).well_formed(),
        ensures
            r.well_formed(),
            *r.elements == *old(self),
            *final(r.elements) == *final(self),
            r.begin == 0,
            r.end == old(self).spec_len(),
            r@ == old(self)@,
    {
        IterMut::new(self)
    }

    /// Returns a shared reference to the first element, if any.
    pub fn first(&self) -> (r: Option<&T>)
        requires
            self.well_formed(),
        ensures
            self.spec_len() == 0 ==> r is None,
            self.spec_len() > 0 ==> r == Some(&self@[0]),
    {
        if self.is_empty() {
            return None;
        }
        self.get(0)
    }

    /// Returns an exclusive reference to the first element, if any. What the
    /// caller leaves behind the reference is the first element afterwards.
    pub fn first_mut(&mut self) -> (r: Option<&mut T>)
        requires
            old(self).well_formed(),
        ensures
            final(self).well_formed(),
            final(self).spec_len() == old(self).spec_len(),
            final(self).cells().len() == old(self).cells().len(),
            r is Some <==> old(self).spec_len() > 0,
            r is None ==> final(self)@ == old(self)@,
            r is Some ==> *r->0 == old(self)@[0],
            r is Some ==> final(self)@ == old(self)@.update(0, *final(r->0)),
    {
        if self.is_empty() {
            return None;
        }
        self.get_mut(0)
    }

    /// Removes all elements, by dropping the cells at once: no element is
    /// looked at.
    pub fn clear(&mut self)
        requires
            old(self).well_formed(),
        ensures
            final(self).well_formed(),
            final(self).spec_len() == 0,
            final(self).cells().len() == 0,
            final(self)@ == Seq::<T>::empty(),
            old(self).spec_len() == 0 ==> final(self).cells() == old(self).cells(),
    {
        if self.is_empty() {
            return ;
        }
        self.children.clear();
        self.len = 0;
    }

    /// Appends an element. The length must be below `u32::MAX`.
    pub fn push(&mut self, value: T)
        requires
            old(self).well_formed(),
            old(self).spec_len() < u32::MAX,
        ensures
            final(self).well_formed(),
            final(self).spec_len() == old(self).spec_len() + 1,
            final(self)@ == old(self)@.push(value),
            final(self).cells() == push_slot(old(self).cells(), old(self).spec_len() as int, value),
    {
        proof {
            lemma_push_slot(self.cells(), self.spec_len() as int, value);
        }
        let last_index = self.len();
        self.len += 1;
        self.push_to(last_index, Some(value));
    }

    /// Returns access to the slot that stands for heap index `index`, if its
    /// cell exists.
    pub fn get_child(&self, index: u32) -> (r: Option<ChildInfo<'_, T>>)
        ensures
            r is Some <==> self.has_cell(index as int),
            r is Some ==> *r->0.child == slot_at(self.cells(), index as int),
    {
        let storage_index = get_children_storage_index(index) as usize;
        let child_pos = get_child_pos(index);
        if storage_index >= self.children.len() {
            return None;
        }
        let children = &self.children[storage_index];
        let child = children.child(child_pos);
        Some(ChildInfo::new(child))
    }

    /// Returns exclusive access to the slot that stands for heap index
    /// `index`, if its cell exists, together with the occupancy of that cell.
    ///
    /// What the caller leaves in the slot is what it holds afterwards; nothing
    /// else changes. The caller answers for the packing invariant.
    pub fn get_child_mut(&mut self, index: u32) -> (r: Option<ChildInfoMut<'_, T>>)
        ensures
            final(self).spec_len() == old(self).spec_len(),
            r is Some <==> old(self).has_cell(index as int),
            r is None ==> final(self).cells() == old(self).cells(),
            r is Some ==> *r->0.child == slot_at(old(self).cells(), index as int),
            r is Some ==> r->0.child_count == old(self).cells()[storage_index(
                index as int,
            )].occupancy(),
            r is Some ==> final(self).cells() == replace_slot(
                old(self).cells(),
                index as int,
                *final(r->0.child),
            ),
    {
        let storage_index = get_children_storage_index(index) as usize;
        let child_pos = get_child_pos(index);
        if storage_index >= self.children.len() {
            return None;
        }
        let children = &mut self.children[storage_index];
        let count = children.count();
        let child = children.child_mut(child_pos);
        Some(ChildInfoMut::new(child, count))
    }

    /// Puts `value` in the slot that stands for heap index `index`. If the
    /// cell of that slot does not exist, a new cell is appended with `value`
    /// in its left slot.
    fn push_to(&mut self, index: u32, value: Option<T>)
        ensures
            final(self).spec_len() == old(self).spec_len(),
            old(self).has_cell(index as int) ==> final(self).cells() == replace_slot(
                old(self).cells(),
                index as int,
                value,
            ),
            !old(self).has_cell(index as int) ==> final(self).cells() == old(self).cells().push(
                (Children { left: value, right: None }),
            ),
    {
        let info = self.get_child_mut(index);
        if let Some(info) = info {
            *info.child = value;
            return ;
        }
        self.children.push(Children::new(value, None));
    }

    /// Removes the last element and returns it, or returns `None` if there
    /// are no elements. The cell of the last element goes with it if it held
    /// nothing else.
    fn pop(&mut self) -> (r: Option<T>)
        requires
            old(self).well_formed(),
        ensures
            final(self).well_formed(),
            old(self).spec_len() == 0 ==> r is None,
            old(self).spec_len() == 0 ==> final(self)@ == old(self)@,
            old(self).spec_len() == 0 ==> final(self).cells() == old(self).cells(),
            old(self).spec_len() > 0 ==> r == Some(old(self)@.last()),
            old(self).spec_len() > 0 ==> final(self).spec_len() == old(self).spec_len() - 1,
            old(self).spec_len() > 0 ==> final(self)@ == old(self)@.drop_last(),
            old(self).spec_len() > 0 ==> final(self).cells() == pop_slot(
                old(self).cells(),
                old(self).spec_len() as int,
            ),
    {
        if self.is_empty() {
            return None;
        }
        proof {
            lemma_pop_slot(self.cells(), self.spec_len() as int);
        }
        let last_index = self.len() - 1;
        self.len = last_index;

        let info = self.get_child_mut(last_index).expect("children must exist at last_index");
        let popped_val = info.child.take();
        if info.child_count == 1 {
            // if both children are non-existent the entire children object can be removed
            self.children.pop();
        }
        popped_val
    }
}

} // verus!
