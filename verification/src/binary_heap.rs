//! A priority queue implemented with a binary heap.
//!
//! Insertion and popping the largest element have `O(log(n))` complexity.
//! Checking the largest element is `O(1)`.

use crate::children_vector::ChildrenVector;
use crate::heap_order;
use crate::heap_order::first_is_greatest;
use crate::heap_order::is_heap_but_below;
use crate::heap_order::lemma_heap_root_is_greatest;
use crate::heap_order::lemma_popped_is_heap;
use crate::heap_order::lemma_pushed_is_heap;
use crate::heap_order::lemma_root_replaced;
use crate::heap_order::lemma_sift_down_restores;
use crate::heap_order::lemma_without_root_permutes;
use crate::heap_order::popped;
use crate::heap_order::pushed;
use crate::iter::Iter;
use crate::iter::IterMut;
use crate::order::greater_or_equal;
use crate::order::less_or_equal;
use crate::order::total_order;
use crate::sequence::lemma_swapped_permutes;
use vstd::prelude::*;
use vstd::seq_lib::to_multiset_build;

verus! {

/// A priority queue implemented with a binary heap.
///
/// The heap is a *max-heap*: the first element is the greatest. Wrapping the
/// elements in a type that reverses their order makes it a *min-heap*.
///
/// The view of a heap is the sequence of its elements by heap index.
#[derive(Debug, PartialEq, Eq)]
pub struct BinaryHeap<T: Ord> {
    /// The individual elements of the heap.
    elements: ChildrenVector<T>,
}

impl<T: Ord> View for BinaryHeap<T> {
    type V = Seq<T>;

    /// The elements, by heap index.
    open spec fn view(&self) -> Seq<T> {
        self.elements()@
    }
}

impl<T: Ord> Default for BinaryHeap<T> {
    /// Creates a new empty heap.
    fn default() -> (r: Self)
        ensures
            r.well_formed(),
            r.is_heap(),
            r@ == Seq::<T>::empty(),
    {
        Self::new()
    }
}

impl<T: Ord> BinaryHeap<T> {
    /// The elements, as they are packed into cells.
    pub closed spec fn elements(&self) -> ChildrenVector<T> {
        self.elements
    }

    /// The number of elements.
    pub open spec fn spec_len(&self) -> u32 {
        self.elements().spec_len()
    }

    /// The elements are packed as the packing invariant asks.
    pub open spec fn well_formed(&self) -> bool {
        self.elements().well_formed()
    }

    /// No element is greater than its parent.
    pub open spec fn is_heap(&self) -> bool {
        heap_order::is_heap(self@)
    }

    /// Creates a new empty heap.
    pub fn new() -> (r: Self)
        ensures
            r.well_formed(),
            r.is_heap(),
            r@ == Seq::<T>::empty(),
            r.spec_len() == 0,
    {
        Self { elements: ChildrenVector::new() }
    }

    /// Returns the number of elements in the heap, also referred to as its 'length'.
    #[verifier::when_used_as_spec(spec_len)]
    pub fn len(&self) -> (r: u32)
        ensures
            r == self.spec_len(),
            r == self@.len(),
    {
        self.elements.len()
    }

    /// Returns `true` if the heap contains no elements.
    pub fn is_empty(&self) -> (r: bool)
        ensures
            r == (self.spec_len() == 0),
    {
        self.elements.is_empty()
    }

    /// Returns an iterator yielding shared references to all elements of the
    /// heap, by heap index.
    pub fn iter(&self) -> (r: Iter<'_, T>)
        requires
            self.well_formed(),
        ensures
            r.elements() == self@,
            r.begin() == 0,
            r.end() == self.spec_len(),
            r@ == self@,
    {
        self.elements.iter()
    }

    /// Returns an iterator yielding exclusive references to all elements of
    /// the heap, by heap index.
    ///
    /// The heap holds afterwards what the iterator's elements hold when it is
    /// given up. Whether that is a heap again is up to what the caller wrote.
    pub fn iter_mut(&mut self) -> (r: IterMut<'_, T>)
        requires
            old(self).well_formed(),
        ensures
            r.well_formed(),
            *r.elements == old(self).elements(),
            *final(r.elements) == final(self).elements(),
            r.begin == 0,
            r.end == old(self).spec_len(),
            r@ == old(self)@,
    {
        self.elements.iter_mut()
    }

    /// Returns a shared reference to the first element of the heap, which is
    /// the greatest if the elements are in heap order.
    ///
    /// Returns `None` if the heap is empty.
    pub fn peek(&self) -> (r: Option<&T>)
        requires
            self.well_formed(),
        ensures
            self.spec_len() == 0 ==> r is None,
            self.spec_len() > 0 ==> r == Some(&self@[0]),
            total_order::<T>() && self.is_heap() ==> first_is_greatest(self@),
    {
        proof {
            if total_order::<T>() && self.is_heap() {
                lemma_heap_root_is_greatest(self@);
            }
        }
        self.elements.first()
    }

    /// Returns a guard for the first element of the heap, through which it
    /// can be changed.
    ///
    /// Returns `None` if the heap is empty.
    ///
    /// The heap holds afterwards what the guard's heap holds when the guard
    /// is given up. Give it up with [`PeekMut::release`] or [`PeekMut::pop`]:
    /// both put the elements in heap order again.
    pub fn peek_mut(&mut self) -> (r: Option<PeekMut<'_, T>>)
        requires
            old(self).well_formed(),
        ensures
            old(self).spec_len() == 0 ==> r is None && *final(self) == *old(self),
            old(self).spec_len() > 0 ==> r is Some && r->0.well_formed() && *r->0.heap == *old(self)
                && *final(r->0.heap) == *final(self),
            old(self).spec_len() > 0 && old(self).is_heap() ==> r->0.ordered_below_root(),
    {
        if self.is_empty() {
            None
        } else {
            Some(PeekMut { heap: self })
        }
    }

    /// Takes the element at `pos` and moves it down the heap, while its
    /// children are greater.
    fn sift_down(&mut self, pos: u32)
        requires
            old(self).well_formed(),
        ensures
            final(self).well_formed(),
            final(self).spec_len() == old(self).spec_len(),
            final(self)@.to_multiset() == old(self)@.to_multiset(),
            total_order::<T>() ==> final(self)@ == heap_order::sift_down(old(self)@, pos as int),
    {
        let ghost start = pos;
        let mut pos = pos;
        let end = self.len();
        // `pos` has a child as long as `2 * pos + 1 < end`
        while pos < end / 2
            invariant
                self.well_formed(),
                self.spec_len() == end,
                self@.to_multiset() == old(self)@.to_multiset(),
                total_order::<T>() ==> heap_order::sift_down(self@, pos as int)
                    == heap_order::sift_down(old(self)@, start as int),
            ensures
                self.well_formed(),
                self.spec_len() == end,
                self@.to_multiset() == old(self)@.to_multiset(),
                total_order::<T>() ==> self@ == heap_order::sift_down(old(self)@, start as int),
            decreases end - pos,
        {
            let mut child = 2 * pos + 1;
            let right = child + 1;
            // compare with the greater of the two children
            if right < end && less_or_equal(self.elements.get(child), self.elements.get(right)) {
                child = right;
            }
            // if we are already in order, stop.
            if greater_or_equal(self.elements.get(pos), self.elements.get(child)) {
                break ;
            }
            proof {
                lemma_swapped_permutes(self@, child as int, pos as int);
            }
            self.elements.swap(child, pos);
            pos = child;
        }
    }

    /// Pops the first element from the heap and returns it. If the elements
    /// are in heap order, it is the greatest. The rest is in heap order again
    /// if the elements below the first were.
    ///
    /// Returns `None` if the heap is empty.
    pub fn pop(&mut self) -> (r: Option<T>)
        requires
            old(self).well_formed(),
        ensures
            final(self).well_formed(),
            old(self).spec_len() == 0 ==> r is None && final(self)@ == old(self)@,
            old(self).spec_len() > 0 ==> r == Some(old(self)@[0]),
            old(self).spec_len() > 0 ==> final(self).spec_len() == old(self).spec_len() - 1,
            old(self).spec_len() > 0 ==> final(self)@.to_multiset()
                == old(self)@.to_multiset().remove(old(self)@[0]),
            old(self).spec_len() > 0 && total_order::<T>() ==> final(self)@ == popped(old(self)@),
            total_order::<T>() && is_heap_but_below(old(self)@, 0) ==> final(self).is_heap(),
            total_order::<T>() && old(self).is_heap() ==> first_is_greatest(old(self)@),
    {
        proof {
            if self.spec_len() > 0 {
                lemma_without_root_permutes(self@);
            }
            if total_order::<T>() && self.is_heap() {
                lemma_heap_root_is_greatest(self@);
            }
            if total_order::<T>() && is_heap_but_below(self@, 0) && self.spec_len() > 0 {
                lemma_popped_is_heap(self@);
            }
        }
        // replace the root of the heap with the last element
        let elem = self.elements.swap_remove(0);
        self.sift_down(0);
        elem
    }

    /// Removes all elements from this heap.
    ///
    /// # Note
    ///
    /// Use this method to clear the heap instead of e.g. iterative `pop()`.
    /// This method performs significantly better and does not actually read
    /// any of the elements (whereas `pop()` does).
    pub fn clear(&mut self)
        requires
            old(self).well_formed(),
        ensures
            final(self).well_formed(),
            final(self).is_heap(),
            final(self).spec_len() == 0,
            final(self)@ == Seq::<T>::empty(),
            final(self).elements().cells().len() == 0,
            old(self).spec_len() == 0 ==> final(self).elements().cells()
                == old(self).elements().cells(),
    {
        self.elements.clear()
    }

    /// Takes the element at `pos` and moves it up the heap, while its parent
    /// is smaller.
    fn sift_up(&mut self, pos: u32)
        requires
            old(self).well_formed(),
            pos < old(self).spec_len(),
        ensures
            final(self).well_formed(),
            final(self).spec_len() == old(self).spec_len(),
            final(self)@.to_multiset() == old(self)@.to_multiset(),
            pos == 0 ==> final(self)@ == old(self)@,
            total_order::<T>() ==> final(self)@ == heap_order::sift_up(old(self)@, pos as int),
    {
        let ghost start = pos;
        let mut pos = pos;
        while pos > 0
            invariant
                self.well_formed(),
                self.spec_len() == old(self).spec_len(),
                pos < self.spec_len(),
                pos <= start,
                start == 0 ==> self@ == old(self)@,
                self@.to_multiset() == old(self)@.to_multiset(),
                total_order::<T>() ==> heap_order::sift_up(self@, pos as int)
                    == heap_order::sift_up(old(self)@, start as int),
            ensures
                self.well_formed(),
                self.spec_len() == old(self).spec_len(),
                start == 0 ==> self@ == old(self)@,
                self@.to_multiset() == old(self)@.to_multiset(),
                total_order::<T>() ==> self@ == heap_order::sift_up(old(self)@, start as int),
            decreases pos,
        {
            let parent = (pos - 1) / 2;
            if less_or_equal(self.elements.get(pos), self.elements.get(parent)) {
                break ;
            }
            proof {
                lemma_swapped_permutes(self@, parent as int, pos as int);
            }
            self.elements.swap(parent, pos);
            pos = parent;
        }
    }

    /// Pushes the given element to the binary heap. If the elements were in
    /// heap order, they are again. The heap must hold fewer than `u32::MAX`
    /// elements.
    pub fn push(&mut self, value: T)
        requires
            old(self).well_formed(),
            old(self).spec_len() < u32::MAX,
        ensures
            final(self).well_formed(),
            final(self).spec_len() == old(self).spec_len() + 1,
            final(self)@.to_multiset() == old(self)@.to_multiset().insert(value),
            old(self).spec_len() == 0 ==> final(self)@ == seq![value],
            total_order::<T>() ==> final(self)@ == pushed(old(self)@, value),
            total_order::<T>() && old(self).is_heap() ==> final(self).is_heap(),
    {
        proof {
            to_multiset_build(self@, value);
            if total_order::<T>() && self.is_heap() {
                lemma_pushed_is_heap(self@, value);
            }
        }
        let old_len = self.len();
        self.elements.push(value);
        self.sift_up(old_len)
    }
}

/// A guard for the first element of a [`BinaryHeap`], through which the
/// element can be changed.
///
/// This `struct` is created by the [`BinaryHeap::peek_mut`] method. While the
/// guard is held the first element may be less than its children.
pub struct PeekMut<'a, T: Ord> {
    /// The heap whose first element is guarded.
    pub heap: &'a mut BinaryHeap<T>,
}

impl<'a, T: Ord> PeekMut<'a, T> {
    /// The guarded heap is well formed and has a first element.
    pub open spec fn well_formed(&self) -> bool {
        &&& self.heap.well_formed()
        &&& self.heap.spec_len() > 0
    }

    /// The elements are in heap order but for the first, which may be less
    /// than its children.
    pub open spec fn ordered_below_root(&self) -> bool {
        is_heap_but_below(self.heap@, 0)
    }

    /// Returns a shared reference to the first element of the heap.
    pub fn deref(&self) -> (r: &T)
        requires
            self.well_formed(),
        ensures
            *r == old(self.heap)@[0],
    {
        self.heap.elements.first().expect("PeekMut is only instantiated for non-empty heaps")
    }

    /// Returns an exclusive reference to the first element of the heap. What
    /// the caller leaves behind the reference is the first element
    /// afterwards; no other element changes.
    pub fn deref_mut(&mut self) -> (r: &mut T)
        requires
            old(self).well_formed(),
        ensures
            final(self).well_formed(),
            *final(final(self).heap) == *final(old(self).heap),
            final(self).heap.spec_len() == old(self).heap.spec_len(),
            *r == old(self).heap@[0],
            final(self).heap@ == old(self).heap@.update(0, *final(r)),
            old(self).ordered_below_root() ==> final(self).ordered_below_root(),
    {
        proof {
            let s = self.heap@;
            if self.ordered_below_root() {
                assert forall|value: T| is_heap_but_below(#[trigger] s.update(0, value), 0) by {
                    lemma_root_replaced(s, value);
                }
            }
        }
        self.heap.elements.first_mut().expect("PeekMut is only instantiated for non-empty heaps")
    }

    /// Gives the guard up: the first element moves down the heap, while its
    /// children are greater. If the elements below the first were in heap
    /// order, as they are when only the first element was changed, all are in
    /// heap order again.
    pub fn release(self)
        requires
            self.well_formed(),
        ensures
            final(self.heap).well_formed(),
            final(self.heap).spec_len() == old(self.heap).spec_len(),
            final(self.heap)@.to_multiset() == old(self.heap)@.to_multiset(),
            total_order::<T>() ==> final(self.heap)@ == heap_order::sift_down(old(self.heap)@, 0),
            total_order::<T>() && self.ordered_below_root() ==> final(self.heap).is_heap(),
    {
        proof {
            if total_order::<T>() && self.ordered_below_root() {
                lemma_sift_down_restores(self.heap@, 0);
            }
        }
        self.heap.sift_down(0);
    }

    /// Removes the peeked value from the heap and returns it. The guard is
    /// given up, and the rest of the heap is put in order as
    /// [`BinaryHeap::pop`] does.
    pub fn pop(this: PeekMut<'a, T>) -> (r: T)
        requires
            this.well_formed(),
        ensures
            final(this.heap).well_formed(),
            r == old(this.heap)@[0],
            final(this.heap).spec_len() == old(this.heap).spec_len() - 1,
            final(this.heap)@.to_multiset() == old(this.heap)@.to_multiset().remove(r),
            total_order::<T>() ==> final(this.heap)@ == popped(old(this.heap)@),
            total_order::<T>() && this.ordered_below_root() ==> final(this.heap).is_heap(),
    {
        this.heap.pop().expect("PeekMut is only instantiated for non-empty heaps")
    }
}

} // verus!
