//! Iterators over the elements of a heap, by heap index.
//!
//! Both iterators walk the indices `begin..end`, where `end` is the length
//! of the heap when the iterator was made. `nth(n)` skips `n` indices and
//! yields the next one; [`nth_index`] and [`nth_begin`] say which index that
//! is and where the walk goes on.

use crate::children_vector::ChildrenVector;
use vstd::prelude::*;

verus! {

/// The heap index that `nth(n)` yields on a walk that stands at `begin` and
/// ends before `end`, if it yields one.
pub open spec fn nth_index(begin: int, end: int, n: int) -> Option<int> {
    if 0 <= n && begin + n < end {
        Some(begin + n)
    } else {
        None
    }
}

/// Where a walk that stands at `begin` stands after `nth(n)`: behind the
/// index it yielded, or where it stood if it yielded none.
pub open spec fn nth_begin(begin: int, end: int, n: int) -> int {
    if 0 <= n && begin + n < end {
        begin + n + 1
    } else {
        begin
    }
}

/// The heap indices that a walk from `begin` yields, in turn, when `nth` is
/// called with each of `skips`.
pub open spec fn yielded(begin: int, end: int, skips: Seq<int>) -> Seq<int>
    decreases skips.len(),
{
    if skips.len() == 0 {
        Seq::empty()
    } else {
        let rest = yielded(nth_begin(begin, end, skips[0]), end, skips.drop_first());
        match nth_index(begin, end, skips[0]) {
            Some(index) => seq![index] + rest,
            None => rest,
        }
    }
}

/// Whatever is asked of it, a walk yields indices within its bounds and in
/// strictly increasing order, so it yields no index twice.
pub proof fn lemma_yielded_increasing(begin: int, end: int, skips: Seq<int>)
    ensures
        forall|i: int|
            0 <= i < yielded(begin, end, skips).len() ==> begin <= #[trigger] yielded(
                begin,
                end,
                skips,
            )[i] < end,
        forall|i: int, j: int|
            0 <= i < j < yielded(begin, end, skips).len() ==> yielded(begin, end, skips)[i]
                < yielded(begin, end, skips)[j],
        yielded(begin, end, skips).no_duplicates(),
    decreases skips.len(),
{
    if skips.len() > 0 {
        let next = nth_begin(begin, end, skips[0]);
        let rest = yielded(next, end, skips.drop_first());
        lemma_yielded_increasing(next, end, skips.drop_first());
        match nth_index(begin, end, skips[0]) {
            Some(index) => {
                assert forall|i: int| 0 < i < yielded(begin, end, skips).len() implies yielded(
                    begin,
                    end,
                    skips,
                )[i] == rest[i - 1] by {}
            },
            None => {},
        }
    }
}

/// An iterator over shared references to the elements of a heap.
#[derive(Debug)]
pub struct Iter<'a, T: Ord> {
    /// The elements to iterate over.
    elements: &'a ChildrenVector<T>,
    /// The heap index of the next element.
    begin: u32,
    /// The heap index at which the iteration ends.
    end: u32,
}

impl<'a, T: Ord> Clone for Iter<'a, T> {
    /// Returns an iterator that stands where this one stands.
    fn clone(&self) -> (r: Self)
        ensures
            r == *self,
    {
        *self
    }
}

impl<'a, T: Ord> Copy for Iter<'a, T> {

}

impl<'a, T: Ord> View for Iter<'a, T> {
    type V = Seq<T>;

    /// The elements still to come.
    open spec fn view(&self) -> Seq<T> {
        self.elements().subrange(self.begin(), self.end())
    }
}

impl<'a, T: Ord> Iter<'a, T> {
    #[verifier::type_invariant]
    spec fn in_bounds(&self) -> bool {
        &&& self.elements.well_formed()
        &&& self.begin <= self.end <= self.elements.spec_len()
    }

    /// All the elements of the heap that is iterated over.
    pub closed spec fn elements(&self) -> Seq<T> {
        self.elements@
    }

    /// The heap index of the next element.
    pub closed spec fn begin(&self) -> int {
        self.begin as int
    }

    /// The heap index at which the iteration ends.
    pub closed spec fn end(&self) -> int {
        self.end as int
    }

    /// Creates an iterator over all of `elements`.
    pub fn new(elements: &'a ChildrenVector<T>) -> (r: Self)
        requires
            elements.well_formed(),
        ensures
            r.elements() == elements@,
            r.begin() == 0,
            r.end() == elements.spec_len(),
            r@ == elements@,
    {
        let r = Self { elements, begin: 0, end: elements.len() };
        r
    }

    /// Returns the number of elements still to come.
    fn remaining(&self) -> (r: u32)
        ensures
            r == self.end() - self.begin(),
            r == self@.len(),
            0 <= self.begin() <= self.end() <= self.elements().len(),
    {
        proof {
            use_type_invariant(self);
        }
        self.end - self.begin
    }

    /// Yields the next element, if any is left.
    pub fn next(&mut self) -> (r: Option<&'a T>)
        ensures
            final(self).elements() == old(self).elements(),
            final(self).end() == old(self).end(),
            final(self).begin() == nth_begin(old(self).begin(), old(self).end(), 0),
            r is Some <==> old(self)@.len() > 0,
            r is None ==> final(self)@ == old(self)@,
            r is Some ==> r == Some(&old(self)@[0]),
            r is Some ==> final(self)@ == old(self)@.skip(1),
    {
        self.nth(0)
    }

    /// Returns the number of elements still to come, as lower and upper
    /// bound.
    pub fn size_hint(&self) -> (r: (usize, Option<usize>))
        ensures
            r.0 == self@.len(),
            r.1 == Some(r.0),
    {
        let remaining = self.remaining() as usize;
        (remaining, Some(remaining))
    }

    /// Returns the number of elements still to come.
    pub fn count(self) -> (r: usize)
        ensures
            r == self@.len(),
    {
        self.remaining() as usize
    }

    /// Skips `n` elements and yields the one behind them. If fewer than
    /// `n + 1` elements are left, yields `None` and skips nothing.
    pub fn nth(&mut self, n: usize) -> (r: Option<&'a T>)
        ensures
            final(self).elements() == old(self).elements(),
            final(self).end() == old(self).end(),
            final(self).begin() == nth_begin(old(self).begin(), old(self).end(), n as int),
            r is Some <==> nth_index(old(self).begin(), old(self).end(), n as int) is Some,
            r is Some ==> r == Some(
                &old(self).elements()[nth_index(old(self).begin(), old(self).end(), n as int)->0],
            ),
            r is Some <==> n < old(self)@.len(),
            r is None ==> final(self)@ == old(self)@,
            r is Some ==> r == Some(&old(self)@[n as int]),
            r is Some ==> final(self)@ == old(self)@.skip(n + 1),
    {
        proof {
            use_type_invariant(&*self);
        }
        if n >= self.remaining() as usize {
            return None;
        }
        let n = n as u32;
        let cur = self.begin + n;
        self.begin += 1 + n;
        self.elements.get(cur)
    }
}

/// An iterator over exclusive references to the elements of a heap.
///
/// It lends out one element at a time: a reference that it yields has to be
/// given up before the next one can be asked for.
#[derive(Debug)]
pub struct IterMut<'a, T: Ord> {
    /// The elements to iterate over.
    pub elements: &'a mut ChildrenVector<T>,
    /// The heap index of the next element.
    pub begin: u32,
    /// The heap index at which the iteration ends.
    pub end: u32,
}

impl<'a, T: Ord> View for IterMut<'a, T> {
    type V = Seq<T>;

    /// The elements still to come.
    open spec fn view(&self) -> Seq<T> {
        self.elements@.subrange(self.begin as int, self.end as int)
    }
}

impl<'a, T: Ord> IterMut<'a, T> {
    /// The iteration stays within the elements.
    pub open spec fn well_formed(&self) -> bool {
        &&& self.elements.well_formed()
        &&& self.begin <= self.end <= self.elements.spec_len()
    }

    /// Creates an iterator over all of `elements`.
    pub fn new(elements: &'a mut ChildrenVector<T>) -> (r: Self)
        requires
            old(elements).well_formed(),
        ensures
            r.well_formed(),
            *r.elements == *old(elements),
            *final(r.elements) == *final(elements),
            r.begin == 0,
            r.end == old(elements).spec_len(),
            r@ == old(elements)@,
    {
        let end = elements.len();
        let r = Self { elements, begin: 0, end };
        r
    }

    /// Returns the number of elements still to come.
    fn remaining(&self) -> (r: u32)
        requires
            self.well_formed(),
        ensures
            r == self.end - self.begin,
            r == self@.len(),
    {
        self.end - self.begin
    }

    /// Returns an exclusive reference to the element at heap index `at`.
    fn get_mut(&mut self, at: u32) -> (r: Option<&mut T>)
        requires
            old(self).well_formed(),
        ensures
            final(self).well_formed(),
            final(self).begin == old(self).begin,
            final(self).end == old(self).end,
            *final(final(self).elements) == *final(old(self).elements),
            final(self).elements.spec_len() == old(self).elements.spec_len(),
            r is Some <==> at < old(self).elements.spec_len(),
            r is None ==> final(self).elements@ == old(self).elements@,
            r is Some ==> *r->0 == old(self).elements@[at as int],
            r is Some ==> final(self).elements@ == old(self).elements@.update(
                at as int,
                *final(r->0),
            ),
    {
        self.elements.get_mut(at)
    }

    /// Yields the next element, if any is left. What the caller leaves behind
    /// the reference is that element afterwards.
    pub fn next(&mut self) -> (r: Option<&mut T>)
        requires
            old(self).well_formed(),
        ensures
            final(self).well_formed(),
            final(self).end == old(self).end,
            final(self).begin == nth_begin(old(self).begin as int, old(self).end as int, 0),
            final(self).elements.spec_len() == old(self).elements.spec_len(),
            *final(final(self).elements) == *final(old(self).elements),
            r is Some <==> old(self)@.len() > 0,
            r is None ==> final(self).elements@ == old(self).elements@,
            r is Some ==> *r->0 == old(self).elements@[old(self).begin as int],
            r is Some ==> final(self).elements@ == old(self).elements@.update(
                old(self).begin as int,
                *final(r->0),
            ),
    {
        self.nth(0)
    }

    /// Returns the number of elements still to come, as lower and upper
    /// bound.
    pub fn size_hint(&self) -> (r: (usize, Option<usize>))
        requires
            self.well_formed(),
        ensures
            r.0 == self@.len(),
            r.1 == Some(r.0),
    {
        let remaining = self.remaining() as usize;
        (remaining, Some(remaining))
    }

    /// Returns the number of elements still to come.
    pub fn count(self) -> (r: usize)
        requires
            self.well_formed(),
        ensures
            r == self@.len(),
            *final(self.elements) == *old(self.elements),
    {
        self.remaining() as usize
    }

    /// Skips `n` elements and yields the one behind them. If fewer than
    /// `n + 1` elements are left, yields `None` and skips nothing. What the
    /// caller leaves behind the reference is that element afterwards; no
    /// other element changes.
    pub fn nth(&mut self, n: usize) -> (r: Option<&mut T>)
        requires
            old(self).well_formed(),
        ensures
            final(self).well_formed(),
            final(self).end == old(self).end,
            final(self).begin == nth_begin(old(self).begin as int, old(self).end as int, n as int),
            final(self).elements.spec_len() == old(self).elements.spec_len(),
            *final(final(self).elements) == *final(old(self).elements),
            r is Some <==> nth_index(
                old(self).begin as int,
                old(self).end as int,
                n as int,
            ) is Some,
            r is Some <==> n < old(self)@.len(),
            r is None ==> final(self).elements@ == old(self).elements@,
            r is Some ==> *r->0 == old(self).elements@[old(self).begin + n],
            r is Some ==> final(self).elements@ == old(self).elements@.update(
                old(self).begin + n,
                *final(r->0),
            ),
    {
        if n >= self.remaining() as usize {
            return None;
        }
        let n = n as u32;
        let cur = self.begin + n;
        self.begin += 1 + n;
        self.get_mut(cur)
    }
}

} // verus!
