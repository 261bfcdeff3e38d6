//! Storage cells and the index arithmetic that packs heap elements into them.
//!
//! A cell holds up to two elements. The element at heap index `n` lives in
//! cell `n / 2`: in its left slot when `n` is even, in its right slot when `n`
//! is odd. No other module computes this.

use vstd::prelude::*;

verus! {

/// Number of elements that share one cell.
pub const CHILDREN_PER_NODE: u32 = 2;

/// One of the two slots of a cell.
#[derive(Clone, Copy, Debug, PartialEq, Eq, Structural)]
pub enum ChildPosition {
    Left,
    Right,
}

/// The cell that holds heap index `n`.
pub open spec fn storage_index(n: int) -> int {
    n / 2
}

/// The slot, within its cell, that holds heap index `n`.
pub open spec fn child_pos(n: int) -> ChildPosition {
    if n % 2 == 0 {
        ChildPosition::Left
    } else {
        ChildPosition::Right
    }
}

/// Two heap indices never share a slot.
pub proof fn lemma_slots_distinct(a: int, b: int)
    requires
        0 <= a,
        0 <= b,
        a != b,
    ensures
        storage_index(a) != storage_index(b) || child_pos(a) != child_pos(b),
{
}

/// Returns the index of the cell that holds heap index `n`.
pub fn get_children_storage_index(n: u32) -> (r: u32)
    ensures
        r == storage_index(n as int),
{
    n / CHILDREN_PER_NODE
}

/// Returns the slot, within its cell, that holds heap index `n`.
pub fn get_child_pos(n: u32) -> (r: ChildPosition)
    ensures
        r == child_pos(n as int),
{
    if n % CHILDREN_PER_NODE == 0 {
        ChildPosition::Left
    } else {
        ChildPosition::Right
    }
}

/// A storage cell: two slots, each empty or holding one heap element.
#[derive(Debug, PartialEq, Eq)]
pub struct Children<T: Ord> {
    pub left: Option<T>,
    pub right: Option<T>,
}

impl<T: Ord> Children<T> {
    /// The content of slot `which`.
    pub open spec fn slot(&self, which: ChildPosition) -> Option<T> {
        match which {
            ChildPosition::Left => self.left,
            ChildPosition::Right => self.right,
        }
    }

    /// This cell with `value` put in slot `which`.
    pub open spec fn with_slot(self, which: ChildPosition, value: Option<T>) -> Self {
        match which {
            ChildPosition::Left => Children { left: value, right: self.right },
            ChildPosition::Right => Children { left: self.left, right: value },
        }
    }

    /// The occupancy of the cell: how many of its slots hold an element.
    pub open spec fn occupancy(&self) -> nat {
        let left: nat = if self.left is Some { 1 } else { 0 };
        let right: nat = if self.right is Some { 1 } else { 0 };
        left + right
    }

    /// Creates a cell from the contents of its two slots.
    pub fn new(left: Option<T>, right: Option<T>) -> (r: Self)
        ensures
            r == (Children { left, right }),
    {
        Children { left, right }
    }

    /// Returns the number of occupied slots.
    pub fn count(&self) -> (r: usize)
        ensures
            r == self.occupancy(),
    {
        let left: usize = if self.left.is_some() { 1 } else { 0 };
        let right: usize = if self.right.is_some() { 1 } else { 0 };
        left + right
    }

    /// Returns a shared reference to slot `which`.
    pub fn child(&self, which: ChildPosition) -> (r: &Option<T>)
        ensures
            *r == self.slot(which),
    {
        match which {
            ChildPosition::Left => &self.left,
            ChildPosition::Right => &self.right,
        }
    }

    /// Returns an exclusive reference to slot `which`. What the caller leaves
    /// in it is what the slot holds afterwards; the other slot is untouched.
    pub fn child_mut(&mut self, which: ChildPosition) -> (r: &mut Option<T>)
        ensures
            *r == old(self).slot(which),
            *final(self) == old(self).with_slot(which, *final(r)),
    {
        match which {
            ChildPosition::Left => &mut self.left,
            ChildPosition::Right => &mut self.right,
        }
    }
}

} // verus!
