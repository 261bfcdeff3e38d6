//! A max-priority queue that packs its elements in pairs into storage cells.
//!
//! [`BinaryHeap`] is the queue. It keeps its elements in a
//! [`ChildrenVector`], which stores them two to a cell, so that a heap of `n`
//! elements occupies `(n + 1) / 2` cells.
//!
//! What the heap promises about the order of its elements holds for element
//! types whose comparisons form a total order; see [`order::total_order`].

pub mod binary_heap;
pub mod children;
pub mod children_vector;
pub mod heap_order;
pub mod iter;
pub mod order;
pub mod packing;
pub mod sequence;

pub use binary_heap::BinaryHeap;
pub use binary_heap::PeekMut;
pub use children_vector::ChildrenVector;
pub use iter::Iter;
pub use iter::IterMut;
