use std::cmp::Ordering;
use std::cmp::Reverse;
use storage_heap::BinaryHeap;
use storage_heap::PeekMut;

/// Builds a heap by pushing `values` in turn.
fn heap_from(values: &[u32]) -> BinaryHeap<u32> {
    let mut heap = BinaryHeap::new();
    for v in values {
        heap.push(*v);
    }
    heap
}

/// The elements of `heap`, by heap index.
fn layout(heap: &BinaryHeap<u32>) -> Vec<u32> {
    let mut out = Vec::new();
    let mut it = heap.iter();
    while let Some(v) = it.next() {
        out.push(*v);
    }
    out
}

/// Pops until the heap is empty.
fn drain(heap: &mut BinaryHeap<u32>) -> Vec<u32> {
    let mut out = Vec::new();
    while let Some(v) = heap.pop() {
        out.push(v);
    }
    out
}

fn is_heap(values: &[u32]) -> bool {
    (1..values.len()).all(|i| values[(i - 1) / 2] >= values[i])
}

/// An element ordered by its key alone.
#[derive(Debug, Clone, Copy)]
struct Tagged {
    key: u32,
    tag: char,
}

impl PartialEq for Tagged {
    fn eq(&self, other: &Self) -> bool {
        self.key == other.key
    }
}

impl Eq for Tagged {}

impl PartialOrd for Tagged {
    fn partial_cmp(&self, other: &Self) -> Option<Ordering> {
        Some(self.cmp(other))
    }
}

impl Ord for Tagged {
    fn cmp(&self, other: &Self) -> Ordering {
        self.key.cmp(&other.key)
    }
}

#[test]
fn new_heap_is_empty() {
    let heap: BinaryHeap<u32> = BinaryHeap::new();
    assert_eq!(heap.len(), 0);
    assert!(heap.is_empty());
    assert_eq!(heap.peek(), None);
}

#[test]
fn default_heap_is_empty() {
    let mut heap: BinaryHeap<u32> = BinaryHeap::default();
    assert_eq!(heap.len(), 0);
    assert!(heap.is_empty());
    assert_eq!(heap.pop(), None);
    assert_eq!(heap, BinaryHeap::new());
}

#[test]
fn pop_on_empty_heap_returns_none() {
    let mut heap: BinaryHeap<u32> = BinaryHeap::new();
    assert_eq!(heap.pop(), None);
    assert_eq!(heap.len(), 0);
    assert!(heap.peek_mut().is_none());
}

#[test]
fn push_then_pop_returns_the_value() {
    let mut heap = BinaryHeap::new();
    heap.push(42u32);
    assert_eq!(heap.len(), 1);
    assert!(!heap.is_empty());
    assert_eq!(heap.peek(), Some(&42));
    assert_eq!(heap.pop(), Some(42));
    assert!(heap.is_empty());
    assert_eq!(heap.pop(), None);
}

#[test]
fn pops_come_in_descending_order() {
    let mut heap = heap_from(&[5, 1, 4, 2, 8, 3]);
    assert_eq!(heap.len(), 6);
    assert_eq!(drain(&mut heap), vec![8, 5, 4, 3, 2, 1]);
    assert!(heap.is_empty());
}

#[test]
fn reversed_order_makes_a_min_heap() {
    let mut heap = BinaryHeap::new();
    heap.push(Reverse(5u32));
    heap.push(Reverse(1));
    heap.push(Reverse(4));
    assert_eq!(heap.pop(), Some(Reverse(1)));
    assert_eq!(heap.pop(), Some(Reverse(4)));
    assert_eq!(heap.pop(), Some(Reverse(5)));
    assert_eq!(heap.pop(), None);
}

#[test]
fn push_moves_the_new_element_up() {
    let mut heap = BinaryHeap::new();
    heap.push(5u32);
    assert_eq!(layout(&heap), vec![5]);
    heap.push(1);
    assert_eq!(layout(&heap), vec![5, 1]);
    heap.push(4);
    assert_eq!(layout(&heap), vec![5, 1, 4]);
    heap.push(2);
    assert_eq!(layout(&heap), vec![5, 2, 4, 1]);
    heap.push(8);
    assert_eq!(layout(&heap), vec![8, 5, 4, 1, 2]);
    heap.push(3);
    assert_eq!(layout(&heap), vec![8, 5, 4, 1, 2, 3]);
}

#[test]
fn pop_moves_the_last_element_down() {
    let mut heap = heap_from(&[5, 1, 4, 2, 8, 3]);
    assert_eq!(heap.pop(), Some(8));
    assert_eq!(layout(&heap), vec![5, 3, 4, 1, 2]);
    assert_eq!(heap.pop(), Some(5));
    assert_eq!(layout(&heap), vec![4, 3, 2, 1]);
    assert_eq!(heap.pop(), Some(4));
    assert_eq!(layout(&heap), vec![3, 1, 2]);
}

#[test]
fn right_child_wins_a_tie_when_moving_down() {
    let mut heap = BinaryHeap::new();
    heap.push(Tagged { key: 9, tag: 'x' });
    heap.push(Tagged { key: 7, tag: 'a' });
    heap.push(Tagged { key: 7, tag: 'b' });
    heap.push(Tagged { key: 1, tag: 'z' });
    assert_eq!(heap.pop().map(|t| t.tag), Some('x'));
    let tags: Vec<char> = {
        let mut out = Vec::new();
        let mut it = heap.iter();
        while let Some(t) = it.next() {
            out.push(t.tag);
        }
        out
    };
    assert_eq!(tags, vec!['b', 'a', 'z']);
    assert_eq!(heap.pop().map(|t| t.tag), Some('b'));
    assert_eq!(heap.pop().map(|t| t.tag), Some('a'));
    assert_eq!(heap.pop().map(|t| t.tag), Some('z'));
}

#[test]
fn equal_element_does_not_move_up() {
    let mut heap = BinaryHeap::new();
    heap.push(Tagged { key: 7, tag: 'a' });
    heap.push(Tagged { key: 7, tag: 'b' });
    assert_eq!(heap.peek().map(|t| t.tag), Some('a'));
}

#[test]
fn heap_property_holds_after_every_operation() {
    let values = [13u32, 7, 7, 21, 0, 99, 4, 4, 56, 1, 1000, 3, 8, 8, 2];
    let mut heap = BinaryHeap::new();
    for v in values {
        heap.push(v);
        assert!(is_heap(&layout(&heap)));
    }
    let mut last = u32::MAX;
    while let Some(v) = heap.pop() {
        assert!(v <= last);
        last = v;
        assert!(is_heap(&layout(&heap)));
    }
}

#[test]
fn push_and_pop_keep_the_elements() {
    let mut heap = heap_from(&[3, 9, 3, 1]);
    let mut all = layout(&heap);
    all.sort();
    assert_eq!(all, vec![1, 3, 3, 9]);
    assert_eq!(heap.pop(), Some(9));
    let mut rest = layout(&heap);
    rest.sort();
    assert_eq!(rest, vec![1, 3, 3]);
}

#[test]
fn peek_returns_the_greatest() {
    let heap = heap_from(&[2, 7, 5]);
    assert_eq!(heap.peek(), Some(&7));
    assert_eq!(heap.len(), 3);
}

#[test]
fn clear_empties_the_heap() {
    let mut heap = heap_from(&[5, 1, 4, 2, 8, 3]);
    heap.clear();
    assert_eq!(heap.len(), 0);
    assert!(heap.is_empty());
    assert_eq!(heap.peek(), None);
    assert_eq!(heap.pop(), None);
    heap.push(6);
    assert_eq!(heap.pop(), Some(6));
}

#[test]
fn clear_on_empty_heap_changes_nothing() {
    let mut heap: BinaryHeap<u32> = BinaryHeap::new();
    heap.clear();
    assert_eq!(heap.len(), 0);
    assert!(heap.is_empty());
    assert_eq!(heap, BinaryHeap::new());
    heap.clear();
    assert!(heap.is_empty());
}

#[test]
fn peek_mut_on_empty_heap_is_none() {
    let mut heap: BinaryHeap<u32> = BinaryHeap::new();
    assert!(heap.peek_mut().is_none());
    assert!(heap.is_empty());
}

#[test]
fn peek_mut_release_restores_the_order() {
    let mut heap = heap_from(&[1, 5, 2]);
    {
        let mut guard = heap.peek_mut().unwrap();
        assert_eq!(*guard.deref(), 5);
        *guard.deref_mut() = 0;
        assert_eq!(*guard.deref(), 0);
        guard.release();
    }
    assert_eq!(heap.peek(), Some(&2));
    assert_eq!(layout(&heap), vec![2, 1, 0]);
    assert_eq!(drain(&mut heap), vec![2, 1, 0]);
}

#[test]
fn peek_mut_release_without_change_changes_nothing() {
    let mut heap = heap_from(&[5, 1, 4, 2, 8, 3]);
    let before = layout(&heap);
    heap.peek_mut().unwrap().release();
    assert_eq!(layout(&heap), before);
}

#[test]
fn peek_mut_raising_the_root_keeps_it_first() {
    let mut heap = heap_from(&[1, 5, 2]);
    let mut guard = heap.peek_mut().unwrap();
    *guard.deref_mut() = 9;
    guard.release();
    assert_eq!(drain(&mut heap), vec![9, 2, 1]);
}

#[test]
fn peek_mut_pop_removes_the_root() {
    let mut heap = heap_from(&[1, 5, 2]);
    let guard = heap.peek_mut().unwrap();
    assert_eq!(PeekMut::pop(guard), 5);
    assert_eq!(heap.len(), 2);
    assert_eq!(drain(&mut heap), vec![2, 1]);
}

#[test]
fn peek_mut_pop_after_change_returns_the_changed_root() {
    let mut heap = heap_from(&[1, 5, 2]);
    let mut guard = heap.peek_mut().unwrap();
    *guard.deref_mut() = 0;
    assert_eq!(PeekMut::pop(guard), 0);
    assert_eq!(drain(&mut heap), vec![2, 1]);
}

#[test]
fn iter_yields_by_heap_index() {
    let heap = heap_from(&[5, 1, 4, 2, 8, 3]);
    let mut it = heap.iter();
    assert_eq!(it.size_hint(), (6, Some(6)));
    assert_eq!(it.next(), Some(&8));
    assert_eq!(it.nth(1), Some(&4));
    assert_eq!(it.size_hint(), (3, Some(3)));
    assert_eq!(it.count(), 3);
}

#[test]
fn iter_mut_changes_elements_in_place() {
    let mut heap = heap_from(&[5, 1, 4]);
    {
        let mut it = heap.iter_mut();
        while let Some(v) = it.next() {
            *v += 10;
        }
    }
    assert_eq!(layout(&heap), vec![15, 11, 14]);
    assert_eq!(drain(&mut heap), vec![15, 14, 11]);
}
