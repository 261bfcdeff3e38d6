use storage_heap::BinaryHeap;
use storage_heap::ChildrenVector;

fn vector_from(values: &[u32]) -> ChildrenVector<u32> {
    let mut v = ChildrenVector::new();
    for x in values {
        v.push(*x);
    }
    v
}

#[test]
fn iter_walks_all_elements() {
    let v = vector_from(&[1, 2, 3]);
    let mut it = v.iter();
    assert_eq!(it.next(), Some(&1));
    assert_eq!(it.next(), Some(&2));
    assert_eq!(it.next(), Some(&3));
    assert_eq!(it.next(), None);
    assert_eq!(it.next(), None);
}

#[test]
fn iter_over_empty_vector_yields_nothing() {
    let v: ChildrenVector<u32> = ChildrenVector::new();
    let mut it = v.iter();
    assert_eq!(it.size_hint(), (0, Some(0)));
    assert_eq!(it.next(), None);
    assert_eq!(it.nth(0), None);
    assert_eq!(it.count(), 0);
}

#[test]
fn iter_nth_skips_forward() {
    let v = vector_from(&[10, 11, 12, 13, 14, 15]);
    let mut it = v.iter();
    assert_eq!(it.nth(2), Some(&12));
    assert_eq!(it.size_hint(), (3, Some(3)));
    assert_eq!(it.nth(0), Some(&13));
    assert_eq!(it.nth(1), Some(&15));
    assert_eq!(it.nth(0), None);
    assert_eq!(it.count(), 0);
}

#[test]
fn iter_nth_beyond_the_end_skips_nothing() {
    let v = vector_from(&[10, 11, 12]);
    let mut it = v.iter();
    assert_eq!(it.nth(3), None);
    assert_eq!(it.nth(usize::MAX), None);
    assert_eq!(it.size_hint(), (3, Some(3)));
    assert_eq!(it.next(), Some(&10));
    assert_eq!(it.nth(2), None);
    assert_eq!(it.nth(1), Some(&12));
}

#[test]
fn iter_count_is_what_is_left() {
    let v = vector_from(&[1, 2, 3, 4, 5]);
    let mut it = v.iter();
    assert_eq!(it.count(), 5);
    it.next();
    it.next();
    assert_eq!(it.count(), 3);
    assert_eq!(it.size_hint(), (3, Some(3)));
}

#[test]
fn iter_copy_goes_its_own_way() {
    let v = vector_from(&[1, 2, 3]);
    let mut it = v.iter();
    assert_eq!(it.next(), Some(&1));
    let mut other = it;
    let mut cloned = it.clone();
    assert_eq!(other.next(), Some(&2));
    assert_eq!(other.next(), Some(&3));
    assert_eq!(it.next(), Some(&2));
    assert_eq!(cloned.nth(1), Some(&3));
}

#[test]
fn iter_length_is_fixed_when_it_is_made() {
    let mut heap = BinaryHeap::new();
    heap.push(3u32);
    heap.push(1);
    let seen = heap.iter().count();
    assert_eq!(seen, 2);
    heap.push(2);
    heap.push(7);
    assert_eq!(seen, 2);
    assert_eq!(heap.iter().count(), 4);
    let it = heap.iter();
    let before = it.size_hint();
    let mut walked = it;
    walked.next();
    assert_eq!(before, (4, Some(4)));
    assert_eq!(it.size_hint(), (4, Some(4)));
    assert_eq!(walked.size_hint(), (3, Some(3)));
}

#[test]
fn iter_mut_walks_all_elements() {
    let mut v = vector_from(&[1, 2, 3]);
    let mut it = v.iter_mut();
    assert_eq!(it.size_hint(), (3, Some(3)));
    assert_eq!(it.next(), Some(&mut 1));
    assert_eq!(it.next(), Some(&mut 2));
    assert_eq!(it.size_hint(), (1, Some(1)));
    assert_eq!(it.next(), Some(&mut 3));
    assert_eq!(it.next(), None);
    assert_eq!(it.count(), 0);
}

#[test]
fn iter_mut_writes_reach_the_elements() {
    let mut v = vector_from(&[1, 2, 3, 4, 5]);
    {
        let mut it = v.iter_mut();
        let mut i = 0;
        while let Some(x) = it.next() {
            *x = *x * 10 + i;
            i += 1;
        }
        assert_eq!(i, 5);
    }
    let got: Vec<u32> = (0..5).map(|i| *v.get(i).unwrap()).collect();
    assert_eq!(got, vec![10, 21, 32, 43, 54]);
    assert_eq!(v.len(), 5);
    assert_eq!(v.children_count(), 3);
}

#[test]
fn iter_mut_nth_skips_forward() {
    let mut v = vector_from(&[10, 11, 12, 13, 14]);
    {
        let mut it = v.iter_mut();
        *it.nth(1).unwrap() = 0;
        assert_eq!(it.size_hint(), (3, Some(3)));
        *it.nth(2).unwrap() = 1;
        assert!(it.nth(0).is_none());
    }
    let got: Vec<u32> = (0..5).map(|i| *v.get(i).unwrap()).collect();
    assert_eq!(got, vec![10, 0, 12, 13, 1]);
}

#[test]
fn iter_mut_nth_beyond_the_end_skips_nothing() {
    let mut v = vector_from(&[10, 11]);
    let mut it = v.iter_mut();
    assert!(it.nth(2).is_none());
    assert!(it.nth(usize::MAX).is_none());
    assert_eq!(it.size_hint(), (2, Some(2)));
    assert_eq!(it.next(), Some(&mut 10));
    assert_eq!(it.count(), 1);
}

#[test]
fn iter_mut_yields_each_slot_once() {
    let mut v = vector_from(&[0, 0, 0, 0, 0, 0, 0]);
    {
        let mut it = v.iter_mut();
        while let Some(x) = it.next() {
            *x += 1;
        }
    }
    for i in 0..7 {
        assert_eq!(v.get(i), Some(&1));
    }
    {
        let mut it = v.iter_mut();
        while let Some(x) = it.nth(1) {
            *x += 1;
        }
    }
    let got: Vec<u32> = (0..7).map(|i| *v.get(i).unwrap()).collect();
    assert_eq!(got, vec![1, 2, 1, 2, 1, 2, 1]);
}
