use std::cmp::Reverse;
use storage_heap::order::greater_or_equal;
use storage_heap::order::less_or_equal;

#[test]
fn less_or_equal_compares_present_elements() {
    assert!(less_or_equal(Some(&1u32), Some(&2)));
    assert!(less_or_equal(Some(&2u32), Some(&2)));
    assert!(!less_or_equal(Some(&3u32), Some(&2)));
}

#[test]
fn greater_or_equal_compares_present_elements() {
    assert!(!greater_or_equal(Some(&1u32), Some(&2)));
    assert!(greater_or_equal(Some(&2u32), Some(&2)));
    assert!(greater_or_equal(Some(&3u32), Some(&2)));
}

#[test]
fn absent_element_is_below_every_present_one() {
    assert!(less_or_equal(None, Some(&0u32)));
    assert!(less_or_equal::<u32>(None, None));
    assert!(!less_or_equal(Some(&0u32), None));
    assert!(greater_or_equal(Some(&0u32), None));
    assert!(greater_or_equal::<u32>(None, None));
    assert!(!greater_or_equal(None, Some(&0u32)));
}

#[test]
fn comparisons_follow_the_order_of_the_type() {
    assert!(less_or_equal(Some(&Reverse(5u32)), Some(&Reverse(1))));
    assert!(!greater_or_equal(Some(&Reverse(5u32)), Some(&Reverse(1))));
    assert!(less_or_equal(Some(&"apple"), Some(&"pear")));
}
