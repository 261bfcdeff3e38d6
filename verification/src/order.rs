//! The order on heap elements.
//!
//! The heap is generic over any `T: Ord`. Everything it promises about the
//! order of its elements is stated over [`le`] and holds for element types
//! whose comparisons form a [`total_order`].

use vstd::laws_cmp::obeys_cmp;
use vstd::laws_cmp::obeys_cmp_ord;
use vstd::laws_cmp::obeys_cmp_partial_ord;
use vstd::laws_cmp::obeys_partial_cmp_spec_properties;
use vstd::laws_eq::obeys_eq_spec_properties;
use vstd::prelude::*;
use vstd::std_specs::cmp::PartialOrdIs;

verus! {

/// The comparison operators of `T` compute a total order: they are
/// deterministic, any two values are comparable, and the usual laws hold.
pub open spec fn total_order<T: Ord>() -> bool {
    obeys_cmp::<T>()
}

/// `a <= b` in the order of `T`.
pub open spec fn le<T: Ord>(a: T, b: T) -> bool {
    a.is_le(&b)
}

/// Any value is below or equal to itself.
pub proof fn lemma_le_reflexive<T: Ord>(a: T)
    requires
        total_order::<T>(),
    ensures
        le(a, a),
{
    reveal(obeys_cmp_ord);
    reveal(obeys_partial_cmp_spec_properties);
}

/// Any two values are comparable.
pub proof fn lemma_le_total<T: Ord>(a: T, b: T)
    requires
        total_order::<T>(),
    ensures
        le(a, b) || le(b, a),
{
    reveal(obeys_cmp_ord);
    reveal(obeys_partial_cmp_spec_properties);
}

/// The order is transitive.
pub proof fn lemma_le_transitive<T: Ord>(a: T, b: T, c: T)
    requires
        total_order::<T>(),
        le(a, b),
        le(b, c),
    ensures
        le(a, c),
{
    reveal(obeys_cmp_ord);
    reveal(obeys_cmp_partial_ord);
    reveal(obeys_partial_cmp_spec_properties);
    reveal(obeys_eq_spec_properties);
}

/// `a >= b` says the same as `b <= a`.
pub proof fn lemma_ge_is_flipped_le<T: Ord>(a: T, b: T)
    requires
        total_order::<T>(),
    ensures
        a.is_ge(&b) == le(b, a),
{
    reveal(obeys_cmp_ord);
    reveal(obeys_cmp_partial_ord);
    reveal(obeys_partial_cmp_spec_properties);
    reveal(obeys_eq_spec_properties);
}

/// The built-in integer types are totally ordered.
pub proof fn lemma_integers_totally_ordered()
    ensures
        total_order::<u8>(),
        total_order::<u16>(),
        total_order::<u32>(),
        total_order::<u64>(),
        total_order::<u128>(),
        total_order::<usize>(),
        total_order::<i8>(),
        total_order::<i16>(),
        total_order::<i32>(),
        total_order::<i64>(),
        total_order::<i128>(),
        total_order::<isize>(),
{
    broadcast use vstd::laws_cmp::group_laws_cmp;

}

/// `a <= b` for two elements that may be absent: an absent one is below
/// every present one.
pub open spec fn option_le<T: Ord>(a: Option<&T>, b: Option<&T>) -> bool {
    match (a, b) {
        (None, _) => true,
        (Some(_), None) => false,
        (Some(x), Some(y)) => le(*x, *y),
    }
}

/// Tests `a <= b`.
pub fn less_or_equal<T: Ord>(a: Option<&T>, b: Option<&T>) -> (r: bool)
    ensures
        total_order::<T>() ==> r == option_le(a, b),
{
    proof {
        reveal(obeys_cmp_partial_ord);
    }
    a <= b
}

/// Tests `a >= b`.
pub fn greater_or_equal<T: Ord>(a: Option<&T>, b: Option<&T>) -> (r: bool)
    ensures
        total_order::<T>() ==> r == option_le(b, a),
{
    proof {
        reveal(obeys_cmp_partial_ord);
        if total_order::<T>() && a is Some && b is Some {
            lemma_ge_is_flipped_le(*a->0, *b->0);
        }
    }
    a >= b
}

} // verus!
