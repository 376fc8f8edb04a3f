//! The three-way relation between two values of a totally ordered type, and
//! the laws of a total order that the search relies on.

use core::cmp::Ordering;
use vstd::prelude::*;
use vstd::std_specs::cmp::{OrdSpec, PartialEqSpec, PartialOrdSpec};

verus! {

/// How one value stands to another under the type's order.
#[derive(Clone, Copy, Debug, PartialEq, Eq, Structural)]
pub enum Relation {
    /// The first value is strictly smaller.
    Below,
    /// The two values are equal.
    Same,
    /// The first value is strictly greater.
    Above,
}

/// Comparing two values of the type at run time gives what `cmp_spec` says,
/// `<` and `==` agree with it, and the order it describes is a total order.
/// vstd proves this of the integer types, and of references, options and
/// tuples of types that have it.
pub open spec fn total_order<T: Ord>() -> bool {
    vstd::laws_cmp::obeys_cmp::<T>()
}

/// How `a` stands to `b`.
pub open spec fn relation<T: Ord>(a: T, b: T) -> Relation {
    match a.cmp_spec(&b) {
        Ordering::Less => Relation::Below,
        Ordering::Equal => Relation::Same,
        Ordering::Greater => Relation::Above,
    }
}

/// Compares `a` with `b`.
pub fn compare<T: Ord>(a: &T, b: &T) -> (r: Relation)
    ensures
        total_order::<T>() ==> r == relation(*a, *b),
{
    proof {
        if total_order::<T>() {
            reveal(vstd::laws_cmp::obeys_cmp_ord);
        }
    }
    match a.cmp(b) {
        Ordering::Less => Relation::Below,
        Ordering::Equal => Relation::Same,
        Ordering::Greater => Relation::Above,
    }
}

/// Whether `a` is strictly smaller than `b`.
pub fn less<T: Ord>(a: &T, b: &T) -> (r: bool)
    ensures
        total_order::<T>() ==> r == (relation(*a, *b) == Relation::Below),
{
    proof {
        if total_order::<T>() {
            reveal(vstd::laws_cmp::obeys_cmp_ord);
            reveal(vstd::laws_cmp::obeys_cmp_partial_ord);
        }
    }
    *a < *b
}

/// Every value is equal to itself.
pub proof fn lemma_reflexive<T: Ord>(a: T)
    requires
        total_order::<T>(),
    ensures
        relation(a, a) == Relation::Same,
{
    lemma_mirror(a, a);
}

/// Swapping the two values swaps `Below` and `Above` and keeps `Same`.
pub proof fn lemma_mirror<T: Ord>(a: T, b: T)
    requires
        total_order::<T>(),
    ensures
        relation(a, b) == Relation::Below <==> relation(b, a) == Relation::Above,
        relation(a, b) == Relation::Same <==> relation(b, a) == Relation::Same,
        relation(a, b) == Relation::Above <==> relation(b, a) == Relation::Below,
{
    reveal(vstd::laws_cmp::obeys_cmp_ord);
    reveal(vstd::laws_cmp::obeys_cmp_partial_ord);
    reveal(vstd::laws_cmp::obeys_partial_cmp_spec_properties);
    reveal(vstd::laws_eq::obeys_eq_spec_properties);
    let ab = a.partial_cmp_spec(&b);
    let ba = b.partial_cmp_spec(&a);
    assert(ab == Some(a.cmp_spec(&b)));
    assert(ba == Some(b.cmp_spec(&a)));
    assert(a.eq_spec(&b) <==> b.eq_spec(&a));
}

/// "Not above" is transitive, and the two ends of a chain are equal only
/// where every link is an equality.
pub proof fn lemma_chain<T: Ord>(a: T, b: T, c: T)
    requires
        total_order::<T>(),
        relation(a, b) != Relation::Above,
        relation(b, c) != Relation::Above,
    ensures
        relation(a, c) != Relation::Above,
        relation(a, c) == Relation::Same ==> relation(a, b) == Relation::Same && relation(b, c)
            == Relation::Same,
{
    lemma_mirror(a, b);
    lemma_mirror(b, c);
    lemma_mirror(a, c);
    reveal(vstd::laws_cmp::obeys_cmp_ord);
    reveal(vstd::laws_cmp::obeys_cmp_partial_ord);
    reveal(vstd::laws_cmp::obeys_partial_cmp_spec_properties);
    reveal(vstd::laws_eq::obeys_eq_spec_properties);
    let ab = a.partial_cmp_spec(&b);
    let bc = b.partial_cmp_spec(&c);
    let ac = a.partial_cmp_spec(&c);
    let ba = b.partial_cmp_spec(&a);
    let cb = c.partial_cmp_spec(&b);
    let ca = c.partial_cmp_spec(&a);
    assert(ab == Some(a.cmp_spec(&b)));
    assert(bc == Some(b.cmp_spec(&c)));
    assert(ac == Some(a.cmp_spec(&c)));
    assert(ba == Some(b.cmp_spec(&a)));
    assert(cb == Some(c.cmp_spec(&b)));
    assert(ca == Some(c.cmp_spec(&a)));
}

} // verus!
