//! What holds of the search on a sorted sequence.

use crate::model::{
    ascending, descending, midpoint, monotone, narrow, present, probe, reads_ascending, search,
    sorted_as,
};
use crate::order::{lemma_chain, lemma_mirror, lemma_reflexive, relation, total_order, Relation};
use vstd::prelude::*;

verus! {

/// On a sequence sorted either way, the direction read off its two ends is
/// one in which it is sorted. A sequence whose ends are equal reads as
/// descending, and is sorted both ways.
pub proof fn lemma_direction<T: Ord>(s: Seq<T>)
    requires
        total_order::<T>(),
        monotone(s),
    ensures
        sorted_as(s, reads_ascending(s)),
{
    let asc = reads_ascending(s);
    if asc && !ascending(s) {
        // A descending sequence does not start below its end.
        assert(relation(s[0], s[s.len() - 1]) != Relation::Below);
    }
    if !asc && !descending(s) {
        assert forall|i: int, j: int| 0 <= i <= j < s.len() implies relation(s[i], s[j])
            != Relation::Below by {
            let first = s[0];
            let last = s[s.len() - 1];
            if i == j {
                lemma_reflexive(s[i]);
            } else {
                // first <= s[i] <= s[j] <= last, and first is not below last.
                assert(relation(first, s[i]) != Relation::Above);
                assert(relation(s[i], s[j]) != Relation::Above);
                assert(relation(s[j], last) != Relation::Above);
                assert(relation(first, last) != Relation::Above);
                lemma_chain(first, s[j], last);
                lemma_chain(first, s[i], s[j]);
            }
        }
    }
}

/// Probing a range of a sorted sequence yields an index in the range at which
/// an element equal to the target stands, or nothing where the range holds no
/// such element.
pub proof fn lemma_narrow<T: Ord>(s: Seq<T>, item: T, asc: bool, left: int, right: int)
    requires
        total_order::<T>(),
        sorted_as(s, asc),
        0 <= left <= right <= s.len(),
    ensures
        match narrow(s, item, asc, left, right) {
            Some(j) => left <= j < right && relation(item, s[j]) == Relation::Same,
            None => forall|k: int| left <= k < right ==> relation(item, s[k]) != Relation::Same,
        },
    decreases right - left,
{
    if left < right {
        let mid = midpoint(left, right);
        let rel = relation(item, s[mid]);
        let next = probe(asc, rel, left, right);
        if !next.0 {
            lemma_narrow(s, item, asc, next.1, next.2);
            if narrow(s, item, asc, left, right) is None {
                assert forall|k: int| left <= k < right implies relation(item, s[k])
                    != Relation::Same by {
                    lemma_mirror(item, s[mid]);
                    lemma_mirror(item, s[k]);
                    if k <= mid {
                        lemma_mirror(s[k], s[mid]);
                        assert(sorted_as(s, asc));
                        if asc {
                            assert(relation(s[k], s[mid]) != Relation::Above);
                            if rel == Relation::Above {
                                // s[k] <= s[mid] < item
                                lemma_chain(s[k], s[mid], item);
                            }
                        } else {
                            assert(relation(s[k], s[mid]) != Relation::Below);
                            if rel == Relation::Below {
                                // item < s[mid] <= s[k]
                                lemma_chain(item, s[mid], s[k]);
                            }
                        }
                    }
                    if k >= mid {
                        lemma_mirror(s[mid], s[k]);
                        if asc {
                            assert(relation(s[mid], s[k]) != Relation::Above);
                            if rel == Relation::Below {
                                // item < s[mid] <= s[k]
                                lemma_chain(item, s[mid], s[k]);
                            }
                        } else {
                            assert(relation(s[mid], s[k]) != Relation::Below);
                            if rel == Relation::Above {
                                // s[k] <= s[mid] < item
                                lemma_chain(s[k], s[mid], item);
                            }
                        }
                    }
                }
            }
        }
    }
}

/// On a sorted sequence the search yields an index exactly where an element
/// equal to the target is present, and the element at that index is equal to
/// the target.
pub proof fn lemma_search<T: Ord>(s: Seq<T>, item: T)
    requires
        total_order::<T>(),
        monotone(s),
    ensures
        search(s, item) is Some <==> present(s, item),
        search(s, item) matches Some(j) ==> 0 <= j < s.len() && relation(item, s[j])
            == Relation::Same,
{
    lemma_direction(s);
    lemma_narrow(s, item, reads_ascending(s), 0, s.len() as int);
}

/// Whatever the sequence holds, sorted or not, with or without duplicates, an
/// index that probing yields lies in the range probed, and the element there
/// is equal to the target.
pub proof fn lemma_narrow_hit<T: Ord>(s: Seq<T>, item: T, asc: bool, left: int, right: int)
    ensures
        narrow(s, item, asc, left, right) matches Some(j) ==> 0 <= left <= j < right <= s.len()
            && relation(item, s[j]) == Relation::Same,
    decreases right - left,
{
    if 0 <= left < right <= s.len() {
        let next = probe(asc, relation(item, s[midpoint(left, right)]), left, right);
        if !next.0 {
            lemma_narrow_hit(s, item, asc, next.1, next.2);
        }
    }
}

/// Whatever the sequence holds, sorted or not, with or without duplicates, an
/// index that the search yields is an index of the sequence, and the element
/// there is equal to the target.
pub proof fn lemma_found_is_equal<T: Ord>(s: Seq<T>, item: T)
    ensures
        search(s, item) matches Some(j) ==> 0 <= j < s.len() && relation(item, s[j])
            == Relation::Same,
{
    lemma_narrow_hit(s, item, reads_ascending(s), 0, s.len() as int);
}

/// In the empty sequence nothing is found, whatever the target.
pub proof fn lemma_empty<T: Ord>(s: Seq<T>, item: T)
    requires
        s.len() == 0,
    ensures
        search(s, item) is None,
{
}

/// In a sequence of one element the search yields index 0 where that element
/// is equal to the target, and nothing otherwise.
pub proof fn lemma_single<T: Ord>(s: Seq<T>, item: T)
    requires
        s.len() == 1,
    ensures
        search(s, item) == if relation(item, s[0]) == Relation::Same {
            Some(0int)
        } else {
            None
        },
{
    reveal_with_fuel(narrow, 2);
}

/// In a sequence sorted ascending or descending, the search for the element
/// at any index yields an index, and the element there is equal to the one
/// searched for.
pub proof fn lemma_finds_each_element<T: Ord>(s: Seq<T>, i: int)
    requires
        total_order::<T>(),
        monotone(s),
        0 <= i < s.len(),
    ensures
        search(s, s[i]) matches Some(j) && 0 <= j < s.len() && relation(s[i], s[j])
            == Relation::Same,
{
    lemma_reflexive(s[i]);
    lemma_search(s, s[i]);
}

/// A target strictly below the smallest element of a sorted sequence, which
/// is the first of an ascending and the last of a descending one, is not
/// found.
pub proof fn lemma_below_minimum<T: Ord>(s: Seq<T>, item: T)
    requires
        total_order::<T>(),
        s.len() > 0,
        (ascending(s) && relation(item, s[0]) == Relation::Below) || (descending(s) && relation(
            item,
            s[s.len() - 1],
        ) == Relation::Below),
    ensures
        search(s, item) is None,
{
    lemma_search(s, item);
    if present(s, item) {
        let k = choose|k: int| 0 <= k < s.len() && relation(item, s[k]) == Relation::Same;
        if ascending(s) && relation(item, s[0]) == Relation::Below {
            assert(relation(s[0], s[k]) != Relation::Above);
            lemma_chain(item, s[0], s[k]);
        } else {
            let last = s[s.len() - 1];
            assert(relation(s[k], s[s.len() - 1]) != Relation::Below);
            lemma_mirror(s[k], last);
            lemma_chain(item, last, s[k]);
        }
    }
}

/// A target strictly above the greatest element of a sorted sequence, which
/// is the last of an ascending and the first of a descending one, is not
/// found.
pub proof fn lemma_above_maximum<T: Ord>(s: Seq<T>, item: T)
    requires
        total_order::<T>(),
        s.len() > 0,
        (ascending(s) && relation(item, s[s.len() - 1]) == Relation::Above) || (descending(s)
            && relation(item, s[0]) == Relation::Above),
    ensures
        search(s, item) is None,
{
    lemma_search(s, item);
    if present(s, item) {
        let k = choose|k: int| 0 <= k < s.len() && relation(item, s[k]) == Relation::Same;
        if ascending(s) && relation(item, s[s.len() - 1]) == Relation::Above {
            let last = s[s.len() - 1];
            assert(relation(s[k], s[s.len() - 1]) != Relation::Above);
            lemma_mirror(item, last);
            lemma_mirror(item, s[k]);
            lemma_chain(s[k], last, item);
        } else {
            assert(relation(s[0], s[k]) != Relation::Below);
            lemma_mirror(s[0], s[k]);
            lemma_mirror(item, s[0]);
            lemma_mirror(item, s[k]);
            lemma_chain(s[k], s[0], item);
        }
    }
}

/// A target that falls strictly between two neighbouring elements of a sorted
/// sequence is not found.
pub proof fn lemma_gap<T: Ord>(s: Seq<T>, item: T, k: int)
    requires
        total_order::<T>(),
        monotone(s),
        0 <= k,
        k + 1 < s.len(),
        (relation(item, s[k]) == Relation::Above && relation(item, s[k + 1]) == Relation::Below)
            || (relation(item, s[k]) == Relation::Below && relation(item, s[k + 1])
            == Relation::Above),
    ensures
        search(s, item) is None,
{
    lemma_search(s, item);
    if present(s, item) {
        let h = choose|h: int| 0 <= h < s.len() && relation(item, s[h]) == Relation::Same;
        let lo = s[k];
        let hi = s[k + 1];
        lemma_mirror(item, s[h]);
        lemma_mirror(item, lo);
        lemma_mirror(item, hi);
        if h <= k {
            lemma_mirror(s[h], s[k]);
            if ascending(s) {
                // s[h] <= s[k] < item, or item < s[k] <= s[k + 1] < item
                assert(relation(s[h], s[k]) != Relation::Above);
                assert(relation(s[k], s[k + 1]) != Relation::Above);
                if relation(item, lo) == Relation::Above {
                    lemma_chain(s[h], lo, item);
                } else {
                    lemma_chain(item, lo, hi);
                }
            } else {
                assert(relation(s[h], s[k]) != Relation::Below);
                assert(relation(s[k], s[k + 1]) != Relation::Below);
                lemma_mirror(lo, hi);
                if relation(item, lo) == Relation::Below {
                    lemma_chain(item, lo, s[h]);
                } else {
                    lemma_chain(hi, lo, item);
                    lemma_mirror(hi, item);
                }
            }
        } else {
            lemma_mirror(s[k + 1], s[h]);
            if ascending(s) {
                assert(relation(s[k + 1], s[h]) != Relation::Above);
                assert(relation(s[k], s[k + 1]) != Relation::Above);
                if relation(item, hi) == Relation::Below {
                    lemma_chain(item, hi, s[h]);
                } else {
                    lemma_chain(item, lo, hi);
                }
            } else {
                assert(relation(s[k + 1], s[h]) != Relation::Below);
                assert(relation(s[k], s[k + 1]) != Relation::Below);
                lemma_mirror(lo, hi);
                if relation(item, hi) == Relation::Above {
                    lemma_chain(s[h], hi, item);
                } else {
                    lemma_chain(hi, lo, item);
                    lemma_mirror(hi, item);
                }
            }
        }
    }
}

} // verus!
