//! The search itself.

use crate::laws::lemma_search;
use crate::model::{midpoint, monotone, narrow, present, probe, reads_ascending, search};
use crate::order::{compare, less, relation, total_order, Relation};
use vstd::prelude::*;

verus! {

/// Searches the sorted slice `arr` for an element equal to `item`.
///
/// The slice may be sorted ascending or descending, ties allowed; the direction
/// is read off its two ends. Returns the index of an element equal to `item`,
/// or `None` where there is none. Among several equal elements the index is
/// the one that halving the range, with the midpoint rounded down, reaches
/// first.
///
/// On a slice that is not sorted the result is still an index within the
/// slice, or `None`, and still the one that the probes lead to; that it finds
/// an element that is present is then not promised.
pub fn binary_search<T: Ord>(item: &T, arr: &[T]) -> (found: Option<usize>)
    ensures
        found matches Some(i) ==> i < arr@.len(),
        arr@.len() == 0 ==> found is None,
        total_order::<T>() ==> match found {
            Some(i) => search(arr@, *item) == Some(i as int),
            None => search(arr@, *item) is None,
        },
        total_order::<T>() ==> (found matches Some(i) ==> relation(*item, arr@[i as int])
            == Relation::Same),
        total_order::<T>() && monotone(arr@) ==> (found is Some <==> present(arr@, *item)),
{
    let is_asc = is_asc_arr(arr);

    let mut left: usize = 0;
    let mut right: usize = arr.len();

    while left < right
        invariant
            left <= right <= arr@.len(),
            total_order::<T>() ==> is_asc == reads_ascending(arr@),
            total_order::<T>() ==> narrow(arr@, *item, is_asc, left as int, right as int)
                == search(arr@, *item),
        decreases right - left,
    {
        if match_compare(item, arr, &mut left, &mut right, is_asc) {
            return Some(left);
        }
    }

    proof {
        if total_order::<T>() && monotone(arr@) {
            lemma_search(arr@, *item);
        }
    }
    None
}

/// Reads the direction off the two ends of the slice: `true` where it has at
/// least two elements and the first is strictly below the last.
pub fn is_asc_arr<T: Ord>(arr: &[T]) -> (asc: bool)
    ensures
        total_order::<T>() ==> asc == reads_ascending(arr@),
        arr@.len() <= 1 ==> !asc,
{
    arr.len() > 1 && less(&arr[0], &arr[arr.len() - 1])
}

/// Probes the middle of the range `[left, right)` and narrows the range.
///
/// Returns `true` where the element at the midpoint is equal to `item`, with
/// `left` set to that index. Otherwise it returns `false` and drops the half
/// of the range that cannot hold `item`, the midpoint included.
pub fn match_compare<T: Ord>(
    item: &T,
    arr: &[T],
    left: &mut usize,
    right: &mut usize,
    is_asc: bool,
) -> (found: bool)
    requires
        *old(left) < *old(right) <= arr@.len(),
    ensures
        exists|rel: Relation|
            (found, *final(left) as int, *final(right) as int) == #[trigger] probe(
                is_asc,
                rel,
                *old(left) as int,
                *old(right) as int,
            ),
        total_order::<T>() ==> (found, *final(left) as int, *final(right) as int) == probe(
            is_asc,
            relation(*item, arr@[midpoint(*old(left) as int, *old(right) as int)]),
            *old(left) as int,
            *old(right) as int,
        ),
{
    let mid: usize = *left + (*right - *left) / 2;
    let rel = compare(item, &arr[mid]);

    match (is_asc, rel) {
        (true, Relation::Below) | (false, Relation::Above) => {
            *right = mid;
        },
        (true, Relation::Above) | (false, Relation::Below) => {
            *left = mid + 1;
        },
        (_, Relation::Same) => {
            *left = mid;
            assert((true, mid as int, *right as int) == probe(
                is_asc,
                rel,
                *old(left) as int,
                *old(right) as int,
            ));
            return true;
        },
    }

    assert((false, *left as int, *right as int) == probe(
        is_asc,
        rel,
        *old(left) as int,
        *old(right) as int,
    ));
    false
}

} // verus!
