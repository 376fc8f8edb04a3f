//! The mathematical model of the search: what it means for a sequence to be
//! sorted, how one probe narrows the range, and which index the search yields.

use crate::order::{relation, Relation};
use vstd::prelude::*;

verus! {

/// No element of `s` is above a later one.
pub open spec fn ascending<T: Ord>(s: Seq<T>) -> bool {
    forall|i: int, j: int| 0 <= i <= j < s.len() ==> relation(s[i], s[j]) != Relation::Above
}

/// No element of `s` is below a later one.
pub open spec fn descending<T: Ord>(s: Seq<T>) -> bool {
    forall|i: int, j: int| 0 <= i <= j < s.len() ==> relation(s[i], s[j]) != Relation::Below
}

/// `s` is sorted one way or the other; ties are allowed.
pub open spec fn monotone<T: Ord>(s: Seq<T>) -> bool {
    ascending(s) || descending(s)
}

/// `s` is sorted in the direction that the flag names.
pub open spec fn sorted_as<T: Ord>(s: Seq<T>, asc: bool) -> bool {
    if asc {
        ascending(s)
    } else {
        descending(s)
    }
}

/// The direction read off the two ends of `s`: ascending exactly when `s` has
/// at least two elements and the first is strictly below the last.
pub open spec fn reads_ascending<T: Ord>(s: Seq<T>) -> bool {
    s.len() > 1 && relation(s[0], s[s.len() - 1]) == Relation::Below
}

/// Some element of `s` is equal to `item`.
pub open spec fn present<T: Ord>(s: Seq<T>, item: T) -> bool {
    exists|k: int| 0 <= k < s.len() && relation(item, s[k]) == Relation::Same
}

/// The index probed in the range `[left, right)`: its middle, rounded down.
pub open spec fn midpoint(left: int, right: int) -> int {
    left + (right - left) / 2
}

/// Whether a probe sends the search to the part of the range before the
/// midpoint, given how the target stands to the element there.
pub open spec fn goes_lower(asc: bool, rel: Relation) -> bool {
    (asc && rel == Relation::Below) || (!asc && rel == Relation::Above)
}

/// One probe of the range `[left, right)`, where the target stands to the
/// element at the midpoint as `rel` says. The result is whether the target was
/// found, and the bounds after the probe; on a find the left bound is the
/// index found.
pub open spec fn probe(asc: bool, rel: Relation, left: int, right: int) -> (bool, int, int) {
    let mid = midpoint(left, right);
    if rel == Relation::Same {
        (true, mid, right)
    } else if goes_lower(asc, rel) {
        (false, left, mid)
    } else {
        (false, mid + 1, right)
    }
}

/// The index that probing yields from the range `[left, right)` on.
pub open spec fn narrow<T: Ord>(s: Seq<T>, item: T, asc: bool, left: int, right: int) -> Option<int>
    decreases right - left,
{
    if 0 <= left < right <= s.len() {
        let next = probe(asc, relation(item, s[midpoint(left, right)]), left, right);
        if next.0 {
            Some(next.1)
        } else {
            narrow(s, item, asc, next.1, next.2)
        }
    } else {
        None
    }
}

/// The index that the search yields for `item` in `s`.
pub open spec fn search<T: Ord>(s: Seq<T>, item: T) -> Option<int> {
    narrow(s, item, reads_ascending(s), 0, s.len() as int)
}

} // verus!
