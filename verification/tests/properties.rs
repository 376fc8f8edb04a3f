use sorted_search::binary_search;
use sorted_search::order::{compare, less, Relation};
use sorted_search::searching::{is_asc_arr, match_compare};

#[test]
fn empty_slice_holds_nothing() {
    let none: &[i64] = &[];
    for target in [i64::MIN, -1, 0, 1, i64::MAX] {
        assert_eq!(binary_search(&target, none), None);
    }
}

#[test]
fn single_element_found_only_when_equal() {
    let one = [7u8];
    assert_eq!(binary_search(&7, &one), Some(0));
    assert_eq!(binary_search(&6, &one), None);
    assert_eq!(binary_search(&8, &one), None);
}

#[test]
fn every_element_of_an_ascending_slice_is_found() {
    let arr = [-9, -9, -4, 0, 0, 0, 3, 8, 8, 21, 34, 34, 55];
    for i in 0..arr.len() {
        let j = binary_search(&arr[i], &arr).unwrap();
        assert_eq!(arr[j], arr[i]);
    }
}

#[test]
fn every_element_of_a_descending_slice_is_found() {
    let arr = [55, 34, 34, 21, 8, 8, 3, 0, 0, 0, -4, -9, -9];
    for i in 0..arr.len() {
        let j = binary_search(&arr[i], &arr).unwrap();
        assert_eq!(arr[j], arr[i]);
    }
}

#[test]
fn every_prefix_length_finds_each_element() {
    let full: Vec<u32> = (0..40).map(|k| 3 * k + 1).collect();
    for n in 0..=full.len() {
        let asc = &full[..n];
        let desc: Vec<u32> = asc.iter().rev().copied().collect();
        for i in 0..n {
            assert_eq!(binary_search(&asc[i], asc), Some(i));
            assert_eq!(binary_search(&desc[i], &desc), Some(i));
        }
    }
}

#[test]
fn targets_outside_the_range_are_absent() {
    let asc = [10, 20, 30, 40, 50];
    assert_eq!(binary_search(&9, &asc), None);
    assert_eq!(binary_search(&51, &asc), None);
    let desc = [50, 40, 30, 20, 10];
    assert_eq!(binary_search(&9, &desc), None);
    assert_eq!(binary_search(&51, &desc), None);
}

#[test]
fn targets_in_a_gap_are_absent() {
    let asc = [10, 20, 30, 40, 50];
    let desc = [50, 40, 30, 20, 10];
    for target in [11, 19, 25, 31, 39, 45, 49] {
        assert_eq!(binary_search(&target, &asc), None);
        assert_eq!(binary_search(&target, &desc), None);
    }
}

#[test]
fn duplicates_yield_an_equal_occurrence() {
    let numbers = [1, 2, 2, 2, 3, 4, 4, 5, 5, 5];
    for target in 1..=5 {
        let j = binary_search(&target, &numbers).unwrap();
        assert_eq!(numbers[j], target);
    }
    let found = binary_search(&5, &numbers).unwrap();
    assert!(found == 7 || found == 8 || found == 9);
}

#[test]
fn duplicates_in_a_descending_slice() {
    let numbers = [5, 5, 5, 4, 4, 3, 2, 2, 2, 1];
    assert_eq!(binary_search(&5, &numbers), Some(2));
    assert_eq!(binary_search(&2, &numbers), Some(8));
    assert_eq!(binary_search(&4, &numbers), Some(4));
}

#[test]
fn all_equal_slice_reads_as_descending() {
    let same = [3, 3, 3, 3];
    assert!(!is_asc_arr(&same));
    assert_eq!(binary_search(&3, &same), Some(2));
    assert_eq!(binary_search(&2, &same), None);
    assert_eq!(binary_search(&4, &same), None);
}

#[test]
fn direction_is_read_off_the_two_ends() {
    let none: &[i32] = &[];
    assert!(!is_asc_arr(none));
    assert!(!is_asc_arr(&[1]));
    assert!(is_asc_arr(&[1, 2]));
    assert!(!is_asc_arr(&[2, 1]));
    assert!(!is_asc_arr(&[2, 2]));
    assert!(is_asc_arr(&[1, 9, 0, 2]));
    assert!(!is_asc_arr(&[2, 0, 9, 1]));
    assert!(is_asc_arr(&["a", "b"]));
}

#[test]
fn probe_drops_the_upper_half_of_an_ascending_range() {
    let arr = [1, 3, 5, 7, 9, 11];
    let (mut left, mut right) = (0usize, 6usize);
    assert!(!match_compare(&5, &arr, &mut left, &mut right, true));
    assert_eq!((left, right), (0, 3));
}

#[test]
fn probe_drops_the_lower_half_of_an_ascending_range() {
    let arr = [1, 3, 5, 7, 9, 11];
    let (mut left, mut right) = (0usize, 6usize);
    assert!(!match_compare(&9, &arr, &mut left, &mut right, true));
    assert_eq!((left, right), (4, 6));
}

#[test]
fn probe_follows_the_direction_flag() {
    let arr = [11, 9, 7, 5, 3, 1];
    let (mut left, mut right) = (0usize, 6usize);
    assert!(!match_compare(&9, &arr, &mut left, &mut right, false));
    assert_eq!((left, right), (0, 3));
    let (mut left, mut right) = (0usize, 6usize);
    assert!(!match_compare(&3, &arr, &mut left, &mut right, false));
    assert_eq!((left, right), (4, 6));
}

#[test]
fn probe_reports_a_find_at_the_midpoint() {
    let arr = [1, 3, 5, 7, 9, 11];
    let (mut left, mut right) = (0usize, 6usize);
    assert!(match_compare(&7, &arr, &mut left, &mut right, true));
    assert_eq!((left, right), (3, 6));
    let (mut left, mut right) = (0usize, 6usize);
    assert!(match_compare(&7, &arr, &mut left, &mut right, false));
    assert_eq!((left, right), (3, 6));
}

#[test]
fn midpoint_rounds_down() {
    let arr = [1, 3, 5, 7, 9, 11];
    let (mut left, mut right) = (2usize, 5usize);
    assert!(match_compare(&7, &arr, &mut left, &mut right, true));
    assert_eq!(left, 3);
    let (mut left, mut right) = (2usize, 4usize);
    assert!(match_compare(&7, &arr, &mut left, &mut right, true));
    assert_eq!(left, 3);
    let (mut left, mut right) = (4usize, 5usize);
    assert!(match_compare(&9, &arr, &mut left, &mut right, true));
    assert_eq!((left, right), (4, 5));
    let (mut left, mut right) = (4usize, 5usize);
    assert!(!match_compare(&10, &arr, &mut left, &mut right, true));
    assert_eq!((left, right), (5, 5));
}

#[test]
fn compare_tells_the_three_relations_apart() {
    assert_eq!(compare(&1, &2), Relation::Below);
    assert_eq!(compare(&2, &2), Relation::Same);
    assert_eq!(compare(&3, &2), Relation::Above);
    assert_eq!(compare(&"google", &"zoo"), Relation::Below);
    assert_eq!(compare(&"zoo", &"google"), Relation::Above);
}

#[test]
fn less_is_strict() {
    assert!(less(&1, &2));
    assert!(!less(&2, &2));
    assert!(!less(&2, &1));
}

#[test]
fn scenario_ascending_strings() {
    let arr = ["a", "b", "c", "d", "google", "zoo"];
    assert_eq!(binary_search(&"google", &arr), Some(4));
}

#[test]
fn scenario_descending_numbers() {
    assert_eq!(binary_search(&3, &[4, 3, 2, 1]), Some(1));
}

#[test]
fn scenario_gap() {
    assert_eq!(binary_search(&4, &[1, 3, 8, 11]), None);
}

#[test]
fn works_on_vectors_of_owned_strings() {
    let words: Vec<String> = ["apple", "banana", "orange", "pear"].iter().map(|w| w.to_string()).collect();
    assert_eq!(binary_search(&"pear".to_string(), &words), Some(3));
    assert_eq!(binary_search(&"fig".to_string(), &words), None);
}
