//! Disjoint interval set: merging, intersection and coverage queries.

use media_core::disjoint_interval_set::DisjointIntervalSet;

#[test]
fn overlapping_adds_merge_into_one() {
    let mut s = DisjointIntervalSet::new();
    s.add(0, 5);
    s.add(10, 15);
    s.add(4, 11);
    assert_eq!(s.intervals, vec![(0, 15)]);
    assert!(s.contains_range(6, 9));
    assert!(!s.contains_range(16, 20));
}

#[test]
fn touching_intervals_merge() {
    let mut s = DisjointIntervalSet::new();
    s.add(0, 5);
    s.add(5, 9);
    assert_eq!(s.intervals, vec![(0, 9)]);
}

#[test]
fn separated_intervals_stay_apart() {
    let mut s = DisjointIntervalSet::new();
    s.add(0, 5);
    s.add(7, 9);
    assert_eq!(s.intervals, vec![(0, 5), (7, 9)]);
    assert!(s.contains(3));
    assert!(!s.contains(6));
    assert!(s.contains(8));
}

#[test]
fn covers_needs_one_interval() {
    let mut s = DisjointIntervalSet::new();
    s.add(0, 5);
    s.add(7, 9);
    assert!(s.covers_range(1, 4));
    assert!(s.covers_range(0, 5));
    // every point of [4, 8] except 6 is covered, but no single interval
    // contains the range
    assert!(!s.covers_range(4, 8));
    assert!(!s.covers_range(5, 7));
}

#[test]
fn add_bridges_many_intervals() {
    let mut s = DisjointIntervalSet::new();
    s.add(0, 1);
    s.add(4, 5);
    s.add(8, 9);
    s.add(12, 13);
    s.add(1, 12);
    assert_eq!(s.intervals, vec![(0, 13)]);
}
