//! Aggregation tree behavior: leaf writes, ancestor consistency, and
//! multi-resolution level reads.

use media_core::aggregation_tree::AggregationTree;
use media_core::aggregation_tree::MaxU32;

fn max_tree(length: usize) -> AggregationTree<u32, MaxU32> {
    AggregationTree::new(length, 0u32)
}

#[test]
fn leaf_level_reflects_last_writes() {
    let mut t = max_tree(8);
    t.set(&[5, 3, 9, 1], 0);
    t.set(&[7, 2], 4);
    t.set(&[4], 1);
    let leaves = t.get_leaf_level();
    assert_eq!(leaves, vec![5, 4, 9, 1, 7, 2, 0, 0]);
    assert_eq!(t.at(0), 5);
    assert_eq!(t.at(1), 4);
    assert_eq!(t.at(5), 2);
    // level of resolution 1 is exactly the leaves
    assert_eq!(t.get_level(1), vec![5, 4, 9, 1, 7, 2, 0, 0]);
}

#[test]
fn levels_are_reductions_of_leaf_runs() {
    let mut t = max_tree(8);
    t.set(&[5, 3, 9, 1, 7, 2, 8, 6], 0);
    assert_eq!(t.get_level(2), vec![5, 9, 7, 8]);
    assert_eq!(t.get_level(4), vec![9, 8]);
    assert_eq!(t.get_level(8), vec![9]);
    // overwrite a leaf: every affected ancestor must update
    t.set(&[0], 2);
    assert_eq!(t.get_level(2), vec![5, 1, 7, 8]);
    assert_eq!(t.get_level(4), vec![5, 8]);
    assert_eq!(t.get_level(8), vec![8]);
}

#[test]
fn non_power_of_two_length() {
    let mut t = max_tree(6);
    t.set(&[1, 2, 3, 4, 5, 6], 0);
    assert_eq!(t.get_leaf_level(), vec![1, 2, 3, 4, 5, 6]);
    assert_eq!(t.get_level(1).len(), 6);
    assert_eq!(t.get_level(2), vec![2, 4, 6]);
    // 6 / 4 == 1 entry, covering the first four leaves
    assert_eq!(t.get_level(4), vec![4]);
}

#[test]
fn repeated_point_updates() {
    let mut t = max_tree(4);
    for i in 0..4usize {
        t.set(&[(i as u32) + 10], i);
    }
    assert_eq!(t.get_leaf_level(), vec![10, 11, 12, 13]);
    assert_eq!(t.get_level(4), vec![13]);
    t.set(&[1], 3);
    assert_eq!(t.get_level(4), vec![12]);
}

#[test]
fn float_bit_patterns_order_as_magnitudes() {
    // Non-negative finite single-precision values order the same as their
    // bit patterns, which is what the intensity tree relies on.
    let small = 0.25f32.to_bits();
    let mid = 0.5f32.to_bits();
    let big = 1.5f32.to_bits();
    assert!(small < mid && mid < big);
    let mut t = max_tree(2);
    t.set(&[small, big], 0);
    assert_eq!(t.get_level(2), vec![big]);
    t.set(&[mid], 1);
    assert_eq!(t.get_level(2), vec![mid]);
    assert_eq!(f32::from_bits(t.get_level(2)[0]), 0.5f32);
}
