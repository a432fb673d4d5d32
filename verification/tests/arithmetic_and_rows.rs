use vulkan_distributed::arithmetic::{
    greatest_common_divisor, is_power_of_two, least_common_multiple, narrow,
};
use vulkan_distributed::ordered::{OrderedMap, OrderedSet};
use vulkan_distributed::row_distribution::distribute_rows;

#[test]
fn divisors_and_multiples_have_their_values() {
    assert_eq!(greatest_common_divisor(12, 18), 6);
    assert_eq!(greatest_common_divisor(0, 7), 7);
    assert_eq!(greatest_common_divisor(7, 0), 7);
    assert_eq!(least_common_multiple(4, 6), Some(12));
    assert_eq!(least_common_multiple(0, 6), Some(0));
    assert_eq!(least_common_multiple(usize::MAX, usize::MAX - 1), None);
}

#[test]
fn powers_of_two_are_told_apart() {
    assert!(is_power_of_two(1));
    assert!(is_power_of_two(4096));
    assert!(!is_power_of_two(0));
    assert!(!is_power_of_two(12));
    assert_eq!(narrow(9), Some(9));
}

#[test]
fn rows_are_dealt_out_in_aligned_blocks() {
    assert_eq!(distribute_rows(64, 2, 4, 8), Ok(vec![(0, 32), (32, 32)]));
    assert_eq!(
        distribute_rows(64, 3, 4, 8),
        Ok(vec![(0, 24), (24, 24), (48, 16)])
    );
    assert_eq!(distribute_rows(8, 4, 4, 8), Ok(vec![(0, 8)]));
    assert_eq!(distribute_rows(7, 2, 1, 2), Ok(vec![(0, 4), (4, 3)]));
}

#[test]
fn rows_that_cannot_be_dealt_out_are_refused() {
    assert_eq!(
        distribute_rows(0, 2, 1, 1),
        Err("row distribution dimensions must not be zero".to_string())
    );
    assert_eq!(
        distribute_rows(10, 2, 4, 8),
        Err("row count 10 and shard boundary 8 are incompatible with workgroup width 4".to_string())
    );
}

#[test]
fn maps_keep_their_keys_in_order() {
    let mut map = OrderedMap::<String, usize>::new();
    assert!(map.is_empty());
    assert_eq!(map.insert("b".to_string(), 1), None);
    assert_eq!(map.insert("a".to_string(), 2), None);
    assert_eq!(map.insert("b".to_string(), 3), Some(1));
    assert_eq!(map.len(), 2);
    assert_eq!(map.to_keys(), vec!["a".to_string(), "b".to_string()]);
    assert_eq!(map.to_values(), vec![2, 3]);
    assert_eq!(map.get(&"b".to_string()), Some(&3));
    assert_eq!(map.get(&"c".to_string()), None);
}

#[test]
fn sets_hold_every_member_once_and_in_order() {
    let mut set = OrderedSet::from_values(&vec![5usize, 1, 5]);
    assert!(!set.insert(1));
    assert!(set.insert(3));
    set.unite(&OrderedSet::from_values(&vec![9, 3]));
    assert_eq!(set.to_vec(), vec![1, 3, 5, 9]);
    assert!(set.contains(&9));
    assert!(!set.contains(&2));
    assert_eq!(*set.member_at(1), 3);
}
