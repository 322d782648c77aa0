use mv_consistency::sequence::next_value;
use std::collections::BTreeSet;

#[test]
fn value_is_id_plus_iteration_times_count() {
    assert_eq!(next_value(0, 0, 4), Some(0));
    assert_eq!(next_value(3, 0, 4), Some(3));
    assert_eq!(next_value(0, 1, 4), Some(4));
    assert_eq!(next_value(3, 2, 4), Some(11));
    assert_eq!(next_value(7, 5, 512), Some(2567));
    assert_eq!(next_value(511, 1000, 512), Some(512_511));
}

#[test]
fn single_worker_counts_up() {
    for k in 0..100u32 {
        assert_eq!(next_value(0, k, 1), Some(k as i32));
    }
}

#[test]
fn last_value_that_fits_a_key() {
    assert_eq!(next_value(0, i32::MAX as u32, 1), Some(i32::MAX));
    assert_eq!(next_value(1, 1_073_741_823, 2), Some(i32::MAX));
    assert_eq!(next_value(i32::MAX as u32, 0, u32::MAX), Some(i32::MAX));
}

#[test]
fn value_beyond_the_keys_is_none() {
    assert_eq!(next_value(0, i32::MAX as u32 + 1, 1), None);
    assert_eq!(next_value(0, 1_073_741_824, 2), None);
    assert_eq!(next_value(i32::MAX as u32 + 1, 0, u32::MAX), None);
    assert_eq!(next_value(u32::MAX, u32::MAX, u32::MAX), None);
}

#[test]
fn worker_count_zero_gives_the_id() {
    assert_eq!(next_value(5, 9, 0), Some(5));
}

#[test]
fn bounded_run_has_no_duplicates_and_no_gaps() {
    for n in 1..=9u32 {
        for k in 0..=7u32 {
            let mut all: Vec<i32> = Vec::new();
            for id in 0..n {
                for iteration in 0..k {
                    all.push(next_value(id, iteration, n).unwrap());
                }
            }
            let distinct: BTreeSet<i32> = all.iter().copied().collect();
            assert_eq!(distinct.len(), all.len());
            let expected: BTreeSet<i32> = (0..(n * k) as i32).collect();
            assert_eq!(distinct, expected);
        }
    }
}

#[test]
fn values_of_one_worker_increase() {
    let mut last = next_value(3, 0, 8).unwrap();
    for k in 1..50u32 {
        let v = next_value(3, k, 8).unwrap();
        assert!(v > last);
        assert_eq!(v - last, 8);
        last = v;
    }
}
