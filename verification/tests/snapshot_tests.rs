use mv_consistency::snapshot::{canonicalize, row_le, Row};

#[test]
fn empty_snapshot_stays_empty() {
    assert_eq!(canonicalize(Vec::new()), Vec::<Row>::new());
}

#[test]
fn single_row_stays() {
    assert_eq!(canonicalize(vec![(7, 7, 7)]), vec![(7, 7, 7)]);
}

#[test]
fn rows_are_sorted_by_partition_then_clustering_key() {
    let rows = vec![(2, 1, 0), (1, 9, 0), (2, 0, 0), (1, 3, 0), (-5, 4, 0)];
    assert_eq!(
        canonicalize(rows),
        vec![(-5, 4, 0), (1, 3, 0), (1, 9, 0), (2, 0, 0), (2, 1, 0)]
    );
}

#[test]
fn equal_keys_are_ordered_by_payload() {
    let rows = vec![(1, 1, 9), (1, 1, -3), (1, 1, 4)];
    assert_eq!(canonicalize(rows), vec![(1, 1, -3), (1, 1, 4), (1, 1, 9)]);
}

#[test]
fn repeated_rows_are_kept() {
    let rows = vec![(3, 3, 3), (1, 1, 1), (3, 3, 3), (1, 1, 1)];
    assert_eq!(canonicalize(rows), vec![(1, 1, 1), (1, 1, 1), (3, 3, 3), (3, 3, 3)]);
}

#[test]
fn extreme_keys_sort_correctly() {
    let rows = vec![(i32::MAX, 0, 0), (i32::MIN, 0, 0), (0, i32::MAX, 0), (0, i32::MIN, 0)];
    assert_eq!(
        canonicalize(rows),
        vec![(i32::MIN, 0, 0), (0, i32::MIN, 0), (0, i32::MAX, 0), (i32::MAX, 0, 0)]
    );
}

#[test]
fn arrival_order_does_not_matter() {
    let ascending: Vec<Row> = (0..200).map(|v| (v, v, v)).collect();
    let descending: Vec<Row> = (0..200).rev().map(|v| (v, v, v)).collect();
    let shuffled: Vec<Row> = (0..200).map(|i| (i * 37) % 200).map(|v| (v, v, v)).collect();
    let expected = ascending.clone();
    assert_eq!(canonicalize(ascending), expected);
    assert_eq!(canonicalize(descending), expected);
    assert_eq!(canonicalize(shuffled), expected);
}

#[test]
fn canonicalizing_twice_changes_nothing() {
    let rows = vec![(5, 1, 2), (4, 8, 1), (5, 0, 0), (4, 8, 0)];
    let once = canonicalize(rows);
    let twice = canonicalize(once.clone());
    assert_eq!(once, twice);
}

#[test]
fn agrees_with_the_order_of_tuples() {
    let mut rows: Vec<Row> = Vec::new();
    let mut x: i64 = 12345;
    for _ in 0..1000 {
        x = (x * 1103515245 + 12345) % 2147483648;
        let p = (x % 17) as i32 - 8;
        x = (x * 1103515245 + 12345) % 2147483648;
        let c = (x % 5) as i32 - 2;
        x = (x * 1103515245 + 12345) % 2147483648;
        let r = (x % 3) as i32;
        rows.push((p, c, r));
    }
    let mut expected = rows.clone();
    expected.sort();
    assert_eq!(canonicalize(rows), expected);
}

#[test]
fn large_snapshot_is_sorted() {
    let n: i32 = 100_000;
    let rows: Vec<Row> = (0..n).map(|i| ((i as i64 * 7919 % n as i64) as i32)).map(|v| (v, v, v)).collect();
    let sorted = canonicalize(rows);
    assert_eq!(sorted.len(), n as usize);
    for (i, row) in sorted.iter().enumerate() {
        assert_eq!(*row, (i as i32, i as i32, i as i32));
    }
}

#[test]
fn row_le_compares_field_by_field() {
    assert!(row_le(&(1, 9, 9), &(2, 0, 0)));
    assert!(!row_le(&(2, 0, 0), &(1, 9, 9)));
    assert!(row_le(&(1, 1, 9), &(1, 2, 0)));
    assert!(!row_le(&(1, 2, 0), &(1, 1, 9)));
    assert!(row_le(&(1, 1, 1), &(1, 1, 2)));
    assert!(!row_le(&(1, 1, 2), &(1, 1, 1)));
    assert!(row_le(&(1, 1, 1), &(1, 1, 1)));
}
