//! Snapshots: the rows of one table or view as read at one time from one
//! source, brought into canonical order.
//!
//! The canonical order is ascending by partition key, then clustering key,
//! then payload. It does not depend on the order in which the rows arrived,
//! so two reads of the same data give the same snapshot.

use vstd::prelude::*;
use vstd::relations::{sorted_by, total_ordering};
use vstd::seq_lib::{lemma_multiset_commutative, lemma_sorted_unique, to_multiset_build};

verus! {

/// One row: partition key `p`, clustering key `c`, payload `r`.
pub type Row = (i32, i32, i32);

/// `a` comes no later than `b`: ascending by `p`, then `c`, then `r`.
pub open spec fn row_leq(a: Row, b: Row) -> bool {
    a.0 < b.0 || (a.0 == b.0 && (a.1 < b.1 || (a.1 == b.1 && a.2 <= b.2)))
}

/// `a` comes no later than `b` by key alone: ascending by `p`, then `c`.
pub open spec fn key_leq(a: Row, b: Row) -> bool {
    a.0 < b.0 || (a.0 == b.0 && a.1 <= b.1)
}

/// The order of rows as a relation.
pub open spec fn row_order() -> spec_fn(Row, Row) -> bool {
    |a: Row, b: Row| row_leq(a, b)
}

/// The rows stand in canonical order.
pub open spec fn is_canonical(rows: Seq<Row>) -> bool {
    forall|i: int, j: int| 0 <= i < j < rows.len() ==> row_leq(#[trigger] rows[i], #[trigger] rows[j])
}

/// The rows in canonical order.
pub open spec fn canonical(rows: Seq<Row>) -> Seq<Row> {
    rows.sort_by(row_order())
}

/// The order of rows is total: any two rows compare, and only equal rows
/// compare both ways.
pub proof fn row_order_is_total()
    ensures
        total_ordering(row_order()),
{
    let leq = row_order();
    assert forall|a: Row, b: Row| #[trigger] leq(a, b) && #[trigger] leq(b, a) implies a == b by {
        assert(row_leq(a, b) && row_leq(b, a));
    }
    assert forall|a: Row, b: Row, c: Row| #[trigger] leq(a, b) && #[trigger] leq(b, c) implies leq(
        a,
        c,
    ) by {
        assert(row_leq(a, b) && row_leq(b, c));
    }
}

/// A sequence is canonical exactly if it is sorted by the order of rows.
pub proof fn canonical_means_sorted(rows: Seq<Row>)
    ensures
        is_canonical(rows) <==> sorted_by(rows, row_order()),
{
    let leq = row_order();
    if is_canonical(rows) {
        assert forall|i: int, j: int| 0 <= i < j < rows.len() implies #[trigger] leq(
            rows[i],
            rows[j],
        ) by {
            assert(row_leq(rows[i], rows[j]));
        }
    }
    if sorted_by(rows, leq) {
        assert forall|i: int, j: int| 0 <= i < j < rows.len() implies row_leq(
            #[trigger] rows[i],
            #[trigger] rows[j],
        ) by {
            assert(leq(rows[i], rows[j]));
        }
    }
}

/// What `canonical` gives: the same rows, each as often as before, in
/// canonical order, and therefore ascending by key.
pub proof fn canonical_is_sorted_permutation(rows: Seq<Row>)
    ensures
        is_canonical(canonical(rows)),
        canonical(rows).to_multiset() == rows.to_multiset(),
        canonical(rows).len() == rows.len(),
        forall|i: int, j: int|
            0 <= i < j < rows.len() ==> key_leq(
                #[trigger] canonical(rows)[i],
                #[trigger] canonical(rows)[j],
            ),
{
    broadcast use vstd::seq_lib::group_to_multiset_ensures;

    row_order_is_total();
    rows.lemma_sort_by_ensures(row_order());
    canonical_means_sorted(canonical(rows));
    assert(canonical(rows).to_multiset().len() == rows.to_multiset().len());
    assert forall|i: int, j: int| 0 <= i < j < rows.len() implies key_leq(
        #[trigger] canonical(rows)[i],
        #[trigger] canonical(rows)[j],
    ) by {
        assert(row_leq(canonical(rows)[i], canonical(rows)[j]));
    }
}

/// A canonical sequence is determined by the rows it holds: two canonical
/// sequences with the same rows, each as often, are equal.
pub proof fn canonical_order_is_unique(a: Seq<Row>, b: Seq<Row>)
    requires
        is_canonical(a),
        is_canonical(b),
        a.to_multiset() == b.to_multiset(),
    ensures
        a == b,
{
    row_order_is_total();
    canonical_means_sorted(a);
    canonical_means_sorted(b);
    lemma_sorted_unique(a, b, row_order());
}

/// Two reads that return the same rows, in whatever order, have the same
/// canonical snapshot.
pub proof fn canonical_ignores_arrival_order(first: Seq<Row>, second: Seq<Row>)
    requires
        first.to_multiset() == second.to_multiset(),
    ensures
        canonical(first) == canonical(second),
{
    canonical_is_sorted_permutation(first);
    canonical_is_sorted_permutation(second);
    canonical_order_is_unique(canonical(first), canonical(second));
}

/// Canonical rows stay as they are.
pub proof fn canonical_is_idempotent(rows: Seq<Row>)
    ensures
        canonical(canonical(rows)) == canonical(rows),
{
    canonical_is_sorted_permutation(rows);
    canonical_is_sorted_permutation(canonical(rows));
    canonical_order_is_unique(canonical(canonical(rows)), canonical(rows));
}

/// Compares two rows in the canonical order.
pub fn row_le(a: &Row, b: &Row) -> (le: bool)
    ensures
        le == row_leq(*a, *b),
{
    if a.0 != b.0 {
        a.0 < b.0
    } else if a.1 != b.1 {
        a.1 < b.1
    } else {
        a.2 <= b.2
    }
}

/// Merges two canonical runs into one.
fn merge_runs(left: &Vec<Row>, right: &Vec<Row>) -> (merged: Vec<Row>)
    requires
        is_canonical(left@),
        is_canonical(right@),
    ensures
        is_canonical(merged@),
        merged@.to_multiset() == left@.to_multiset().add(right@.to_multiset()),
{
    let mut merged: Vec<Row> = Vec::new();
    let mut i: usize = 0;
    let mut j: usize = 0;
    proof {
        assert(merged@ =~= left@.take(0) + right@.take(0));
    }
    while i < left.len() || j < right.len()
        invariant
            i <= left.len(),
            j <= right.len(),
            is_canonical(left@),
            is_canonical(right@),
            is_canonical(merged@),
            merged@.to_multiset() == (left@.take(i as int) + right@.take(j as int)).to_multiset(),
            forall|k: int|
                0 <= k < merged@.len() && i < left.len() ==> row_leq(
                    #[trigger] merged@[k],
                    left@[i as int],
                ),
            forall|k: int|
                0 <= k < merged@.len() && j < right.len() ==> row_leq(
                    #[trigger] merged@[k],
                    right@[j as int],
                ),
        decreases left.len() - i + right.len() - j,
    {
        let from_left: bool = if i >= left.len() {
            false
        } else if j >= right.len() {
            true
        } else {
            row_le(&left[i], &right[j])
        };
        let ghost before = merged@;
        if from_left {
            let row: Row = left[i];
            proof {
                let front = left@.take(i as int);
                let back = right@.take(j as int);
                assert(left@.take(i + 1) =~= front.push(row));
                to_multiset_build(front, row);
                to_multiset_build(before, row);
                lemma_multiset_commutative(front, back);
                lemma_multiset_commutative(front.push(row), back);
                assert(front.to_multiset().insert(row).add(back.to_multiset())
                    =~= front.to_multiset().add(back.to_multiset()).insert(row));
            }
            merged.push(row);
            i = i + 1;
            proof {
                assert forall|a: int, b: int| 0 <= a < b < merged@.len() implies row_leq(
                    #[trigger] merged@[a],
                    #[trigger] merged@[b],
                ) by {
                    if b < before.len() {
                        assert(merged@[a] == before[a] && merged@[b] == before[b]);
                    } else {
                        assert(merged@[a] == before[a]);
                    }
                }
                assert forall|k: int| 0 <= k < merged@.len() && i < left.len() implies row_leq(
                    #[trigger] merged@[k],
                    left@[i as int],
                ) by {
                    assert(row_leq(left@[i - 1], left@[i as int]));
                    if k < before.len() {
                        assert(merged@[k] == before[k]);
                    }
                }
                assert forall|k: int| 0 <= k < merged@.len() && j < right.len() implies row_leq(
                    #[trigger] merged@[k],
                    right@[j as int],
                ) by {
                    if k < before.len() {
                        assert(merged@[k] == before[k]);
                    }
                }
            }
        } else {
            let row: Row = right[j];
            proof {
                let front = left@.take(i as int);
                let back = right@.take(j as int);
                assert(right@.take(j + 1) =~= back.push(row));
                to_multiset_build(back, row);
                to_multiset_build(before, row);
                lemma_multiset_commutative(front, back);
                lemma_multiset_commutative(front, back.push(row));
                assert(front.to_multiset().add(back.to_multiset().insert(row))
                    =~= front.to_multiset().add(back.to_multiset()).insert(row));
            }
            merged.push(row);
            j = j + 1;
            proof {
                assert forall|a: int, b: int| 0 <= a < b < merged@.len() implies row_leq(
                    #[trigger] merged@[a],
                    #[trigger] merged@[b],
                ) by {
                    if b < before.len() {
                        assert(merged@[a] == before[a] && merged@[b] == before[b]);
                    } else {
                        assert(merged@[a] == before[a]);
                    }
                }
                assert forall|k: int| 0 <= k < merged@.len() && j < right.len() implies row_leq(
                    #[trigger] merged@[k],
                    right@[j as int],
                ) by {
                    assert(row_leq(right@[j - 1], right@[j as int]));
                    if k < before.len() {
                        assert(merged@[k] == before[k]);
                    }
                }
                assert forall|k: int| 0 <= k < merged@.len() && i < left.len() implies row_leq(
                    #[trigger] merged@[k],
                    left@[i as int],
                ) by {
                    if k < before.len() {
                        assert(merged@[k] == before[k]);
                    }
                }
            }
        }
    }
    proof {
        assert(left@.take(i as int) =~= left@);
        assert(right@.take(j as int) =~= right@);
        lemma_multiset_commutative(left@, right@);
    }
    merged
}

/// Sorts the rows at positions `lo..hi` into a run of their own.
fn sort_range(rows: &Vec<Row>, lo: usize, hi: usize) -> (run: Vec<Row>)
    requires
        lo <= hi <= rows.len(),
    ensures
        is_canonical(run@),
        run@.to_multiset() == rows@.subrange(lo as int, hi as int).to_multiset(),
    decreases hi - lo,
{
    let mut run: Vec<Row> = Vec::new();
    if hi - lo == 0 {
        proof {
            assert(rows@.subrange(lo as int, hi as int) =~= run@);
        }
        run
    } else if hi - lo == 1 {
        run.push(rows[lo]);
        proof {
            assert(rows@.subrange(lo as int, hi as int) =~= run@);
        }
        run
    } else {
        let mid: usize = lo + (hi - lo) / 2;
        let left = sort_range(rows, lo, mid);
        let right = sort_range(rows, mid, hi);
        proof {
            let front = rows@.subrange(lo as int, mid as int);
            let back = rows@.subrange(mid as int, hi as int);
            assert(rows@.subrange(lo as int, hi as int) =~= front + back);
            lemma_multiset_commutative(front, back);
        }
        merge_runs(&left, &right)
    }
}

/// Brings the rows of one read into canonical order.
pub fn canonicalize(rows: Vec<Row>) -> (snapshot: Vec<Row>)
    ensures
        snapshot@ == canonical(rows@),
        is_canonical(snapshot@),
        snapshot@.to_multiset() == rows@.to_multiset(),
{
    let snapshot = sort_range(&rows, 0, rows.len());
    proof {
        assert(rows@.subrange(0, rows.len() as int) =~= rows@);
        canonical_is_sorted_permutation(rows@);
        canonical_order_is_unique(snapshot@, canonical(rows@));
    }
    snapshot
}

} // verus!
