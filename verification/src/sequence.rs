//! The value sequence: the natural numbers dealt out to the workers in turn.
//!
//! With `n` workers, worker `id` owns `id, id + n, id + 2n, ...`. No two
//! workers own a common value, and together the first `k` values of every
//! worker are exactly the numbers below `n * k`.

use vstd::prelude::*;

verus! {

/// The value that worker `id` of `worker_count` writes in its `iteration`-th
/// round, counted from zero.
pub open spec fn value_at(id: int, iteration: int, worker_count: int) -> int {
    id + iteration * worker_count
}

/// The values written when each of `worker_count` workers has completed
/// `iterations` rounds.
pub open spec fn produced(worker_count: int, iterations: int) -> Set<int> {
    Set::new(
        |v: int|
            exists|id: int, iteration: int|
                0 <= id < worker_count && 0 <= iteration < iterations && #[trigger] value_at(
                    id,
                    iteration,
                    worker_count,
                ) == v,
    )
}

/// Computes the value of one round, as the 32-bit key the table stores.
/// `None` when the round lies beyond the last value a key can hold.
pub fn next_value(id: u32, iteration: u32, worker_count: u32) -> (value: Option<i32>)
    ensures
        value_at(id as int, iteration as int, worker_count as int) <= i32::MAX ==> value == Some(
            value_at(id as int, iteration as int, worker_count as int) as i32,
        ),
        value_at(id as int, iteration as int, worker_count as int) > i32::MAX ==> value.is_none(),
{
    let id_wide: u64 = id as u64;
    let iteration_wide: u64 = iteration as u64;
    let count_wide: u64 = worker_count as u64;
    assert(iteration_wide * count_wide <= 0xFFFF_FFFF * 0xFFFF_FFFF) by (nonlinear_arith)
        requires
            iteration_wide <= 0xFFFF_FFFF,
            count_wide <= 0xFFFF_FFFF,
    ;
    let wide: u64 = id_wide + iteration_wide * count_wide;
    if wide <= 0x7FFF_FFFF {
        Some(wide as i32)
    } else {
        None
    }
}

/// No value is owned twice: two rounds with the same value are the same
/// round of the same worker.
pub proof fn values_are_distinct(
    id_a: int,
    iteration_a: int,
    id_b: int,
    iteration_b: int,
    worker_count: int,
)
    requires
        0 <= id_a < worker_count,
        0 <= id_b < worker_count,
        0 <= iteration_a,
        0 <= iteration_b,
        value_at(id_a, iteration_a, worker_count) == value_at(id_b, iteration_b, worker_count),
    ensures
        id_a == id_b,
        iteration_a == iteration_b,
{
    if iteration_a < iteration_b {
        assert((iteration_b - iteration_a) * worker_count >= worker_count) by (nonlinear_arith)
            requires
                iteration_b - iteration_a >= 1,
                worker_count >= 1,
        ;
        assert(iteration_b * worker_count - iteration_a * worker_count == (iteration_b
            - iteration_a) * worker_count) by (nonlinear_arith);
    } else if iteration_b < iteration_a {
        assert((iteration_a - iteration_b) * worker_count >= worker_count) by (nonlinear_arith)
            requires
                iteration_a - iteration_b >= 1,
                worker_count >= 1,
        ;
        assert(iteration_a * worker_count - iteration_b * worker_count == (iteration_a
            - iteration_b) * worker_count) by (nonlinear_arith);
    }
}

/// A worker's values grow strictly from round to round.
pub proof fn values_increase(id: int, earlier: int, later: int, worker_count: int)
    requires
        1 <= worker_count,
        earlier < later,
    ensures
        value_at(id, earlier, worker_count) < value_at(id, later, worker_count),
{
    assert(earlier * worker_count < later * worker_count) by (nonlinear_arith)
        requires
            earlier < later,
            worker_count >= 1,
    ;
}

/// Every value of the first `iterations` rounds lies below
/// `worker_count * iterations`.
pub proof fn values_stay_in_bound(id: int, iteration: int, worker_count: int, iterations: int)
    requires
        0 <= id < worker_count,
        0 <= iteration < iterations,
    ensures
        0 <= value_at(id, iteration, worker_count) < worker_count * iterations,
{
    assert(0 <= iteration * worker_count) by (nonlinear_arith)
        requires
            0 <= iteration,
            0 <= worker_count,
    ;
    assert((iteration + 1) * worker_count <= iterations * worker_count) by (nonlinear_arith)
        requires
            iteration + 1 <= iterations,
            0 <= worker_count,
    ;
    assert((iteration + 1) * worker_count == iteration * worker_count + worker_count)
        by (nonlinear_arith);
    assert(iterations * worker_count == worker_count * iterations) by (nonlinear_arith);
}

/// No gaps: every number below `worker_count * iterations` is the value of
/// some round among the first `iterations` of some worker.
pub proof fn values_leave_no_gap(v: int, worker_count: int, iterations: int)
    requires
        1 <= worker_count,
        0 <= v < worker_count * iterations,
    ensures
        0 <= v % worker_count < worker_count,
        0 <= v / worker_count < iterations,
        value_at(v % worker_count, v / worker_count, worker_count) == v,
{
    let q: int = v / worker_count;
    let r: int = v % worker_count;
    assert(v == q * worker_count + r && 0 <= r < worker_count) by (nonlinear_arith)
        requires
            q == v / worker_count,
            r == v % worker_count,
            worker_count >= 1,
    ;
    assert(q >= 0) by (nonlinear_arith)
        requires
            v == q * worker_count + r,
            0 <= r < worker_count,
            v >= 0,
    ;
    assert(q < iterations) by (nonlinear_arith)
        requires
            v == q * worker_count + r,
            0 <= r,
            v < worker_count * iterations,
            worker_count >= 1,
    ;
}

/// After `iterations` rounds of each of `worker_count` workers, the values
/// written are exactly the numbers `0, 1, ..., worker_count * iterations - 1`.
pub proof fn produced_is_initial_segment(worker_count: int, iterations: int)
    requires
        1 <= worker_count,
        0 <= iterations,
    ensures
        produced(worker_count, iterations) == Set::new(
            |v: int| 0 <= v < worker_count * iterations,
        ),
{
    let segment = Set::new(|v: int| 0 <= v < worker_count * iterations);
    assert forall|v: int| produced(worker_count, iterations).contains(v) implies segment.contains(
        v,
    ) by {
        let (id, iteration) = choose|id: int, iteration: int|
            0 <= id < worker_count && 0 <= iteration < iterations && #[trigger] value_at(
                id,
                iteration,
                worker_count,
            ) == v;
        values_stay_in_bound(id, iteration, worker_count, iterations);
    }
    assert forall|v: int| segment.contains(v) implies produced(worker_count, iterations).contains(
        v,
    ) by {
        values_leave_no_gap(v, worker_count, iterations);
        assert(value_at(v % worker_count, v / worker_count, worker_count) == v);
    }
    assert(produced(worker_count, iterations) =~= segment);
}

} // verus!
