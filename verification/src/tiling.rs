//! How a length of pixels is cut into a given number of runs, and the proof
//! that the runs tile it: together they cover every pixel, and no two of
//! them share one.
//!
//! Every run but the last has the same length, the quotient of the whole by
//! the number of runs; the last run takes what is left. A screen is cut this
//! way along each axis, which gives the grid of tiles of a render.

use vstd::prelude::*;

verus! {

/// The common length of the runs when `extent` is cut into `count` of them.
pub open spec fn run_step(extent: int, count: int) -> int {
    extent / count
}

/// Where run number `index` starts.
pub open spec fn run_start(extent: int, count: int, index: int) -> int {
    run_step(extent, count) * index
}

/// How long run number `index` is: a step, but for the last run, which ends
/// where the whole ends.
pub open spec fn run_length(extent: int, count: int, index: int) -> int {
    if index == count - 1 {
        extent - run_step(extent, count) * index
    } else {
        run_step(extent, count)
    }
}

/// Whether position `p` lies in run number `index`.
pub open spec fn run_contains(extent: int, count: int, index: int, p: int) -> bool {
    run_start(extent, count, index) <= p < run_start(extent, count, index) + run_length(
        extent,
        count,
        index,
    )
}

/// The number of the run that holds position `p`.
pub open spec fn run_of(extent: int, count: int, p: int) -> int {
    let step = run_step(extent, count);
    if step == 0 || p / step >= count - 1 {
        count - 1
    } else {
        p / step
    }
}

/// A step times a run number never passes the start of the last run, and the
/// last run starts inside the whole.
pub proof fn lemma_run_bounds(extent: int, count: int, index: int)
    requires
        0 <= extent,
        0 < count,
        0 <= index < count,
    ensures
        0 <= run_step(extent, count),
        0 <= run_start(extent, count, index) <= run_start(extent, count, count - 1) <= extent,
        0 <= run_length(extent, count, index),
        run_start(extent, count, index) + run_length(extent, count, index) <= extent,
        index + 1 < count ==> run_start(extent, count, index + 1) == run_start(
            extent,
            count,
            index,
        ) + run_length(extent, count, index),
        index + 1 == count ==> run_start(extent, count, index) + run_length(extent, count, index)
            == extent,
{
    let step = extent / count;
    assert(0 <= step && step * count <= extent) by (nonlinear_arith)
        requires
            0 <= extent,
            0 < count,
            step == extent / count,
    ;
    assert(0 <= step * index && step * index <= step * (count - 1) && step * (count - 1) + step
        == step * count && step * (index + 1) == step * index + step) by (nonlinear_arith)
        requires
            0 <= step,
            0 <= index < count,
    ;
}

/// Each position of the whole lies in exactly one run: the one `run_of`
/// names, and no other.
pub proof fn lemma_runs_tile(extent: int, count: int, index: int, p: int)
    requires
        0 < count,
        0 <= index < count,
        0 <= p < extent,
    ensures
        0 <= run_of(extent, count, p) < count,
        run_contains(extent, count, index, p) <==> index == run_of(extent, count, p),
{
    let step = extent / count;
    lemma_run_bounds(extent, count, index);
    if step == 0 {
        assert(step * index == 0) by (nonlinear_arith)
            requires
                step == 0,
        ;
    } else {
        let q = p / step;
        assert(0 <= q && step * q <= p < step * q + step) by (nonlinear_arith)
            requires
                0 < step,
                0 <= p,
                q == p / step,
        ;
        // The runs before the last are the multiples of the step, so `p`
        // lies in run `index` exactly when its quotient is `index`.
        assert(step * index <= p < step * index + step <==> index == q) by (nonlinear_arith)
            requires
                0 < step,
                step * q <= p < step * q + step,
        ;
        assert(step * index <= p <==> index <= q) by (nonlinear_arith)
            requires
                0 < step,
                step * q <= p < step * q + step,
        ;
    }
}

/// No run reaches outside the whole.
pub proof fn lemma_run_inside(extent: int, count: int, index: int, p: int)
    requires
        0 <= extent,
        0 < count,
        0 <= index < count,
        run_contains(extent, count, index, p),
    ensures
        0 <= p < extent,
{
    lemma_run_bounds(extent, count, index);
}

} // verus!
