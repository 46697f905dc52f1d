//! Sums of products, in order.

use vstd::prelude::*;
use crate::float_ops;
use crate::float_ops::{mul_add, mul_add_of, FloatModel, FloatOps};

verus! {

/// `start` plus the products of `n` elements of `xs` from `x_from` on with `n`
/// of `ys` from `y_from` on.
pub open spec fn dot(
    m: FloatModel,
    start: u32,
    xs: Seq<u32>,
    x_from: int,
    ys: Seq<u32>,
    y_from: int,
    n: int,
) -> u32
    decreases n,
{
    if n <= 0 {
        start
    } else {
        mul_add_of(
            m,
            dot(m, start, xs, x_from, ys, y_from, n - 1),
            xs[x_from + n - 1],
            ys[y_from + n - 1],
        )
    }
}

/// Adds products of neighbouring elements.
pub fn dot_from<O: FloatOps>(
    ops: &O,
    start: u32,
    xs: &[u32],
    x_from: usize,
    ys: &[u32],
    y_from: usize,
    n: usize,
) -> (sum: u32)
    requires
        x_from + n <= xs@.len(),
        y_from + n <= ys@.len(),
    ensures
        float_ops::functional(ops) ==> sum == dot(
            float_ops::model(ops),
            start,
            xs@,
            x_from as int,
            ys@,
            y_from as int,
            n as int,
        ),
{
    let mut sum = start;
    let mut i: usize = 0;
    assert(xs.len() == xs@.len() && ys.len() == ys@.len());
    while i < n
        invariant
            i <= n,
            x_from + n <= xs@.len(),
            y_from + n <= ys@.len(),
            xs@.len() <= usize::MAX,
            ys@.len() <= usize::MAX,
            float_ops::functional(ops) ==> sum == dot(
                float_ops::model(ops),
                start,
                xs@,
                x_from as int,
                ys@,
                y_from as int,
                i as int,
            ),
        decreases n - i,
    {
        sum = mul_add(ops, sum, xs[x_from + i], ys[y_from + i]);
        i = i + 1;
    }
    sum
}

} // verus!
