//! What the host makes of rows.

use vstd::prelude::*;
use crate::encoder_weights::{StoredLinear, XasrLinearPairWeights, XasrLinearWithBias};
use crate::float_ops::FloatModel;
use crate::reference_rows::{
    bypassed, each_row, feed_forward_row, feed_forward_rows, linear_rows, normed, normed_row,
    square_sum, swooshed_l, swooshed_r,
};
use crate::rows::{lemma_joined_at, lemma_part_bounds, part_of};
use crate::sum_laws::summed;

verus! {

/// Products with a matrix are as long as the matrix is high.
pub open spec fn matrices_fill_rows(m: FloatModel) -> bool {
    forall|w: StoredLinear, x: Seq<u32>, b: Option<Seq<u32>>|
        (#[trigger] (m.apply_linear)(w, x, b)) is Ok ==> (m.apply_linear)(w, x, b)->Ok_0.len()
            == w.output_dim
}

/// Rows that are made one after the other stand one after the other.
pub proof fn lemma_each_row_at(
    n: int,
    row: spec_fn(int) -> Result<Seq<u32>, Seq<char>>,
    width: int,
    t: int,
)
    requires
        each_row(n, row) is Ok,
        0 <= t < n,
        0 <= width,
        forall|i: int| 0 <= i < n && (#[trigger] row(i)) is Ok ==> row(i)->Ok_0.len() == width,
    ensures
        each_row(n, row)->Ok_0.len() == n * width,
        row(t) is Ok,
        part_of(each_row(n, row)->Ok_0, width, t) == row(t)->Ok_0,
    decreases n,
{
    let done = each_row(n - 1, row)->Ok_0;
    let whole = each_row(n, row)->Ok_0;
    lemma_each_row_len(n - 1, row, width);
    lemma_part_bounds(t, n, width);
    assert((n - 1) * width + width == n * width) by (nonlinear_arith);
    if t < n - 1 {
        lemma_each_row_at(n - 1, row, width, t);
        lemma_part_bounds(t, n - 1, width);
        assert(part_of(whole, width, t) =~= part_of(done, width, t));
    } else {
        assert(part_of(whole, width, t) =~= row(t)->Ok_0);
    }
}

proof fn lemma_each_row_len(n: int, row: spec_fn(int) -> Result<Seq<u32>, Seq<char>>, width: int)
    requires
        each_row(n, row) is Ok,
        0 <= n,
        0 <= width,
        forall|i: int| 0 <= i < n && (#[trigger] row(i)) is Ok ==> row(i)->Ok_0.len() == width,
    ensures
        each_row(n, row)->Ok_0.len() == n * width,
    decreases n,
{
    if n > 0 {
        lemma_each_row_len(n - 1, row, width);
        assert((n - 1) * width + width == n * width) by (nonlinear_arith);
    } else {
        assert(0 * width == 0) by (nonlinear_arith);
    }
}

/// Every row goes through the matrix by itself: row `t` of the result is the matrix times row
/// `t`, plus the bias.
pub proof fn law_rows_go_through_a_matrix_one_by_one(
    m: FloatModel,
    weights: XasrLinearWithBias,
    rows: Seq<u32>,
    frames: usize,
    dim: usize,
    t: int,
)
    requires
        matrices_fill_rows(m),
        linear_rows(m, weights, rows, frames, dim) is Ok,
        0 <= t < frames,
    ensures
        ({
            let out = weights.weight.output_dim as int;
            let result = linear_rows(m, weights, rows, frames, dim)->Ok_0;
            &&& result.len() == frames * out
            &&& (m.apply_linear)(
                weights.weight,
                rows.subrange(t * dim, (t + 1) * dim),
                Some(weights.bias@),
            ) == Ok::<Seq<u32>, Seq<char>>(result.subrange(t * out, (t + 1) * out))
        }),
{
    let row = |t: int|
        (m.apply_linear)(weights.weight, part_of(rows, dim as int, t), Some(weights.bias@));
    lemma_each_row_at(frames as int, row, weights.weight.output_dim as int, t);
}

/// The right activation of `x` is `softplus(x - 1) - 0.08 x - 0.3132617`, the left one
/// `softplus(x - 4) - 0.08 x - 0.035`, entry by entry.
pub proof fn law_activations_bend_every_entry(m: FloatModel, values: Seq<u32>, i: int)
    requires
        0 <= i < values.len(),
    ensures
        swooshed_r(m, values).len() == values.len(),
        swooshed_l(m, values).len() == values.len(),
        swooshed_r(m, values)[i] == (m.sub)(
            (m.sub)((m.softplus)((m.sub)(values[i], 0x3f80_0000)), (m.mul)(values[i], 0x3da3_d70a)),
            0x3ea0_63d6,
        ),
        swooshed_l(m, values)[i] == (m.sub)(
            (m.sub)((m.softplus)((m.sub)(values[i], 0x4080_0000)), (m.mul)(values[i], 0x3da3_d70a)),
            0x3d0f_5c29,
        ),
{
}

/// A feed-forward module takes every row by itself through its first matrix, the left
/// activation and its second matrix.
pub proof fn law_feed_forward_takes_rows_one_by_one(
    m: FloatModel,
    weights: XasrLinearPairWeights,
    rows: Seq<u32>,
    frames: usize,
    dim: usize,
    t: int,
)
    requires
        matrices_fill_rows(m),
        feed_forward_rows(m, weights, rows, frames, dim) is Ok,
        0 <= t < frames,
    ensures
        ({
            let out = weights.out_proj.weight.output_dim as int;
            let result = feed_forward_rows(m, weights, rows, frames, dim)->Ok_0;
            let hidden = (m.apply_linear)(
                weights.in_proj.weight,
                rows.subrange(t * dim, (t + 1) * dim),
                Some(weights.in_proj.bias@),
            );
            &&& result.len() == frames * out
            &&& hidden is Ok
            &&& (m.apply_linear)(
                weights.out_proj.weight,
                swooshed_l(m, hidden->Ok_0),
                Some(weights.out_proj.bias@),
            ) == Ok::<Seq<u32>, Seq<char>>(result.subrange(t * out, (t + 1) * out))
        }),
{
    let row = |t: int|
        feed_forward_row(m, weights, part_of(rows, dim as int, t));
    lemma_each_row_at(frames as int, row, weights.out_proj.weight.output_dim as int, t);
}

/// The squared distance of an entry to the bias.
pub open spec fn squared_distance(m: FloatModel, entry: u32, bias: u32) -> u32 {
    (m.mul)((m.sub)(entry, bias), (m.sub)(entry, bias))
}

proof fn lemma_square_sum(m: FloatModel, row: Seq<u32>, bias: Seq<u32>, n: int)
    requires
        0 <= n <= row.len(),
        row.len() == bias.len(),
    ensures
        square_sum(m, row, bias, n) == summed(
            m,
            0,
            Seq::new(n as nat, |c: int| squared_distance(m, row[c], bias[c])),
        ),
    decreases n,
{
    let terms = Seq::new(n as nat, |c: int| squared_distance(m, row[c], bias[c]));
    if n > 0 {
        lemma_square_sum(m, row, bias, n - 1);
        assert(terms.drop_last() =~= Seq::new(
            (n - 1) as nat,
            |c: int| squared_distance(m, row[c], bias[c]),
        ));
    }
}

/// Every row is divided by the root of the mean squared distance of its own entries to the
/// bias, and multiplied by the exponential of the scale.
pub proof fn law_rows_are_normed_by_their_own_spread(
    m: FloatModel,
    values: Seq<u32>,
    channels: usize,
    bias: Seq<u32>,
    log_scale: u32,
    t: int,
    c: int,
)
    requires
        normed(m, values, channels, bias, log_scale) is Ok,
        0 <= t,
        (t + 1) * channels <= values.len(),
        0 <= c < channels,
    ensures
        ({
            let row = values.subrange(t * channels, (t + 1) * channels);
            let spread = summed(
                m,
                0,
                Seq::new(channels as nat, |c: int| squared_distance(m, row[c], bias[c])),
            );
            let mean = (m.div)(spread, (m.from_count)(channels as int));
            let result = normed(m, values, channels, bias, log_scale)->Ok_0;
            &&& result.len() == values.len()
            &&& result[t * channels + c] == (m.mul)(
                values[t * channels + c],
                (m.mul)((m.inverse_sqrt)(mean), (m.exp)(log_scale)),
            )
        }),
{
    let w = channels as int;
    let n = values.len() as int / w;
    vstd::arithmetic::div_mod::lemma_fundamental_div_mod(values.len() as int, w);
    assert(values.len() == n * w && t < n) by (nonlinear_arith)
        requires
            values.len() == w * n + 0,
            (t + 1) * w <= values.len(),
            0 < w,
    ;
    let part = |t: int| normed_row(m, part_of(values, channels as int, t), bias, log_scale);
    assert forall|i: int| 0 <= i < n implies (#[trigger] part(i)).len() == w by {
        lemma_part_bounds(i, n, w);
    }
    lemma_joined_at(n, part, w, t, c);
    lemma_part_bounds(t, n, w);
    lemma_square_sum(m, part_of(values, w, t), bias, w);
}

/// A bypass leads from one list of rows to another: entry by entry it is the first, plus the
/// scale of the channel times the way to the second.
pub proof fn law_a_bypass_leads_from_one_to_the_other(
    m: FloatModel,
    original: Seq<u32>,
    current: Seq<u32>,
    scale: Seq<u32>,
    frames: usize,
    dim: usize,
    t: int,
    c: int,
)
    requires
        bypassed(m, original, current, scale, frames, dim) is Ok,
        0 <= t < frames,
        0 <= c < dim,
    ensures
        ({
            let result = bypassed(m, original, current, scale, frames, dim)->Ok_0;
            let from = original[t * dim + c];
            let to = current[t * dim + c];
            &&& result.len() == frames * dim
            &&& result[t * dim + c] == (m.add)(from, (m.mul)((m.sub)(to, from), scale[c]))
        }),
{
    lemma_part_bounds(t, frames as int, dim as int);
    vstd::arithmetic::div_mod::lemma_fundamental_div_mod_converse(
        t * dim + c,
        dim as int,
        t,
        c,
    );
}

/// With a scale of one in a channel a bypass gives the second rows there, with a scale of zero
/// the first, where adding a difference back undoes it and zero and one multiply as they
/// should.
pub proof fn law_a_bypass_of_one_or_zero_picks_a_side(
    m: FloatModel,
    original: Seq<u32>,
    current: Seq<u32>,
    scale: Seq<u32>,
    frames: usize,
    dim: usize,
    t: int,
    c: int,
)
    requires
        bypassed(m, original, current, scale, frames, dim) is Ok,
        0 <= t < frames,
        0 <= c < dim,
        forall|a: u32, b: u32| #[trigger] (m.add)(a, (m.sub)(b, a)) == b,
        forall|a: u32| #[trigger] (m.mul)(a, 0x3f80_0000) == a,
        forall|a: u32| #[trigger] (m.mul)(a, 0) == 0,
        forall|a: u32| #[trigger] (m.add)(a, 0) == a,
    ensures
        scale[c] == 0x3f80_0000 ==> bypassed(m, original, current, scale, frames, dim)->Ok_0[t * dim
            + c] == current[t * dim + c],
        scale[c] == 0 ==> bypassed(m, original, current, scale, frames, dim)->Ok_0[t * dim + c]
            == original[t * dim + c],
{
    law_a_bypass_leads_from_one_to_the_other(m, original, current, scale, frames, dim, t, c);
}

} // verus!
