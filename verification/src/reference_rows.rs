//! Rows of a host computation.

use vstd::prelude::*;
use vstd::string::StringExecFns;
use crate::bits::ZERO_BITS;
use crate::decoder::text_outcome;
use crate::encoder_upload::{SWOOSH_L_OFFSET, SWOOSH_L_SHIFT, SWOOSH_R_OFFSET, SWOOSH_R_SHIFT};
use crate::encoder_weights::{XasrLinearPairWeights, XasrLinearWithBias};
use crate::float_ops;
use crate::float_ops::{FloatModel, FloatOps};
use crate::layer_values::SWOOSH_LINEAR_SCALE;
use crate::rows;
use crate::rows::{joined, part_of};
use crate::text;
use crate::text::decimal;

verus! {

/// The rows `row(0)`, ..., `row(n - 1)` one after the other, or why the first
/// row that fails does.
pub open spec fn each_row(n: int, row: spec_fn(int) -> Result<Seq<u32>, Seq<char>>) -> Result<
    Seq<u32>,
    Seq<char>,
>
    decreases n,
{
    if n <= 0 {
        Ok(Seq::empty())
    } else {
        match each_row(n - 1, row) {
            Err(reason) => Err(reason),
            Ok(done) => match row(n - 1) {
                Err(reason) => Err(reason),
                Ok(next) => Ok(done + next),
            },
        }
    }
}

/// The first row that fails decides.
pub proof fn lemma_row_fails(t: int, n: int, row: spec_fn(int) -> Result<Seq<u32>, Seq<char>>)
    requires
        0 <= t < n,
        each_row(t, row) is Ok,
        row(t) is Err,
    ensures
        each_row(n, row) == Err::<Seq<u32>, Seq<char>>(row(t)->Err_0),
    decreases n - t,
{
    if t + 1 < n {
        lemma_first_failure_stays(t + 1, n, row);
    }
}

proof fn lemma_first_failure_stays(t: int, n: int, row: spec_fn(int) -> Result<Seq<u32>, Seq<char>>)
    requires
        0 <= t <= n,
        each_row(t, row) is Err,
    ensures
        each_row(n, row) == each_row(t, row),
    decreases n - t,
{
    if t < n {
        lemma_first_failure_stays(t, n - 1, row);
    }
}

/// Position `c` of row `r` lies within `rows` rows of `width` elements.
pub proof fn lemma_index(r: int, rows: int, c: int, width: int)
    requires
        0 <= r < rows,
        0 <= c < width,
    ensures
        0 <= r * width,
        0 <= r * width + c < rows * width,
        r * width + width <= rows * width,
        (r * width + c) / width == r,
        (r * width + c) % width == c,
{
    rows::lemma_part_bounds(r, rows, width);
    vstd::arithmetic::div_mod::lemma_fundamental_div_mod_converse(r * width + c, width, r, c);
}

/// The row and the place in it of position `i` of `rows` rows of `width`
/// elements.
pub proof fn lemma_split(i: int, rows: int, width: int)
    requires
        0 <= i < rows * width,
        0 <= width,
    ensures
        width > 0,
        0 <= i / width < rows,
        0 <= i % width < width,
        i == (i / width) * width + i % width,
{
    assert(width > 0) by (nonlinear_arith)
        requires
            0 <= i < rows * width,
            0 <= width,
    ;
    vstd::arithmetic::div_mod::lemma_fundamental_div_mod(i, width);
    vstd::arithmetic::div_mod::lemma_div_pos_is_pos(i, width);
    let q = i / width;
    let r = i % width;
    assert(q < rows && i == q * width + r) by (nonlinear_arith)
        requires
            i == width * q + r,
            0 <= r,
            i < rows * width,
            width > 0,
    ;
}

/// Why rows do not have the values that they should.
pub open spec fn frame_rows_refusal(len: int, frames: usize, dim: usize, name: Seq<char>) -> Option<
    Seq<char>,
> {
    if len != frames * dim {
        Some(
            "xasr "@ + name + " has "@ + decimal(len as nat) + " values, expected "@ + decimal(
                (frames * dim) as nat,
            ),
        )
    } else {
        None
    }
}

/// Checks that rows have as many values as they should.
pub fn validate_frame_rows(rows: &[u32], frames: usize, dim: usize, name: &str) -> (result: Result<
    (),
    String,
>)
    requires
        frames * dim <= usize::MAX,
    ensures
        text_outcome(result, frame_rows_refusal(rows@.len() as int, frames, dim, name@)),
{
    let expected = frames * dim;
    if rows.len() != expected {
        let mut reason = text::copy_text("xasr ");
        reason.append(name);
        reason.append(" has ");
        text::push_number(&mut reason, rows.len());
        reason.append(" values, expected ");
        text::push_number(&mut reason, expected);
        return Err(reason);
    }
    Ok(())
}

/// `softplus(value - offset) - 0.08 value - shift`.
pub open spec fn swoosh_value(m: FloatModel, value: u32, offset: u32, shift: u32) -> u32 {
    (m.sub)(
        (m.sub)((m.softplus)((m.sub)(value, offset)), (m.mul)(value, SWOOSH_LINEAR_SCALE)),
        shift,
    )
}

fn swoosh<O: FloatOps>(ops: &O, value: u32, offset: u32, shift: u32) -> (result: u32)
    ensures
        float_ops::functional(ops) ==> result == swoosh_value(
            float_ops::model(ops),
            value,
            offset,
            shift,
        ),
{
    let moved = ops.sub(value, offset);
    let curved = ops.softplus(moved);
    let straight = ops.mul(value, SWOOSH_LINEAR_SCALE);
    let bent = ops.sub(curved, straight);
    ops.sub(bent, shift)
}

/// The right activation, `softplus(value - 1) - 0.08 value - 0.3132617`.
pub fn swoosh_r<O: FloatOps>(ops: &O, value: u32) -> (result: u32)
    ensures
        float_ops::functional(ops) ==> result == swoosh_value(
            float_ops::model(ops),
            value,
            SWOOSH_R_OFFSET,
            SWOOSH_R_SHIFT,
        ),
{
    swoosh(ops, value, SWOOSH_R_OFFSET, SWOOSH_R_SHIFT)
}

/// The left activation, `softplus(value - 4) - 0.08 value - 0.035`.
pub fn swoosh_l<O: FloatOps>(ops: &O, value: u32) -> (result: u32)
    ensures
        float_ops::functional(ops) ==> result == swoosh_value(
            float_ops::model(ops),
            value,
            SWOOSH_L_OFFSET,
            SWOOSH_L_SHIFT,
        ),
{
    swoosh(ops, value, SWOOSH_L_OFFSET, SWOOSH_L_SHIFT)
}

/// Each value through the right activation.
pub open spec fn swooshed_r(m: FloatModel, values: Seq<u32>) -> Seq<u32> {
    Seq::new(
        values.len(),
        |i: int| swoosh_value(m, values[i], SWOOSH_R_OFFSET, SWOOSH_R_SHIFT),
    )
}

/// Each value through the left activation.
pub open spec fn swooshed_l(m: FloatModel, values: Seq<u32>) -> Seq<u32> {
    Seq::new(
        values.len(),
        |i: int| swoosh_value(m, values[i], SWOOSH_L_OFFSET, SWOOSH_L_SHIFT),
    )
}

/// Applies the right activation to each value.
pub fn apply_swoosh_r<O: FloatOps>(ops: &O, values: &mut Vec<u32>)
    ensures
        final(values)@.len() == old(values)@.len(),
        float_ops::functional(ops) ==> final(values)@ == swooshed_r(
            float_ops::model(ops),
            old(values)@,
        ),
{
    let ghost start = values@;
    let mut i: usize = 0;
    while i < values.len()
        invariant
            i <= values@.len() == start.len(),
            forall|j: int| i <= j < start.len() ==> #[trigger] values@[j] == start[j],
            float_ops::functional(ops) ==> forall|j: int|
                0 <= j < i ==> #[trigger] values@[j] == swoosh_value(
                    float_ops::model(ops),
                    start[j],
                    SWOOSH_R_OFFSET,
                    SWOOSH_R_SHIFT,
                ),
        decreases start.len() - i,
    {
        let value = swoosh_r(ops, values[i]);
        values.set(i, value);
        i = i + 1;
    }
    proof {
        if float_ops::functional(ops) {
            assert(values@ =~= swooshed_r(float_ops::model(ops), start));
        }
    }
}

/// Applies the left activation to each value.
pub fn apply_swoosh_l<O: FloatOps>(ops: &O, values: &mut Vec<u32>)
    ensures
        final(values)@.len() == old(values)@.len(),
        float_ops::functional(ops) ==> final(values)@ == swooshed_l(
            float_ops::model(ops),
            old(values)@,
        ),
{
    let ghost start = values@;
    let mut i: usize = 0;
    while i < values.len()
        invariant
            i <= values@.len() == start.len(),
            forall|j: int| i <= j < start.len() ==> #[trigger] values@[j] == start[j],
            float_ops::functional(ops) ==> forall|j: int|
                0 <= j < i ==> #[trigger] values@[j] == swoosh_value(
                    float_ops::model(ops),
                    start[j],
                    SWOOSH_L_OFFSET,
                    SWOOSH_L_SHIFT,
                ),
        decreases start.len() - i,
    {
        let value = swoosh_l(ops, values[i]);
        values.set(i, value);
        i = i + 1;
    }
    proof {
        if float_ops::functional(ops) {
            assert(values@ =~= swooshed_l(float_ops::model(ops), start));
        }
    }
}

/// The sum of the squared distances of the first `n` values to the bias.
pub open spec fn square_sum(m: FloatModel, row: Seq<u32>, bias: Seq<u32>, n: int) -> u32
    decreases n,
{
    if n <= 0 {
        ZERO_BITS
    } else {
        let centered = (m.sub)(row[n - 1], bias[n - 1]);
        (m.add)(square_sum(m, row, bias, n - 1), (m.mul)(centered, centered))
    }
}

/// A row over the root of its mean squared distance to the bias, times the
/// exponential of the scale.
pub open spec fn normed_row(
    m: FloatModel,
    row: Seq<u32>,
    bias: Seq<u32>,
    log_scale: u32,
) -> Seq<u32> {
    let mean = (m.div)(
        square_sum(m, row, bias, row.len() as int),
        (m.from_count)(row.len() as int),
    );
    let multiplier = (m.mul)((m.inverse_sqrt)(mean), (m.exp)(log_scale));
    Seq::new(row.len(), |c: int| (m.mul)(row[c], multiplier))
}

/// Why rows are not normalised.
pub open spec fn norm_refusal(len: int, channels: usize, bias_len: int) -> Option<Seq<char>> {
    if channels == 0 {
        Some("xasr BiasNorm channels must be > 0"@)
    } else if bias_len != channels {
        Some(
            "xasr BiasNorm bias has "@ + decimal(bias_len as nat) + " values, expected "@ + decimal(
                channels as nat,
            ),
        )
    } else if len % channels as int != 0 {
        Some(
            "xasr BiasNorm input has "@ + decimal(len as nat)
                + " values, not divisible by channels "@ + decimal(channels as nat),
        )
    } else {
        None
    }
}

/// Rows, each normalised.
pub open spec fn normed_rows(
    m: FloatModel,
    values: Seq<u32>,
    channels: int,
    bias: Seq<u32>,
    log_scale: u32,
) -> Seq<u32> {
    joined(
        values.len() as int / channels,
        |t: int| normed_row(m, part_of(values, channels, t), bias, log_scale),
    )
}

/// Rows, each normalised, or why they are not.
pub open spec fn normed(
    m: FloatModel,
    values: Seq<u32>,
    channels: usize,
    bias: Seq<u32>,
    log_scale: u32,
) -> Result<Seq<u32>, Seq<char>> {
    match norm_refusal(values.len() as int, channels, bias.len() as int) {
        Some(reason) => Err(reason),
        None => Ok(normed_rows(m, values, channels as int, bias, log_scale)),
    }
}

fn row_multiplier<O: FloatOps>(ops: &O, row: &[u32], bias: &[u32], scale: u32) -> (multiplier: u32)
    requires
        row@.len() == bias@.len(),
    ensures
        float_ops::functional(ops) ==> multiplier == (float_ops::model(ops).mul)(
            (float_ops::model(ops).inverse_sqrt)(
                (float_ops::model(ops).div)(
                    square_sum(float_ops::model(ops), row@, bias@, row@.len() as int),
                    (float_ops::model(ops).from_count)(row@.len() as int),
                ),
            ),
            scale,
        ),
{
    let mut sum = ZERO_BITS;
    let mut i: usize = 0;
    while i < row.len()
        invariant
            i <= row@.len() == bias@.len(),
            float_ops::functional(ops) ==> sum == square_sum(
                float_ops::model(ops),
                row@,
                bias@,
                i as int,
            ),
        decreases row@.len() - i,
    {
        let centered = ops.sub(row[i], bias[i]);
        let square = ops.mul(centered, centered);
        sum = ops.add(sum, square);
        i = i + 1;
    }
    let mean = ops.div(sum, ops.from_count(row.len()));
    ops.mul(ops.inverse_sqrt(mean), scale)
}

/// Normalises each row of `channels` values.
#[verifier::spinoff_prover]
pub fn bias_norm_last_dim<O: FloatOps>(
    ops: &O,
    values: &[u32],
    channels: usize,
    bias: &[u32],
    log_scale: u32,
) -> (result: Result<Vec<u32>, String>)
    ensures
        text_outcome(
            result,
            norm_refusal(values@.len() as int, channels, bias@.len() as int),
        ),
        result is Ok ==> result->Ok_0@.len() == values@.len(),
        result is Ok && float_ops::functional(ops) ==> result->Ok_0@ == normed_rows(
            float_ops::model(ops),
            values@,
            channels as int,
            bias@,
            log_scale,
        ),
{
    if channels == 0 {
        return Err(text::copy_text("xasr BiasNorm channels must be > 0"));
    }
    if bias.len() != channels {
        let mut reason = text::copy_text("xasr BiasNorm bias has ");
        text::push_number(&mut reason, bias.len());
        reason.append(" values, expected ");
        text::push_number(&mut reason, channels);
        return Err(reason);
    }
    let count = values.len();
    if count % channels != 0 {
        let mut reason = text::copy_text("xasr BiasNorm input has ");
        text::push_number(&mut reason, count);
        reason.append(" values, not divisible by channels ");
        text::push_number(&mut reason, channels);
        return Err(reason);
    }
    let ghost m = float_ops::model(ops);
    let n = count / channels;
    proof {
        vstd::arithmetic::div_mod::lemma_fundamental_div_mod(count as int, channels as int);
        assert(n * channels == count) by (nonlinear_arith)
            requires
                count == channels * n,
        ;
        assert(0 * channels == 0) by (nonlinear_arith);
    }
    let scale = ops.exp(log_scale);
    let ghost part = |t: int| normed_row(m, part_of(values@, channels as int, t), bias@, log_scale);
    let mut output: Vec<u32> = Vec::new();
    let mut t: usize = 0;
    while t < n
        invariant
            t <= n,
            channels > 0,
            count == values@.len() == n * channels,
            bias@.len() == channels,
            m == float_ops::model(ops),
            float_ops::functional(ops) ==> scale == (m.exp)(log_scale),
            part == (|t: int|
                normed_row(m, part_of(values@, channels as int, t), bias@, log_scale)),
            output@.len() == t * channels,
            float_ops::functional(ops) ==> output@ == joined(t as int, part),
        decreases n - t,
    {
        proof {
            rows::lemma_part_bounds(t as int, n as int, channels as int);
        }
        let row = vstd::slice::slice_subrange(values, t * channels, (t + 1) * channels);
        assert(row@ == part_of(values@, channels as int, t as int));
        let multiplier = row_multiplier(ops, row, bias, scale);
        let ghost before = output@;
        let mut c: usize = 0;
        while c < row.len()
            invariant
                c <= row@.len(),
                m == float_ops::model(ops),
                output@.len() == before.len() + c,
                forall|j: int| 0 <= j < before.len() ==> #[trigger] output@[j] == before[j],
                float_ops::functional(ops) ==> forall|j: int|
                    before.len() <= j < before.len() + c ==> #[trigger] output@[j] == (m.mul)(
                        row@[j - before.len()],
                        multiplier,
                    ),
            decreases row@.len() - c,
        {
            output.push(ops.mul(row[c], multiplier));
            c = c + 1;
        }
        proof {
            if float_ops::functional(ops) {
                assert(part(t as int) == normed_row(m, row@, bias@, log_scale));
                assert(output@ =~= before + part(t as int));
            }
        }
        t = t + 1;
    }
    Ok(output)
}

/// Why rows are not added.
pub open spec fn add_refusal(left: int, right: int) -> Option<Seq<char>> {
    if left != right {
        Some(
            "xasr residual add shape mismatch lhs="@ + decimal(left as nat) + " rhs="@ + decimal(
                right as nat,
            ),
        )
    } else {
        None
    }
}

/// Element-wise sums.
pub open spec fn sums(m: FloatModel, left: Seq<u32>, right: Seq<u32>) -> Seq<u32> {
    Seq::new(left.len(), |i: int| (m.add)(left[i], right[i]))
}

/// Element-wise sums, or why there are none.
pub open spec fn added(
    m: FloatModel,
    left: Seq<u32>,
    right: Seq<u32>,
) -> Result<Seq<u32>, Seq<char>> {
    match add_refusal(left.len() as int, right.len() as int) {
        Some(reason) => Err(reason),
        None => Ok(sums(m, left, right)),
    }
}

/// Adds rows element by element.
pub fn add_frame_rows<O: FloatOps>(ops: &O, lhs: &[u32], rhs: &[u32]) -> (result: Result<
    Vec<u32>,
    String,
>)
    ensures
        text_outcome(result, add_refusal(lhs@.len() as int, rhs@.len() as int)),
        result is Ok ==> result->Ok_0@.len() == lhs@.len(),
        result is Ok && float_ops::functional(ops) ==> result->Ok_0@ == sums(
            float_ops::model(ops),
            lhs@,
            rhs@,
        ),
{
    if lhs.len() != rhs.len() {
        let mut reason = text::copy_text("xasr residual add shape mismatch lhs=");
        text::push_number(&mut reason, lhs.len());
        reason.append(" rhs=");
        text::push_number(&mut reason, rhs.len());
        return Err(reason);
    }
    let mut output: Vec<u32> = Vec::new();
    let mut i: usize = 0;
    while i < lhs.len()
        invariant
            i <= lhs@.len() == rhs@.len(),
            output@.len() == i,
            float_ops::functional(ops) ==> forall|j: int|
                0 <= j < i ==> #[trigger] output@[j] == (float_ops::model(ops).add)(
                    lhs@[j],
                    rhs@[j],
                ),
        decreases lhs@.len() - i,
    {
        output.push(ops.add(lhs[i], rhs[i]));
        i = i + 1;
    }
    proof {
        if float_ops::functional(ops) {
            assert(output@ =~= sums(float_ops::model(ops), lhs@, rhs@));
        }
    }
    Ok(output)
}

/// Appends the elements of a vector.
pub fn push_all(output: &mut Vec<u32>, values: &[u32])
    ensures
        final(output)@ == old(output)@ + values@,
{
    let ghost start = output@;
    let mut i: usize = 0;
    while i < values.len()
        invariant
            i <= values@.len(),
            output@ == start + values@.take(i as int),
        decreases values@.len() - i,
    {
        output.push(values[i]);
        assert(output@ =~= start + values@.take(i + 1));
        i = i + 1;
    }
    assert(values@.take(i as int) =~= values@);
}

/// Each row through a matrix with its bias.
pub open spec fn through_rows(
    m: FloatModel,
    weights: XasrLinearWithBias,
    rows: Seq<u32>,
    dim: int,
) -> spec_fn(int) -> Result<Seq<u32>, Seq<char>> {
    |t: int| (m.apply_linear)(weights.weight, part_of(rows, dim, t), Some(weights.bias@))
}

/// Each row through a matrix with its bias, or why that fails.
pub open spec fn linear_rows(
    m: FloatModel,
    weights: XasrLinearWithBias,
    rows: Seq<u32>,
    frames: usize,
    dim: usize,
) -> Result<Seq<u32>, Seq<char>> {
    match frame_rows_refusal(rows.len() as int, frames, dim, "linear rows"@) {
        Some(reason) => Err(reason),
        None => each_row(frames as int, through_rows(m, weights, rows, dim as int)),
    }
}

/// Multiplies each row with a matrix and adds its bias.
#[verifier::spinoff_prover]
pub fn apply_linear_to_rows<O: FloatOps>(
    ops: &O,
    weights: &XasrLinearWithBias,
    rows: &[u32],
    frames: usize,
    input_dim: usize,
) -> (result: Result<Vec<u32>, String>)
    requires
        frames * input_dim <= usize::MAX,
        input_dim > 0 || rows@.len() > 0,
    ensures
        frame_rows_refusal(rows@.len() as int, frames, input_dim, "linear rows"@) is Some
            ==> text_outcome(
            result,
            frame_rows_refusal(rows@.len() as int, frames, input_dim, "linear rows"@),
        ),
        result is Ok && float_ops::sized(ops) ==> result->Ok_0@.len() == frames
            * weights.weight.output_dim,
        float_ops::functional(ops) ==> float_ops::result_view(result) == linear_rows(
            float_ops::model(ops),
            *weights,
            rows@,
            frames,
            input_dim,
        ),
{
    match validate_frame_rows(rows, frames, input_dim, "linear rows") {
        Ok(_) => {},
        Err(reason) => return Err(reason),
    }
    let ghost row_of = through_rows(float_ops::model(ops), *weights, rows@, input_dim as int);
    let width = weights.weight.output_dim;
    let mut output: Vec<u32> = Vec::new();
    let mut t: usize = 0;
    assert(0 * width == 0) by (nonlinear_arith);
    while t < frames
        invariant
            t <= frames,
            rows@.len() == frames * input_dim,
            width == weights.weight.output_dim,
            row_of == through_rows(float_ops::model(ops), *weights, rows@, input_dim as int),
            float_ops::sized(ops) ==> output@.len() == t * width,
            float_ops::functional(ops) ==> each_row(t as int, row_of) == Ok::<
                Seq<u32>,
                Seq<char>,
            >(output@),
        decreases frames - t,
    {
        proof {
            rows::lemma_part_bounds(t as int, frames as int, input_dim as int);
            assert(t * width + width == (t + 1) * width) by (nonlinear_arith);
        }
        assert(rows.len() == rows@.len());
        let frame = vstd::slice::slice_subrange(rows, t * input_dim, (t + 1) * input_dim);
        assert(frame@ == part_of(rows@, input_dim as int, t as int));
        let projected = match ops.apply_linear(
            &weights.weight,
            frame,
            Some(weights.bias.as_slice()),
        ) {
            Ok(projected) => projected,
            Err(reason) => {
                proof {
                    if float_ops::functional(ops) {
                        assert(row_of(t as int) == Err::<Seq<u32>, Seq<char>>(reason@));
                        lemma_row_fails(t as int, frames as int, row_of);
                    }
                }
                return Err(reason);
            },
        };
        proof {
            if float_ops::functional(ops) {
                assert(row_of(t as int) == Ok::<Seq<u32>, Seq<char>>(projected@));
            }
        }
        push_all(&mut output, projected.as_slice());
        t = t + 1;
    }
    Ok(output)
}

/// A row through two matrices with an activation between them.
pub open spec fn feed_forward_row(
    m: FloatModel,
    weights: XasrLinearPairWeights,
    row: Seq<u32>,
) -> Result<Seq<u32>, Seq<char>> {
    match (m.apply_linear)(weights.in_proj.weight, row, Some(weights.in_proj.bias@)) {
        Err(reason) => Err(reason),
        Ok(hidden) => (m.apply_linear)(
            weights.out_proj.weight,
            swooshed_l(m, hidden),
            Some(weights.out_proj.bias@),
        ),
    }
}

/// Each row through a feed-forward module, or why that fails.
pub open spec fn feed_forward_rows(
    m: FloatModel,
    weights: XasrLinearPairWeights,
    rows: Seq<u32>,
    frames: usize,
    dim: usize,
) -> Result<Seq<u32>, Seq<char>> {
    match frame_rows_refusal(rows.len() as int, frames, dim, "feed-forward input"@) {
        Some(reason) => Err(reason),
        None => each_row(
            frames as int,
            |t: int| feed_forward_row(m, weights, part_of(rows, dim as int, t)),
        ),
    }
}

/// Applies a feed-forward module to each row.
#[verifier::spinoff_prover]
pub fn feed_forward_reference<O: FloatOps>(
    ops: &O,
    weights: &XasrLinearPairWeights,
    rows: &[u32],
    frames: usize,
    dim: usize,
) -> (result: Result<Vec<u32>, String>)
    requires
        frames * dim <= usize::MAX,
        dim > 0 || rows@.len() > 0,
    ensures
        frame_rows_refusal(rows@.len() as int, frames, dim, "feed-forward input"@) is Some
            ==> text_outcome(
            result,
            frame_rows_refusal(rows@.len() as int, frames, dim, "feed-forward input"@),
        ),
        result is Ok && float_ops::sized(ops) ==> result->Ok_0@.len() == frames
            * weights.out_proj.weight.output_dim,
        float_ops::functional(ops) ==> float_ops::result_view(result) == feed_forward_rows(
            float_ops::model(ops),
            *weights,
            rows@,
            frames,
            dim,
        ),
{
    match validate_frame_rows(rows, frames, dim, "feed-forward input") {
        Ok(_) => {},
        Err(reason) => return Err(reason),
    }
    let ghost m = float_ops::model(ops);
    let ghost row_of = |t: int| feed_forward_row(m, *weights, part_of(rows@, dim as int, t));
    let width = weights.out_proj.weight.output_dim;
    let mut output: Vec<u32> = Vec::new();
    let mut t: usize = 0;
    assert(0 * width == 0) by (nonlinear_arith);
    while t < frames
        invariant
            t <= frames,
            rows@.len() == frames * dim,
            width == weights.out_proj.weight.output_dim,
            m == float_ops::model(ops),
            row_of == (|t: int| feed_forward_row(m, *weights, part_of(rows@, dim as int, t))),
            float_ops::sized(ops) ==> output@.len() == t * width,
            float_ops::functional(ops) ==> each_row(t as int, row_of) == Ok::<
                Seq<u32>,
                Seq<char>,
            >(output@),
        decreases frames - t,
    {
        proof {
            rows::lemma_part_bounds(t as int, frames as int, dim as int);
            assert(t * width + width == (t + 1) * width) by (nonlinear_arith);
        }
        assert(rows.len() == rows@.len());
        let frame = vstd::slice::slice_subrange(rows, t * dim, (t + 1) * dim);
        assert(frame@ == part_of(rows@, dim as int, t as int));
        let mut hidden = match ops.apply_linear(
            &weights.in_proj.weight,
            frame,
            Some(weights.in_proj.bias.as_slice()),
        ) {
            Ok(hidden) => hidden,
            Err(reason) => {
                proof {
                    if float_ops::functional(ops) {
                        assert(row_of(t as int) == Err::<Seq<u32>, Seq<char>>(reason@));
                        lemma_row_fails(t as int, frames as int, row_of);
                    }
                }
                return Err(reason);
            },
        };
        apply_swoosh_l(ops, &mut hidden);
        let projected = match ops.apply_linear(
            &weights.out_proj.weight,
            hidden.as_slice(),
            Some(weights.out_proj.bias.as_slice()),
        ) {
            Ok(projected) => projected,
            Err(reason) => {
                proof {
                    if float_ops::functional(ops) {
                        assert(row_of(t as int) == Err::<Seq<u32>, Seq<char>>(reason@));
                        lemma_row_fails(t as int, frames as int, row_of);
                    }
                }
                return Err(reason);
            },
        };
        proof {
            if float_ops::functional(ops) {
                assert(row_of(t as int) == Ok::<Seq<u32>, Seq<char>>(projected@));
            }
        }
        push_all(&mut output, projected.as_slice());
        t = t + 1;
    }
    Ok(output)
}

/// Why rows are not combined.
pub open spec fn bypass_refusal(
    original: int,
    current: int,
    scale: int,
    frames: usize,
    dim: usize,
) -> Option<Seq<char>> {
    if frame_rows_refusal(original, frames, dim, "bypass original input"@) is Some {
        frame_rows_refusal(original, frames, dim, "bypass original input"@)
    } else if frame_rows_refusal(current, frames, dim, "bypass current input"@) is Some {
        frame_rows_refusal(current, frames, dim, "bypass current input"@)
    } else if scale != dim {
        Some(
            "xasr bypass scale has "@ + decimal(scale as nat) + " values, expected "@ + decimal(
                dim as nat,
            ),
        )
    } else {
        None
    }
}

/// `original + (current - original) * scale`.
pub open spec fn blended(m: FloatModel, original: u32, current: u32, scale: u32) -> u32 {
    (m.add)(original, (m.mul)((m.sub)(current, original), scale))
}

/// Two lists of rows, blended channel by channel.
pub open spec fn blended_rows(
    m: FloatModel,
    original: Seq<u32>,
    current: Seq<u32>,
    scale: Seq<u32>,
) -> Seq<u32> {
    Seq::new(
        original.len(),
        |i: int| blended(m, original[i], current[i], scale[i % scale.len() as int]),
    )
}

/// Two lists of rows, blended channel by channel, or why they are not.
pub open spec fn bypassed(
    m: FloatModel,
    original: Seq<u32>,
    current: Seq<u32>,
    scale: Seq<u32>,
    frames: usize,
    dim: usize,
) -> Result<Seq<u32>, Seq<char>> {
    match bypass_refusal(
        original.len() as int,
        current.len() as int,
        scale.len() as int,
        frames,
        dim,
    ) {
        Some(reason) => Err(reason),
        None => Ok(blended_rows(m, original, current, scale)),
    }
}

/// Blends two lists of rows channel by channel.
#[verifier::spinoff_prover]
pub fn bypass_reference<O: FloatOps>(
    ops: &O,
    original_rows: &[u32],
    current_rows: &[u32],
    scale: &[u32],
    frames: usize,
    dim: usize,
) -> (result: Result<Vec<u32>, String>)
    requires
        frames * dim <= usize::MAX,
    ensures
        text_outcome(
            result,
            bypass_refusal(
                original_rows@.len() as int,
                current_rows@.len() as int,
                scale@.len() as int,
                frames,
                dim,
            ),
        ),
        result is Ok ==> result->Ok_0@.len() == original_rows@.len(),
        result is Ok && float_ops::functional(ops) ==> result->Ok_0@ == blended_rows(
            float_ops::model(ops),
            original_rows@,
            current_rows@,
            scale@,
        ),
{
    match validate_frame_rows(original_rows, frames, dim, "bypass original input") {
        Ok(_) => {},
        Err(reason) => return Err(reason),
    }
    match validate_frame_rows(current_rows, frames, dim, "bypass current input") {
        Ok(_) => {},
        Err(reason) => return Err(reason),
    }
    if scale.len() != dim {
        let mut reason = text::copy_text("xasr bypass scale has ");
        text::push_number(&mut reason, scale.len());
        reason.append(" values, expected ");
        text::push_number(&mut reason, dim);
        return Err(reason);
    }
    let ghost m = float_ops::model(ops);
    let mut output: Vec<u32> = Vec::new();
    let mut frame: usize = 0;
    assert(0 * dim == 0) by (nonlinear_arith);
    while frame < frames
        invariant
            frame <= frames,
            original_rows@.len() == current_rows@.len() == frames * dim,
            frames * dim <= usize::MAX,
            scale@.len() == dim,
            m == float_ops::model(ops),
            output@.len() == frame * dim,
            float_ops::functional(ops) ==> forall|i: int|
                0 <= i < frame * dim ==> #[trigger] output@[i] == blended_rows(
                    m,
                    original_rows@,
                    current_rows@,
                    scale@,
                )[i],
        decreases frames - frame,
    {
        proof {
            rows::lemma_part_bounds(frame as int, frames as int, dim as int);
        }
        let base = frame * dim;
        let mut c: usize = 0;
        while c < dim
            invariant
                c <= dim,
                frame < frames,
                base == frame * dim,
                base + dim <= frames * dim,
                original_rows@.len() == current_rows@.len() == frames * dim,
                frames * dim <= usize::MAX,
                scale@.len() == dim,
                m == float_ops::model(ops),
                output@.len() == base + c,
                float_ops::functional(ops) ==> forall|i: int|
                    0 <= i < base + c ==> #[trigger] output@[i] == blended_rows(
                        m,
                        original_rows@,
                        current_rows@,
                        scale@,
                    )[i],
            decreases dim - c,
        {
            let index = base + c;
            proof {
                lemma_index(frame as int, frames as int, c as int, dim as int);
            }
            let distance = ops.sub(current_rows[index], original_rows[index]);
            let part = ops.mul(distance, scale[c]);
            let value = ops.add(original_rows[index], part);
            output.push(value);
            c = c + 1;
        }
        frame = frame + 1;
    }
    proof {
        if float_ops::functional(ops) {
            assert(output@ =~= blended_rows(m, original_rows@, current_rows@, scale@));
        }
    }
    Ok(output)
}

} // verus!
