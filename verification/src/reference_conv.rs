//! Convolutions over time on the host.

use vstd::prelude::*;
use vstd::string::StringExecFns;
use crate::decoder::text_outcome;
use crate::encoder_weights::XasrConv1dWeights;
use crate::float_ops;
use crate::float_ops::{mul_add, mul_add_of, FloatModel, FloatOps};
use crate::reference_rows::lemma_index;
use crate::rows;
use crate::rows::joined;
use crate::sums::{dot, dot_from};
use crate::text;
use crate::text::{bracketed, decimal};

verus! {

/// A table of `n` rows of `width` elements.
pub open spec fn grid(n: int, width: int, at: spec_fn(int, int) -> u32) -> Seq<u32> {
    joined(n, |r: int| Seq::new(width as nat, |c: int| at(r, c)))
}

/// Element `c` of row `r` of a table.
pub proof fn lemma_grid_at(n: int, width: int, at: spec_fn(int, int) -> u32, r: int, c: int)
    requires
        0 <= r < n,
        0 <= c < width,
    ensures
        0 <= r * width + c < n * width,
        grid(n, width, at).len() == n * width,
        grid(n, width, at)[r * width + c] == at(r, c),
{
    let part = |r: int| Seq::new(width as nat, |c: int| at(r, c));
    rows::lemma_joined_at(n, part, width, r, c);
}

/// The size of a table.
pub proof fn lemma_grid_len(n: int, width: int, at: spec_fn(int, int) -> u32)
    requires
        0 <= n,
        0 <= width,
    ensures
        grid(n, width, at).len() == n * width,
{
    let part = |r: int| Seq::new(width as nat, |c: int| at(r, c));
    rows::lemma_joined_len(n, part, width);
}

/// A list whose elements are those of a table is the table.
pub proof fn lemma_is_grid(values: Seq<u32>, n: int, width: int, at: spec_fn(int, int) -> u32)
    requires
        0 <= n,
        0 <= width,
        values.len() == n * width,
        forall|i: int|
            0 <= i < n * width ==> #[trigger] values[i] == at(i / width, i % width),
    ensures
        values == grid(n, width, at),
{
    lemma_grid_len(n, width, at);
    assert forall|i: int| 0 <= i < values.len() implies values[i] == grid(n, width, at)[i] by {
        assert(width > 0) by (nonlinear_arith)
            requires
                0 <= width,
                0 <= i < n * width,
        ;
        vstd::arithmetic::div_mod::lemma_fundamental_div_mod(i, width);
        let r = i / width;
        let c = i % width;
        assert(i == r * width + c) by (nonlinear_arith)
            requires
                i == width * r + c,
        ;
        vstd::arithmetic::div_mod::lemma_div_pos_is_pos(i, width);
        assert(r < n) by (nonlinear_arith)
            requires
                i == width * r + c,
                0 <= c,
                i < n * width,
                width > 0,
        ;
        lemma_grid_at(n, width, at, r, c);
    }
    assert(values =~= grid(n, width, at));
}

/// Why a depthwise kernel is refused.
pub open spec fn kernel_refusal(weights: XasrConv1dWeights, channels: usize) -> Option<Seq<char>> {
    let dims = weights.weight.dims@;
    if dims.len() != 3 {
        Some(
            "xasr conv1d '"@ + weights.weight.name@ + "' expected rank 3, got "@ + bracketed(dims),
        )
    } else if dims[1] != 1 || dims[2] != channels || weights.bias@.len() != channels {
        Some(
            "xasr conv1d '"@ + weights.weight.name@ + "' expected depthwise dims ["@ + decimal(
                dims[0] as nat,
            ) + ",1,"@ + decimal(channels as nat) + "], got "@ + bracketed(dims) + " with bias "@
                + decimal(weights.bias@.len()),
        )
    } else if weights.weight.values@.len() != channels * dims[0] {
        Some(
            "xasr conv1d '"@ + weights.weight.name@ + "' has "@ + decimal(
                weights.weight.values@.len(),
            ) + " weight values, expected "@ + decimal((channels * dims[0]) as nat),
        )
    } else {
        None
    }
}

/// The length of a depthwise kernel.
pub fn conv1d_kernel(
    weights: &XasrConv1dWeights,
    channels: usize,
) -> (result: Result<usize, String>)
    requires
        weights.weight.dims@.len() == 3 ==> channels * weights.weight.dims@[0] <= usize::MAX,
    ensures
        text_outcome(result, kernel_refusal(*weights, channels)),
        result is Ok ==> result->Ok_0 == weights.weight.dims@[0],
{
    let dims = &weights.weight.dims;
    let mut reason = text::copy_text("xasr conv1d '");
    reason.append(weights.weight.name.as_str());
    if dims.len() != 3 {
        reason.append("' expected rank 3, got ");
        text::push_bracketed(&mut reason, dims.as_slice());
        return Err(reason);
    }
    let kernel = dims[0];
    if dims[1] != 1 || dims[2] != channels || weights.bias.len() != channels {
        reason.append("' expected depthwise dims [");
        text::push_number(&mut reason, kernel);
        reason.append(",1,");
        text::push_number(&mut reason, channels);
        reason.append("], got ");
        text::push_bracketed(&mut reason, dims.as_slice());
        reason.append(" with bias ");
        text::push_number(&mut reason, weights.bias.len());
        return Err(reason);
    }
    let expected = channels * kernel;
    if weights.weight.values.len() != expected {
        reason.append("' has ");
        text::push_number(&mut reason, weights.weight.values.len());
        reason.append(" weight values, expected ");
        text::push_number(&mut reason, expected);
        return Err(reason);
    }
    Ok(kernel)
}

fn input_error(head: &str, count: usize, expected: usize) -> (reason: String)
    ensures
        reason@ == head@ + decimal(count as nat) + " values, expected "@ + decimal(expected as nat),
{
    let mut reason = text::copy_text(head);
    text::push_number(&mut reason, count);
    reason.append(" values, expected ");
    text::push_number(&mut reason, expected);
    reason
}

/// Why a convolution without padding is refused.
pub open spec fn valid_refusal(
    len: int,
    channels: usize,
    input_len: usize,
    weights: XasrConv1dWeights,
) -> Option<Seq<char>> {
    let kernel = weights.weight.dims@[0];
    if kernel_refusal(weights, channels) is Some {
        kernel_refusal(weights, channels)
    } else if len != channels * input_len {
        Some(
            "xasr conv1d valid input has "@ + decimal(len as nat) + " values, expected "@ + decimal(
                (channels * input_len) as nat,
            ),
        )
    } else if input_len < kernel {
        Some(
            "xasr conv1d valid kernel "@ + decimal(kernel as nat) + " exceeds input len "@ + decimal(
                input_len as nat,
            ),
        )
    } else {
        None
    }
}

/// Channel `c` at time `t`, from that time on.
pub open spec fn valid_value(
    m: FloatModel,
    input: Seq<u32>,
    input_len: int,
    weights: XasrConv1dWeights,
    c: int,
    t: int,
) -> u32 {
    let kernel = weights.weight.dims@[0] as int;
    dot(
        m,
        weights.bias@[c],
        input,
        c * input_len + t,
        weights.weight.values@,
        c * kernel,
        kernel,
    )
}

/// A depthwise convolution without padding, channel by channel.
pub open spec fn valid_rows(
    m: FloatModel,
    input: Seq<u32>,
    channels: int,
    input_len: int,
    weights: XasrConv1dWeights,
) -> Seq<u32> {
    grid(
        channels,
        input_len - weights.weight.dims@[0] + 1,
        |c: int, t: int| valid_value(m, input, input_len, weights, c, t),
    )
}

/// Convolves each channel without padding.
#[verifier::spinoff_prover]
pub fn depthwise_conv1d_valid_channel_major<O: FloatOps>(
    ops: &O,
    input: &[u32],
    channels: usize,
    input_len: usize,
    weights: &XasrConv1dWeights,
) -> (result: Result<Vec<u32>, String>)
    requires
        channels * input_len <= usize::MAX,
        input_len < usize::MAX,
        weights.weight.dims@.len() == 3 ==> channels * weights.weight.dims@[0] <= usize::MAX,
    ensures
        text_outcome(
            result,
            valid_refusal(input@.len() as int, channels, input_len, *weights),
        ),
        result is Ok ==> result->Ok_0@.len() == channels * (input_len - weights.weight.dims@[0]
            + 1),
        result is Ok && float_ops::functional(ops) ==> result->Ok_0@ == valid_rows(
            float_ops::model(ops),
            input@,
            channels as int,
            input_len as int,
            *weights,
        ),
{
    let kernel = conv1d_kernel(weights, channels)?;
    let expected = channels * input_len;
    if input.len() != expected {
        return Err(input_error("xasr conv1d valid input has ", input.len(), expected));
    }
    if input_len < kernel {
        let mut reason = text::copy_text("xasr conv1d valid kernel ");
        text::push_number(&mut reason, kernel);
        reason.append(" exceeds input len ");
        text::push_number(&mut reason, input_len);
        return Err(reason);
    }
    let output_len = input_len - kernel + 1;
    let ghost m = float_ops::model(ops);
    let ghost at = |c: int, t: int| valid_value(m, input@, input_len as int, *weights, c, t);
    let mut output: Vec<u32> = Vec::new();
    let mut c: usize = 0;
    assert(0 * output_len == 0) by (nonlinear_arith);
    while c < channels
        invariant
            c <= channels,
            m == float_ops::model(ops),
            at == (|c: int, t: int| valid_value(m, input@, input_len as int, *weights, c, t)),
            kernel == weights.weight.dims@[0],
            kernel <= input_len,
            output_len == input_len - kernel + 1,
            input@.len() == channels * input_len <= usize::MAX,
            weights.weight.values@.len() == channels * kernel <= usize::MAX,
            weights.bias@.len() == channels,
            output@.len() == c * output_len,
            float_ops::functional(ops) ==> forall|i: int|
                0 <= i < c * output_len ==> #[trigger] output@[i] == at(
                    i / output_len as int,
                    i % output_len as int,
                ),
        decreases channels - c,
    {
        proof {
            rows::lemma_part_bounds(c as int, channels as int, input_len as int);
            rows::lemma_part_bounds(c as int, channels as int, kernel as int);
            assert(c * output_len + output_len == (c + 1) * output_len) by (nonlinear_arith);
        }
        let mut t: usize = 0;
        while t < output_len
            invariant
                t <= output_len,
                c < channels,
                m == float_ops::model(ops),
                at == (|c: int, t: int| valid_value(m, input@, input_len as int, *weights, c, t)),
                kernel == weights.weight.dims@[0],
                kernel <= input_len,
                output_len == input_len - kernel + 1,
                input@.len() == channels * input_len <= usize::MAX,
                weights.weight.values@.len() == channels * kernel <= usize::MAX,
                weights.bias@.len() == channels,
                0 <= c * input_len,
                c * input_len + input_len <= channels * input_len,
                0 <= c * kernel,
                c * kernel + kernel <= channels * kernel,
                output@.len() == c * output_len + t,
                float_ops::functional(ops) ==> forall|i: int|
                    0 <= i < c * output_len + t ==> #[trigger] output@[i] == at(
                        i / output_len as int,
                        i % output_len as int,
                    ),
            decreases output_len - t,
        {
            let sum = dot_from(
                ops,
                weights.bias[c],
                input,
                c * input_len + t,
                weights.weight.values.as_slice(),
                c * kernel,
                kernel,
            );
            proof {
                lemma_index(c as int, channels as int, t as int, output_len as int);
            }
            output.push(sum);
            t = t + 1;
        }
        c = c + 1;
    }
    proof {
        if float_ops::functional(ops) {
            lemma_is_grid(output@, channels as int, output_len as int, at);
        }
    }
    Ok(output)
}

/// Why a padded convolution is refused.
pub open spec fn same_refusal(
    len: int,
    channels: usize,
    input_len: usize,
    weights: XasrConv1dWeights,
) -> Option<Seq<char>> {
    if kernel_refusal(weights, channels) is Some {
        kernel_refusal(weights, channels)
    } else if len != channels * input_len {
        Some(
            "xasr conv1d same input has "@ + decimal(len as nat) + " values, expected "@ + decimal(
                (channels * input_len) as nat,
            ),
        )
    } else {
        None
    }
}

/// Channel `c` around time `t`: the first `n` taps of its kernel, those that
/// fall outside of the input left out.
pub open spec fn same_value(
    m: FloatModel,
    input: Seq<u32>,
    input_len: int,
    weights: XasrConv1dWeights,
    c: int,
    t: int,
    n: int,
) -> u32
    decreases n,
{
    let kernel = weights.weight.dims@[0] as int;
    if n <= 0 {
        weights.bias@[c]
    } else {
        let before = same_value(m, input, input_len, weights, c, t, n - 1);
        let source = t + (n - 1) - kernel / 2;
        if 0 <= source < input_len {
            mul_add_of(
                m,
                before,
                input[c * input_len + source],
                weights.weight.values@[c * kernel + (n - 1)],
            )
        } else {
            before
        }
    }
}

/// A depthwise convolution that keeps the length, channel by channel.
pub open spec fn same_rows(
    m: FloatModel,
    input: Seq<u32>,
    channels: int,
    input_len: int,
    weights: XasrConv1dWeights,
) -> Seq<u32> {
    grid(
        channels,
        input_len,
        |c: int, t: int|
            same_value(m, input, input_len, weights, c, t, weights.weight.dims@[0] as int),
    )
}

fn same_sum<O: FloatOps>(
    ops: &O,
    input: &[u32],
    input_len: usize,
    weights: &XasrConv1dWeights,
    channels: usize,
    c: usize,
    t: usize,
    kernel: usize,
) -> (sum: u32)
    requires
        c < channels,
        t < input_len,
        weights.weight.dims@.len() > 0,
        kernel == weights.weight.dims@[0],
        input_len + kernel <= usize::MAX,
        input@.len() == channels * input_len,
        weights.weight.values@.len() == channels * kernel,
        weights.bias@.len() == channels,
    ensures
        float_ops::functional(ops) ==> sum == same_value(
            float_ops::model(ops),
            input@,
            input_len as int,
            *weights,
            c as int,
            t as int,
            kernel as int,
        ),
{
    let pad = kernel / 2;
    let mut sum = weights.bias[c];
    let mut k: usize = 0;
    assert(input.len() == input@.len());
    while k < kernel
        invariant
            k <= kernel,
            c < channels,
            t < input_len,
            kernel == weights.weight.dims@[0],
            pad == kernel / 2,
            input_len + kernel <= usize::MAX,
            input@.len() == channels * input_len <= usize::MAX,
            weights.weight.values@.len() == channels * kernel,
            float_ops::functional(ops) ==> sum == same_value(
                float_ops::model(ops),
                input@,
                input_len as int,
                *weights,
                c as int,
                t as int,
                k as int,
            ),
        decreases kernel - k,
    {
        if t + k >= pad && t + k - pad < input_len {
            let source = t + k - pad;
            proof {
                lemma_index(c as int, channels as int, source as int, input_len as int);
                lemma_index(c as int, channels as int, k as int, kernel as int);
                assert(weights.weight.values.len() == weights.weight.values@.len());
            }
            sum = mul_add(
                ops,
                sum,
                input[c * input_len + source],
                weights.weight.values[c * kernel + k],
            );
        }
        k = k + 1;
    }
    sum
}

/// Convolves each channel and keeps its length.
#[verifier::spinoff_prover]
pub fn depthwise_conv1d_same_channel_major<O: FloatOps>(
    ops: &O,
    input: &[u32],
    channels: usize,
    input_len: usize,
    weights: &XasrConv1dWeights,
) -> (result: Result<Vec<u32>, String>)
    requires
        channels * input_len <= usize::MAX,
        weights.weight.dims@.len() == 3 ==> channels * weights.weight.dims@[0] <= usize::MAX
            && input_len + weights.weight.dims@[0] <= usize::MAX,
    ensures
        text_outcome(result, same_refusal(input@.len() as int, channels, input_len, *weights)),
        result is Ok ==> result->Ok_0@.len() == channels * input_len,
        result is Ok && float_ops::functional(ops) ==> result->Ok_0@ == same_rows(
            float_ops::model(ops),
            input@,
            channels as int,
            input_len as int,
            *weights,
        ),
{
    let kernel = conv1d_kernel(weights, channels)?;
    let expected = channels * input_len;
    if input.len() != expected {
        return Err(input_error("xasr conv1d same input has ", input.len(), expected));
    }
    let ghost m = float_ops::model(ops);
    let ghost at = |c: int, t: int|
        same_value(
            m,
            input@,
            input_len as int,
            *weights,
            c,
            t,
            weights.weight.dims@[0] as int,
        );
    let mut output: Vec<u32> = Vec::new();
    let mut c: usize = 0;
    assert(0 * input_len == 0) by (nonlinear_arith);
    while c < channels
        invariant
            c <= channels,
            m == float_ops::model(ops),
            at == (|c: int, t: int|
                same_value(
                    m,
                    input@,
                    input_len as int,
                    *weights,
                    c,
                    t,
                    weights.weight.dims@[0] as int,
                )),
            weights.weight.dims@.len() == 3,
            kernel == weights.weight.dims@[0],
            input_len + kernel <= usize::MAX,
            input@.len() == channels * input_len,
            weights.weight.values@.len() == channels * kernel,
            weights.bias@.len() == channels,
            output@.len() == c * input_len,
            float_ops::functional(ops) ==> forall|i: int|
                0 <= i < c * input_len ==> #[trigger] output@[i] == at(
                    i / input_len as int,
                    i % input_len as int,
                ),
        decreases channels - c,
    {
        proof {
            assert(c * input_len + input_len == (c + 1) * input_len) by (nonlinear_arith);
        }
        let mut t: usize = 0;
        while t < input_len
            invariant
                t <= input_len,
                c < channels,
                m == float_ops::model(ops),
                at == (|c: int, t: int|
                    same_value(
                        m,
                        input@,
                        input_len as int,
                        *weights,
                        c,
                        t,
                        weights.weight.dims@[0] as int,
                    )),
                weights.weight.dims@.len() == 3,
                kernel == weights.weight.dims@[0],
                input_len + kernel <= usize::MAX,
                input@.len() == channels * input_len,
                weights.weight.values@.len() == channels * kernel,
                weights.bias@.len() == channels,
                output@.len() == c * input_len + t,
                float_ops::functional(ops) ==> forall|i: int|
                    0 <= i < c * input_len + t ==> #[trigger] output@[i] == at(
                        i / input_len as int,
                        i % input_len as int,
                    ),
            decreases input_len - t,
        {
            let sum = same_sum(ops, input, input_len, weights, channels, c, t, kernel);
            proof {
                lemma_index(c as int, channels as int, t as int, input_len as int);
            }
            output.push(sum);
            t = t + 1;
        }
        c = c + 1;
    }
    proof {
        if float_ops::functional(ops) {
            lemma_is_grid(output@, channels as int, input_len as int, at);
        }
    }
    Ok(output)
}

} // verus!
