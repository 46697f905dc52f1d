//! What the stages of the encoder compute, as formulas over tensor values.

use vstd::prelude::*;
use crate::bits;
use crate::tensor_value::{ConvParams, TensorValue, ELEMENT_BYTES};

verus! {

/// Slope of the linear part of the Swoosh activations (0.08).
pub const SWOOSH_LINEAR_SCALE: u32 = 0x3da3_d70a;

/// A linear layer: each row of `x` times the weight matrix, plus the bias.
pub open spec fn linear(weight: TensorValue, x: TensorValue, bias: TensorValue) -> TensorValue {
    weight.mul_mat(x).plus(bias)
}

/// `softplus(x - offset) - 0.08 x - shift`.
pub open spec fn swoosh(x: TensorValue, offset: TensorValue, shift: TensorValue) -> TensorValue {
    x.minus(offset).softplus().minus(x.scaled(SWOOSH_LINEAR_SCALE)).minus(shift)
}

/// `x / sqrt(mean((x - bias)^2)) * exp(log_scale)`, with the mean along a row.
pub open spec fn bias_norm(x: TensorValue, bias: TensorValue, log_scale: u32) -> TensorValue {
    x.over(x.minus(bias).squared().mean_rows().square_root()).scaled_by_exp(log_scale)
}

/// `original + scale * (current - original)`.
pub open spec fn bypass(
    original: TensorValue,
    current: TensorValue,
    scale: TensorValue,
) -> TensorValue {
    original.plus(current.minus(original).times(scale))
}

/// Columns `start..end` of each row of `dim` elements.
pub open spec fn columns(
    x: TensorValue,
    dim: int,
    frames: int,
    start: int,
    end: int,
) -> TensorValue {
    x.window(end - start, frames, dim * ELEMENT_BYTES, start * ELEMENT_BYTES)
}

/// Rows `first..first + count` of a matrix with rows of `dim` elements.
pub open spec fn frame_range(x: TensorValue, dim: int, first: int, count: int) -> TensorValue {
    x.window(dim, count, dim * ELEMENT_BYTES, first * (dim * ELEMENT_BYTES))
}

/// Each row repeated `factor` times, up to `target` rows.
pub open spec fn upsampled(x: TensorValue, dim: int, factor: int, target: int) -> TensorValue
    decreases target,
{
    let last = frame_range(x, dim, (target - 1) / factor, 1);
    if target <= 1 {
        last
    } else {
        upsampled(x, dim, factor, target - 1).concat(last, 1)
    }
}

/// Every `factor`-th row from row `index`, times weight `index`.
pub open spec fn weighted_phase(
    padded: TensorValue,
    weights: Seq<u32>,
    dim: int,
    factor: int,
    out_frames: int,
    index: int,
) -> TensorValue {
    padded.window(
        dim,
        out_frames,
        (dim * ELEMENT_BYTES) * factor,
        index * (dim * ELEMENT_BYTES),
    ).scaled(weights[index])
}

/// The sum of the first `count` weighted phases.
pub open spec fn phase_sum(
    padded: TensorValue,
    weights: Seq<u32>,
    dim: int,
    factor: int,
    out_frames: int,
    count: int,
) -> TensorValue
    decreases count,
{
    let last = weighted_phase(padded, weights, dim, factor, out_frames, count - 1);
    if count <= 1 {
        last
    } else {
        phase_sum(padded, weights, dim, factor, out_frames, count - 1).plus(last)
    }
}

/// The softmax of the logits is a list of finite numbers: no logit is a NaN or
/// positive infinity, and one is finite.
pub open spec fn softmax_defined(logits: Seq<u32>) -> bool {
    &&& forall|i: int| 0 <= i < logits.len() ==> !bits::nan(#[trigger] logits[i])
        && logits[i] != bits::INFINITY_BITS
    &&& exists|i: int| 0 <= i < logits.len() && bits::finite(#[trigger] logits[i])
}

/// Rows of `input_dim` elements cut or extended to `target_dim`.
pub open spec fn resized(
    x: TensorValue,
    pad: TensorValue,
    frames: int,
    input_dim: int,
    target_dim: int,
) -> TensorValue {
    if target_dim > input_dim {
        x.concat(pad, 0)
    } else if target_dim < input_dim {
        x.window(target_dim, frames, input_dim * ELEMENT_BYTES, 0)
    } else {
        x
    }
}

/// Rows extended to a multiple of the factor.
pub open spec fn frame_padded(
    x: TensorValue,
    pad: TensorValue,
    frames: int,
    padded_frames: int,
) -> TensorValue {
    if padded_frames > frames {
        x.concat(pad, 1)
    } else {
        x.cont()
    }
}

/// A convolution with bias.
pub open spec fn conv_with_bias(
    kernel: TensorValue,
    input: TensorValue,
    bias: TensorValue,
    out_channels: int,
    params: ConvParams,
) -> TensorValue {
    kernel.conv_2d(input, params).plus(bias.reshaped(1, 1, out_channels, 1))
}

/// A convolution that keeps channels apart, with bias.
pub open spec fn depthwise_with_bias(
    kernel: TensorValue,
    input: TensorValue,
    bias: TensorValue,
    channels: int,
    params: ConvParams,
) -> TensorValue {
    kernel.depthwise_conv_2d(input, params).plus(bias.reshaped(1, 1, channels, 1))
}

/// A one-dimensional convolution of each channel, channels major.
pub open spec fn depthwise_1d(
    input: TensorValue,
    kernel: TensorValue,
    bias: TensorValue,
    channels: int,
    input_len: int,
    kernel_len: int,
    params: ConvParams,
) -> TensorValue {
    depthwise_with_bias(
        kernel.reshaped(kernel_len, 1, 1, channels),
        input.reshaped(input_len, 1, channels, 1),
        bias,
        channels,
        params,
    )
}

/// A projection to twice `dim` columns, the first half gated by the second.
pub open spec fn gated_projection(
    x: TensorValue,
    weight: TensorValue,
    bias: TensorValue,
    dim: int,
    frames: int,
) -> TensorValue {
    let projected = linear(weight, x, bias);
    let stride = (dim * 2) * ELEMENT_BYTES;
    projected.window(dim, frames, stride, 0).times(
        projected.window(dim, frames, stride, dim * ELEMENT_BYTES).sigmoid(),
    )
}

/// What one attention head picks from the values.
pub open spec fn attended_head(
    values: TensorValue,
    attention: TensorValue,
    frames: int,
    k_len: int,
    value_dim: int,
    head_dim: int,
    head: int,
) -> TensorValue {
    values.window(
        head_dim,
        k_len,
        value_dim * ELEMENT_BYTES,
        (head * head_dim) * ELEMENT_BYTES,
    ).transposed()
        .cont().mul_mat(
        attention.strided(
            k_len,
            frames,
            1,
            1,
            k_len * ELEMENT_BYTES,
            (k_len * ELEMENT_BYTES) * frames,
            (k_len * ELEMENT_BYTES) * frames,
            head * ((frames * k_len) * ELEMENT_BYTES),
        ),
    ).cont()
}

/// The first `heads` attended heads side by side.
pub open spec fn attended_heads(
    values: TensorValue,
    attention: TensorValue,
    frames: int,
    k_len: int,
    value_dim: int,
    head_dim: int,
    heads: int,
) -> TensorValue
    decreases heads,
{
    let last = attended_head(values, attention, frames, k_len, value_dim, head_dim, heads - 1);
    if heads <= 1 {
        last
    } else {
        attended_heads(values, attention, frames, k_len, value_dim, head_dim, heads - 1).concat(last, 0)
    }
}

/// Scores of the keys against the query at frame `target` by relative position:
/// the keys meet the position embeddings from `frames - 1 - target` on.
pub open spec fn position_column(
    positions: TensorValue,
    p_head: TensorValue,
    frames: int,
    k_len: int,
    pos_output_dim: int,
    pos_head_dim: int,
    head: int,
    target: int,
) -> TensorValue {
    positions.window(
        pos_head_dim,
        k_len,
        pos_output_dim * ELEMENT_BYTES,
        ((frames - 1 - target) * pos_output_dim + head * pos_head_dim) * ELEMENT_BYTES,
    ).mul_mat(
        p_head.window(
            pos_head_dim,
            1,
            pos_head_dim * ELEMENT_BYTES,
            target * (pos_head_dim * ELEMENT_BYTES),
        ),
    ).cont()
}

/// The first `targets` position columns, one row for each frame.
pub open spec fn position_columns(
    positions: TensorValue,
    p_head: TensorValue,
    frames: int,
    k_len: int,
    pos_output_dim: int,
    pos_head_dim: int,
    head: int,
    targets: int,
) -> TensorValue
    decreases targets,
{
    let last = position_column(
        positions,
        p_head,
        frames,
        k_len,
        pos_output_dim,
        pos_head_dim,
        head,
        targets - 1,
    );
    if targets <= 1 {
        last
    } else {
        position_columns(
            positions,
            p_head,
            frames,
            k_len,
            pos_output_dim,
            pos_head_dim,
            head,
            targets - 1,
        ).concat(last, 1)
    }
}

} // verus!
