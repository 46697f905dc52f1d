//! The convolution module of a layer on the host.

use vstd::prelude::*;
use vstd::string::StringExecFns;
use crate::bits::{ONE_BITS, ZERO_BITS};
use crate::decoder::text_outcome;
use crate::encoder_tables::{scale_dims_fit, scale_value};
use crate::encoder_weights::XasrConvolutionModuleWeights;
use crate::float_ops;
use crate::float_ops::{FloatModel, FloatOps};
use crate::reference_conv::{
    depthwise_conv1d_same_channel_major, depthwise_conv1d_valid_channel_major, grid, lemma_is_grid,
    same_refusal, same_rows, valid_refusal, valid_rows,
};
use crate::reference_rows::{
    apply_linear_to_rows, apply_swoosh_r, each_row, frame_rows_refusal, lemma_index,
    lemma_row_fails, linear_rows, push_all, swooshed_r, validate_frame_rows,
};
use crate::rows;
use crate::rows::{joined, part_of, zero_seq};
use crate::text;
use crate::text::{bracketed, decimal};

verus! {

/// What a convolution module gives.
#[derive(Clone, Debug, PartialEq)]
pub struct XasrConvolutionReferenceOutput {
    /// One row for each frame.
    pub rows: Vec<u32>,
    /// The convolved channels, one row for each channel.
    pub depthwise_rows: Vec<u32>,
    /// The last inputs of each channel.
    pub new_cache: Vec<u32>,
}

/// What a convolution module gives.
pub struct ConvolutionValues {
    pub rows: Seq<u32>,
    pub depthwise: Seq<u32>,
    pub cache: Seq<u32>,
}

/// Why the mask of a module is refused.
pub open spec fn mask_len_refusal(mask: Option<Seq<bool>>, frames: usize) -> Option<Seq<char>> {
    match mask {
        Some(entries) => if entries.len() != frames {
            Some(
                "xasr convolution padding mask has "@ + decimal(entries.len())
                    + " entries, expected "@ + decimal(frames as nat),
            )
        } else {
            None
        },
        None => None,
    }
}

/// A row of twice the channels, the first half gated by the second.
pub open spec fn gated_row(
    m: FloatModel,
    weights: XasrConvolutionModuleWeights,
    row: Seq<u32>,
    dim: usize,
) -> Result<Seq<u32>, Seq<char>> {
    match (m.apply_linear)(weights.in_proj.weight, row, Some(weights.in_proj.bias@)) {
        Err(reason) => Err(reason),
        Ok(projected) => if projected.len() != 2 * dim {
            Err(
                "xasr convolution in_proj produced "@ + decimal(projected.len()) + ", expected "@
                    + decimal((2 * dim) as nat),
            )
        } else {
            Ok(
                Seq::new(
                    dim as nat,
                    |c: int| (m.mul)(projected[c], (m.sigmoid)(projected[dim + c])),
                ),
            )
        },
    }
}

/// The gated rows.
pub open spec fn gated_rows(
    m: FloatModel,
    weights: XasrConvolutionModuleWeights,
    rows: Seq<u32>,
    frames: int,
    dim: usize,
) -> Result<Seq<u32>, Seq<char>> {
    each_row(frames, |t: int| gated_row(m, weights, part_of(rows, dim as int, t), dim))
}

/// Gates a projected row, and appends it.
fn push_gated<O: FloatOps>(ops: &O, output: &mut Vec<u32>, projected: &[u32], dim: usize)
    requires
        projected@.len() == 2 * dim,
    ensures
        final(output)@.len() == old(output)@.len() + dim,
        float_ops::functional(ops) ==> final(output)@ == old(output)@ + Seq::new(
            dim as nat,
            |c: int|
                (float_ops::model(ops).mul)(
                    projected@[c],
                    (float_ops::model(ops).sigmoid)(projected@[dim + c]),
                ),
        ),
{
    let ghost start = output@;
    let ghost m = float_ops::model(ops);
    let mut c: usize = 0;
    assert(projected.len() == projected@.len());
    while c < dim
        invariant
            c <= dim,
            m == float_ops::model(ops),
            projected@.len() == 2 * dim <= usize::MAX,
            output@.len() == start.len() + c,
            forall|j: int| 0 <= j < start.len() ==> #[trigger] output@[j] == start[j],
            float_ops::functional(ops) ==> forall|j: int|
                start.len() <= j < start.len() + c ==> #[trigger] output@[j] == (m.mul)(
                    projected@[j - start.len()],
                    (m.sigmoid)(projected@[dim + (j - start.len())]),
                ),
        decreases dim - c,
    {
        let gate = ops.sigmoid(projected[dim + c]);
        output.push(ops.mul(projected[c], gate));
        c = c + 1;
    }
    proof {
        if float_ops::functional(ops) {
            assert(output@ =~= start + Seq::new(
                dim as nat,
                |c: int| (m.mul)(projected@[c], (m.sigmoid)(projected@[dim + c])),
            ));
        }
    }
}

/// Projects and gates each row.
#[verifier::spinoff_prover]
fn gate_rows<O: FloatOps>(
    ops: &O,
    weights: &XasrConvolutionModuleWeights,
    rows: &[u32],
    frames: usize,
    dim: usize,
) -> (result: Result<Vec<u32>, String>)
    requires
        rows@.len() == frames * dim,
        2 * dim <= usize::MAX,
    ensures
        result is Ok ==> result->Ok_0@.len() == frames * dim,
        float_ops::functional(ops) ==> float_ops::result_view(result) == gated_rows(
            float_ops::model(ops),
            *weights,
            rows@,
            frames as int,
            dim,
        ),
{
    let ghost m = float_ops::model(ops);
    let ghost row_of = |t: int| gated_row(m, *weights, part_of(rows@, dim as int, t), dim);
    let mut output: Vec<u32> = Vec::new();
    let mut t: usize = 0;
    assert(0 * dim == 0) by (nonlinear_arith);
    while t < frames
        invariant
            t <= frames,
            rows@.len() == frames * dim,
            2 * dim <= usize::MAX,
            m == float_ops::model(ops),
            row_of == (|t: int| gated_row(m, *weights, part_of(rows@, dim as int, t), dim)),
            output@.len() == t * dim,
            float_ops::functional(ops) ==> each_row(t as int, row_of) == Ok::<
                Seq<u32>,
                Seq<char>,
            >(output@),
        decreases frames - t,
    {
        proof {
            rows::lemma_part_bounds(t as int, frames as int, dim as int);
        }
        assert(rows.len() == rows@.len());
        let frame = vstd::slice::slice_subrange(rows, t * dim, (t + 1) * dim);
        assert(frame@ == part_of(rows@, dim as int, t as int));
        let projected = match ops.apply_linear(
            &weights.in_proj.weight,
            frame,
            Some(weights.in_proj.bias.as_slice()),
        ) {
            Ok(projected) => projected,
            Err(reason) => {
                proof {
                    if float_ops::functional(ops) {
                        assert(row_of(t as int) == Err::<Seq<u32>, Seq<char>>(reason@));
                        lemma_row_fails(t as int, frames as int, row_of);
                    }
                }
                return Err(reason);
            },
        };
        if projected.len() != 2 * dim {
            let mut reason = text::copy_text("xasr convolution in_proj produced ");
            text::push_number(&mut reason, projected.len());
            reason.append(", expected ");
            text::push_number(&mut reason, 2 * dim);
            proof {
                if float_ops::functional(ops) {
                    assert(row_of(t as int) == Err::<Seq<u32>, Seq<char>>(reason@));
                    lemma_row_fails(t as int, frames as int, row_of);
                }
            }
            return Err(reason);
        }
        let ghost before = output@;
        push_gated(ops, &mut output, projected.as_slice(), dim);
        proof {
            if float_ops::functional(ops) {
                assert(row_of(t as int) is Ok);
                assert(output@ == before + row_of(t as int)->Ok_0);
            }
        }
        t = t + 1;
    }
    Ok(output)
}

/// Whether the mask leaves frame `t` out.
pub open spec fn left_out(mask: Option<Seq<bool>>, t: int) -> bool {
    mask is Some && mask->0[t]
}

/// An optional mask by its contents.
pub open spec fn mask_view(mask: Option<&[bool]>) -> Option<Seq<bool>> {
    match mask {
        Some(entries) => Some(entries@),
        None => None,
    }
}

/// The channels of rows, with zeros for the frames left out.
pub open spec fn channel_rows(
    gated: Seq<u32>,
    frames: int,
    dim: int,
    mask: Option<Seq<bool>>,
) -> Seq<u32> {
    grid(
        dim,
        frames,
        |c: int, t: int|
            if left_out(mask, t) {
                ZERO_BITS
            } else {
                gated[t * dim + c]
            },
    )
}

/// Turns rows into channels.
#[verifier::spinoff_prover]
fn to_channels(
    gated: &[u32],
    frames: usize,
    dim: usize,
    mask: Option<&[bool]>,
) -> (output: Vec<u32>)
    requires
        gated@.len() == frames * dim,
        mask is Some ==> mask->0@.len() == frames,
    ensures
        output@ == channel_rows(gated@, frames as int, dim as int, mask_view(mask)),
        output@.len() == dim * frames,
{
    let ghost at = |c: int, t: int|
        if left_out(mask_view(mask), t) {
            ZERO_BITS
        } else {
            gated@[t * dim + c]
        };
    let mut output: Vec<u32> = Vec::new();
    let mut c: usize = 0;
    assert(0 * frames == 0) by (nonlinear_arith);
    assert(gated.len() == gated@.len());
    while c < dim
        invariant
            c <= dim,
            gated@.len() == frames * dim <= usize::MAX,
            mask is Some ==> mask->0@.len() == frames,
            at == (|c: int, t: int|
                if left_out(mask_view(mask), t) {
                    ZERO_BITS
                } else {
                    gated@[t * dim + c]
                }),
            output@.len() == c * frames,
            forall|i: int|
                0 <= i < c * frames ==> #[trigger] output@[i] == at(
                    i / frames as int,
                    i % frames as int,
                ),
        decreases dim - c,
    {
        assert(c * frames + frames == (c + 1) * frames) by (nonlinear_arith);
        let mut t: usize = 0;
        while t < frames
            invariant
                t <= frames,
                c < dim,
                gated@.len() == frames * dim <= usize::MAX,
                mask is Some ==> mask->0@.len() == frames,
                at == (|c: int, t: int|
                    if left_out(mask_view(mask), t) {
                        ZERO_BITS
                    } else {
                        gated@[t * dim + c]
                    }),
                output@.len() == c * frames + t,
                forall|i: int|
                    0 <= i < c * frames + t ==> #[trigger] output@[i] == at(
                        i / frames as int,
                        i % frames as int,
                    ),
            decreases frames - t,
        {
            let masked = match mask {
                Some(entries) => entries[t],
                None => false,
            };
            proof {
                lemma_index(t as int, frames as int, c as int, dim as int);
                lemma_index(c as int, dim as int, t as int, frames as int);
            }
            let value = if masked {
                ZERO_BITS
            } else {
                gated[t * dim + c]
            };
            output.push(value);
            t = t + 1;
        }
        c = c + 1;
    }
    proof {
        lemma_is_grid(output@, dim as int, frames as int, at);
    }
    output
}

/// Each channel of the cache, followed by that of the frames.
pub open spec fn cached_channels(
    cache: Seq<u32>,
    left_pad: int,
    channels: Seq<u32>,
    frames: int,
    dim: int,
) -> Seq<u32> {
    joined(dim, |c: int| part_of(cache, left_pad, c) + part_of(channels, frames, c))
}

/// The last `left_pad` inputs of each channel.
pub open spec fn last_inputs(cached: Seq<u32>, left_pad: int, frames: int, dim: int) -> Seq<u32> {
    joined(
        dim,
        |c: int| part_of(cached, left_pad + frames, c).subrange(frames, frames + left_pad),
    )
}

/// Puts the cache in front of the frames, channel by channel.
#[verifier::spinoff_prover]
fn with_cache(
    cache: &[u32],
    left_pad: usize,
    channels: &[u32],
    frames: usize,
    dim: usize,
) -> (output: Vec<u32>)
    requires
        cache@.len() == dim * left_pad,
        channels@.len() == dim * frames,
    ensures
        output@ == cached_channels(
            cache@,
            left_pad as int,
            channels@,
            frames as int,
            dim as int,
        ),
        output@.len() == dim * (left_pad + frames),
{
    let ghost part = |c: int|
        part_of(cache@, left_pad as int, c) + part_of(channels@, frames as int, c);
    let mut output: Vec<u32> = Vec::new();
    let mut c: usize = 0;
    assert(cache.len() == cache@.len() && channels.len() == channels@.len());
    while c < dim
        invariant
            c <= dim,
            cache@.len() == dim * left_pad <= usize::MAX,
            channels@.len() == dim * frames <= usize::MAX,
            part == (|c: int|
                part_of(cache@, left_pad as int, c) + part_of(channels@, frames as int, c)),
            output@ == joined(c as int, part),
        decreases dim - c,
    {
        proof {
            rows::lemma_part_bounds(c as int, dim as int, left_pad as int);
            rows::lemma_part_bounds(c as int, dim as int, frames as int);
        }
        let ghost before = output@;
        let old_part = vstd::slice::slice_subrange(cache, c * left_pad, (c + 1) * left_pad);
        push_all(&mut output, old_part);
        let new_part = vstd::slice::slice_subrange(channels, c * frames, (c + 1) * frames);
        push_all(&mut output, new_part);
        assert(output@ =~= before + part(c as int));
        c = c + 1;
    }
    proof {
        assert forall|c: int| 0 <= c < dim implies (#[trigger] part(c)).len() == left_pad
            + frames by {
            rows::lemma_part_bounds(c, dim as int, left_pad as int);
            rows::lemma_part_bounds(c, dim as int, frames as int);
        }
        rows::lemma_joined_len(dim as int, part, left_pad + frames);
    }
    output
}

/// Takes the last inputs of each channel.
#[verifier::spinoff_prover]
fn take_last_inputs(
    cached: &[u32],
    left_pad: usize,
    frames: usize,
    dim: usize,
) -> (output: Vec<u32>)
    requires
        left_pad + frames <= usize::MAX,
        cached@.len() == dim * (left_pad + frames),
    ensures
        output@ == last_inputs(cached@, left_pad as int, frames as int, dim as int),
        output@.len() == dim * left_pad,
{
    let width = left_pad + frames;
    let ghost part = |c: int|
        part_of(cached@, left_pad + frames, c).subrange(frames as int, frames + left_pad);
    let mut output: Vec<u32> = Vec::new();
    let mut c: usize = 0;
    assert(cached.len() == cached@.len());
    while c < dim
        invariant
            c <= dim,
            width == left_pad + frames,
            cached@.len() == dim * width <= usize::MAX,
            part == (|c: int|
                part_of(cached@, left_pad + frames, c).subrange(frames as int, frames + left_pad)),
            output@ == joined(c as int, part),
        decreases dim - c,
    {
        proof {
            rows::lemma_part_bounds(c as int, dim as int, width as int);
        }
        let from = c * width + frames;
        let taken = vstd::slice::slice_subrange(cached, from, from + left_pad);
        assert(taken@ =~= part(c as int));
        push_all(&mut output, taken);
        c = c + 1;
    }
    proof {
        assert forall|c: int| 0 <= c < dim implies (#[trigger] part(c)).len() == left_pad by {
            rows::lemma_part_bounds(c, dim as int, width as int);
        }
        rows::lemma_joined_len(dim as int, part, left_pad as int);
    }
    output
}

/// Why the scales of a module are refused.
pub open spec fn dims_refusal(weights: XasrConvolutionModuleWeights) -> Option<Seq<char>> {
    let chunk_dims = weights.depthwise_chunkwise_conv.weight.dims@;
    if !scale_dims_fit(weights) {
        Some(
            "xasr chunkwise_conv_scale has dims "@ + bracketed(weights.chunkwise_conv_scale.dims@)
                + ", expected [2, "@ + decimal(chunk_dims[2] as nat) + ", "@ + decimal(
                chunk_dims[0] as nat,
            ) + "]"@,
        )
    } else {
        None
    }
}

/// The scale of a frame of a channel in a chunk.
#[verifier::spinoff_prover]
pub fn chunkwise_conv_scale<O: FloatOps>(
    ops: &O,
    weights: &XasrConvolutionModuleWeights,
    channel: usize,
    frame: usize,
    chunk_size: usize,
) -> (result: Result<u32, String>)
    requires
        frame < chunk_size,
        weights.depthwise_chunkwise_conv.weight.dims@.len() >= 3,
        channel < weights.depthwise_chunkwise_conv.weight.dims@[2],
        scale_dims_fit(*weights) ==> weights.chunkwise_conv_scale.values@.len() >= 2
            * weights.depthwise_chunkwise_conv.weight.dims@[2]
            * weights.depthwise_chunkwise_conv.weight.dims@[0],
    ensures
        text_outcome(result, dims_refusal(*weights)),
        result is Ok && float_ops::functional(ops) ==> result->Ok_0 == scale_value(
            float_ops::model(ops),
            *weights,
            channel as int,
            frame as int,
            chunk_size as int,
        ),
{
    let dims = &weights.chunkwise_conv_scale.dims;
    let chunk_dims = &weights.depthwise_chunkwise_conv.weight.dims;
    let fits = dims.len() == 3 && dims[0] == 2 && dims[1] == chunk_dims[2] && dims[2]
        == chunk_dims[0];
    proof {
        if fits {
            assert(dims@ =~= seq![2usize, chunk_dims@[2], chunk_dims@[0]]);
        }
    }
    if !fits {
        let mut reason = text::copy_text("xasr chunkwise_conv_scale has dims ");
        text::push_bracketed(&mut reason, dims.as_slice());
        reason.append(", expected [2, ");
        text::push_number(&mut reason, chunk_dims[2]);
        reason.append(", ");
        text::push_number(&mut reason, chunk_dims[0]);
        reason.append("]");
        return Err(reason);
    }
    let channels = dims[1];
    let kernel = dims[2];
    let values = &weights.chunkwise_conv_scale.values;
    assert(values.len() == values@.len());
    proof {
        assert(2 * channels * kernel == channels * kernel + channels * kernel) by (nonlinear_arith);
        assert(0 <= channels * kernel) by (nonlinear_arith);
        rows::lemma_part_bounds(channel as int, channels as int, kernel as int);
    }
    let left = if frame < kernel {
        values[channel * kernel + frame]
    } else {
        ZERO_BITS
    };
    let right_base = channels * kernel;
    let right = if chunk_size < kernel {
        values[right_base + channel * kernel + (kernel - chunk_size + frame)]
    } else {
        let pad = chunk_size - kernel;
        if frame >= pad {
            values[right_base + channel * kernel + (frame - pad)]
        } else {
            ZERO_BITS
        }
    };
    let shifted = ops.add(ONE_BITS, left);
    Ok(ops.add(shifted, right))
}

/// The convolved channels: the causal part plus the scaled chunk part.
pub open spec fn mixed_channels(
    m: FloatModel,
    weights: XasrConvolutionModuleWeights,
    causal: Seq<u32>,
    chunk: Seq<u32>,
    frames: int,
    dim: int,
) -> Seq<u32> {
    grid(
        dim,
        frames,
        |c: int, t: int|
            (m.add)(
                causal[c * frames + t],
                (m.mul)(chunk[c * frames + t], scale_value(m, weights, c, t, frames)),
            ),
    )
}

/// Adds the causal and the scaled chunk part.
#[verifier::spinoff_prover]
fn mix_channels<O: FloatOps>(
    ops: &O,
    weights: &XasrConvolutionModuleWeights,
    causal: &[u32],
    chunk: &[u32],
    frames: usize,
    dim: usize,
) -> (result: Result<Vec<u32>, String>)
    requires
        weights.depthwise_chunkwise_conv.weight.dims@.len() >= 3,
        dim == weights.depthwise_chunkwise_conv.weight.dims@[2],
        scale_dims_fit(*weights) ==> weights.chunkwise_conv_scale.values@.len() >= 2
            * weights.depthwise_chunkwise_conv.weight.dims@[2]
            * weights.depthwise_chunkwise_conv.weight.dims@[0],
        causal@.len() >= dim * frames,
        chunk@.len() == dim * frames,
    ensures
        text_outcome(
            result,
            if dim > 0 && frames > 0 {
                dims_refusal(*weights)
            } else {
                None
            },
        ),
        result is Ok ==> result->Ok_0@.len() == dim * frames,
        result is Ok && float_ops::functional(ops) ==> result->Ok_0@ == mixed_channels(
            float_ops::model(ops),
            *weights,
            causal@,
            chunk@,
            frames as int,
            dim as int,
        ),
{
    let ghost m = float_ops::model(ops);
    let ghost at = |c: int, t: int|
        (m.add)(
            causal@[c * frames + t],
            (m.mul)(chunk@[c * frames + t], scale_value(m, *weights, c, t, frames as int)),
        );
    let mut output: Vec<u32> = Vec::new();
    let mut c: usize = 0;
    assert(0 * frames == 0) by (nonlinear_arith);
    assert(chunk.len() == chunk@.len());
    while c < dim
        invariant
            c <= dim,
            m == float_ops::model(ops),
            at == (|c: int, t: int|
                (m.add)(
                    causal@[c * frames + t],
                    (m.mul)(chunk@[c * frames + t], scale_value(m, *weights, c, t, frames as int)),
                )),
            weights.depthwise_chunkwise_conv.weight.dims@.len() >= 3,
            dim == weights.depthwise_chunkwise_conv.weight.dims@[2],
            scale_dims_fit(*weights) ==> weights.chunkwise_conv_scale.values@.len() >= 2
                * weights.depthwise_chunkwise_conv.weight.dims@[2]
                * weights.depthwise_chunkwise_conv.weight.dims@[0],
            causal@.len() >= dim * frames,
            chunk@.len() == dim * frames <= usize::MAX,
            c > 0 && frames > 0 ==> dims_refusal(*weights) is None,
            output@.len() == c * frames,
            float_ops::functional(ops) ==> forall|i: int|
                0 <= i < c * frames ==> #[trigger] output@[i] == at(
                    i / frames as int,
                    i % frames as int,
                ),
        decreases dim - c,
    {
        assert(c * frames + frames == (c + 1) * frames) by (nonlinear_arith);
        let mut t: usize = 0;
        while t < frames
            invariant
                t <= frames,
                c < dim,
                m == float_ops::model(ops),
                at == (|c: int, t: int|
                    (m.add)(
                        causal@[c * frames + t],
                        (m.mul)(
                            chunk@[c * frames + t],
                            scale_value(m, *weights, c, t, frames as int),
                        ),
                    )),
                weights.depthwise_chunkwise_conv.weight.dims@.len() >= 3,
                dim == weights.depthwise_chunkwise_conv.weight.dims@[2],
                scale_dims_fit(*weights) ==> weights.chunkwise_conv_scale.values@.len() >= 2
                    * weights.depthwise_chunkwise_conv.weight.dims@[2]
                    * weights.depthwise_chunkwise_conv.weight.dims@[0],
                causal@.len() >= dim * frames,
                chunk@.len() == dim * frames <= usize::MAX,
                t > 0 ==> dims_refusal(*weights) is None,
                output@.len() == c * frames + t,
                float_ops::functional(ops) ==> forall|i: int|
                    0 <= i < c * frames + t ==> #[trigger] output@[i] == at(
                        i / frames as int,
                        i % frames as int,
                    ),
            decreases frames - t,
        {
            let scale = chunkwise_conv_scale(ops, weights, c, t, frames)?;
            proof {
                lemma_index(c as int, dim as int, t as int, frames as int);
            }
            let index = c * frames + t;
            let scaled = ops.mul(chunk[index], scale);
            output.push(ops.add(causal[index], scaled));
            t = t + 1;
        }
        c = c + 1;
    }
    proof {
        if float_ops::functional(ops) {
            lemma_is_grid(output@, dim as int, frames as int, at);
        }
    }
    Ok(output)
}

/// Why the cache of a module is refused.
pub open spec fn conv_cache_refusal(
    cache: Option<Seq<u32>>,
    dim: int,
    left_pad: int,
) -> Option<Seq<char>> {
    match cache {
        Some(values) => if values.len() != dim * left_pad {
            Some(
                "xasr convolution cache has "@ + decimal(values.len()) + " values, expected "@
                    + decimal((dim * left_pad) as nat),
            )
        } else {
            None
        },
        None => None,
    }
}

/// What a cache holds: zeros where there is none.
pub open spec fn cache_or_zeros(cache: Option<Seq<u32>>, len: int) -> Seq<u32> {
    match cache {
        Some(values) => values,
        None => zero_seq(len as nat),
    }
}

/// Copies a cache, or makes one of zeros.
pub fn copy_cache(cache: Option<&[u32]>, len: usize) -> (copy: Vec<u32>)
    ensures
        copy@ == cache_or_zeros(float_ops::option_view(cache), len as int),
{
    match cache {
        Some(values) => {
            let mut copy: Vec<u32> = Vec::new();
            push_all(&mut copy, values);
            assert(copy@ =~= values@);
            copy
        },
        None => rows::zeros(len),
    }
}

/// What stands before the output projection of a module.
pub struct ConvolutionParts {
    pub channels: Seq<u32>,
    pub cached: Seq<u32>,
}

/// The channels of the gated rows, alone and behind the cache.
pub open spec fn convolution_parts(
    gated: Seq<u32>,
    cache: Option<Seq<u32>>,
    mask: Option<Seq<bool>>,
    left_pad: int,
    frames: int,
    dim: int,
) -> ConvolutionParts {
    let channels = channel_rows(gated, frames, dim, mask);
    ConvolutionParts {
        channels,
        cached: cached_channels(
            cache_or_zeros(cache, dim * left_pad),
            left_pad,
            channels,
            frames,
            dim,
        ),
    }
}

/// The convolved channels, or why there are none.
pub open spec fn convolved(
    m: FloatModel,
    weights: XasrConvolutionModuleWeights,
    parts: ConvolutionParts,
    left_pad: int,
    frames: usize,
    dim: usize,
) -> Result<Seq<u32>, Seq<char>> {
    let valid = valid_refusal(
        parts.cached.len() as int,
        dim,
        (left_pad + frames) as usize,
        weights.depthwise_causal_conv,
    );
    let same = same_refusal(
        parts.channels.len() as int,
        dim,
        frames,
        weights.depthwise_chunkwise_conv,
    );
    if valid is Some {
        Err(valid->0)
    } else if same is Some {
        Err(same->0)
    } else if dim > 0 && frames > 0 && dims_refusal(weights) is Some {
        Err(dims_refusal(weights)->0)
    } else {
        Ok(
            mixed_channels(
                m,
                weights,
                valid_rows(
                    m,
                    parts.cached,
                    dim as int,
                    left_pad + frames,
                    weights.depthwise_causal_conv,
                ),
                same_rows(
                    m,
                    parts.channels,
                    dim as int,
                    frames as int,
                    weights.depthwise_chunkwise_conv,
                ),
                frames as int,
                dim as int,
            ),
        )
    }
}

/// What a module gives, or why it fails.
pub open spec fn convolution_values(
    m: FloatModel,
    weights: XasrConvolutionModuleWeights,
    rows: Seq<u32>,
    frames: usize,
    dim: usize,
    cache: Option<Seq<u32>>,
    mask: Option<Seq<bool>>,
) -> Result<ConvolutionValues, Seq<char>> {
    let left_pad = (weights.depthwise_chunkwise_conv.weight.dims@[0] / 2) as int;
    if frame_rows_refusal(rows.len() as int, frames, dim, "convolution module input"@) is Some {
        Err(frame_rows_refusal(rows.len() as int, frames, dim, "convolution module input"@)->0)
    } else if mask_len_refusal(mask, frames) is Some {
        Err(mask_len_refusal(mask, frames)->0)
    } else {
        match gated_rows(m, weights, rows, frames as int, dim) {
            Err(reason) => Err(reason),
            Ok(gated) => {
                let parts = convolution_parts(
                    gated,
                    cache,
                    mask,
                    left_pad,
                    frames as int,
                    dim as int,
                );
                if conv_cache_refusal(cache, dim as int, left_pad) is Some {
                    Err(conv_cache_refusal(cache, dim as int, left_pad)->0)
                } else {
                    match convolved(m, weights, parts, left_pad, frames, dim) {
                        Err(reason) => Err(reason),
                        Ok(depthwise) => match linear_rows(
                            m,
                            weights.out_proj,
                            swooshed_r(
                                m,
                                channel_rows(depthwise, dim as int, frames as int, None),
                            ),
                            frames,
                            dim,
                        ) {
                            Err(reason) => Err(reason),
                            Ok(out) => Ok(
                                ConvolutionValues {
                                    rows: out,
                                    depthwise,
                                    cache: last_inputs(
                                        parts.cached,
                                        left_pad,
                                        frames as int,
                                        dim as int,
                                    ),
                                },
                            ),
                        },
                    }
                }
            },
        }
    }
}

/// A module can run on chunks of `frames` frames: its sizes can be counted, its
/// causal kernel fits the cache, and it holds all of its scales.
pub open spec fn convolution_can_run(
    weights: XasrConvolutionModuleWeights,
    frames: usize,
    dim: usize,
) -> bool {
    let chunk_dims = weights.depthwise_chunkwise_conv.weight.dims@;
    let causal_dims = weights.depthwise_causal_conv.weight.dims@;
    let left_pad = (chunk_dims[0] / 2) as int;
    &&& frames * dim <= usize::MAX
    &&& 2 * dim <= usize::MAX
    &&& chunk_dims.len() > 0
    &&& left_pad + frames < usize::MAX
    &&& dim * left_pad <= usize::MAX
    &&& dim * (left_pad + frames) <= usize::MAX
    &&& causal_dims.len() == 3 ==> dim * causal_dims[0] <= usize::MAX && (causal_dims[0] <= left_pad
        + 1 || causal_dims[0] > left_pad + frames)
    &&& chunk_dims.len() == 3 ==> dim * chunk_dims[0] <= usize::MAX && frames + chunk_dims[0]
        <= usize::MAX
    &&& chunk_dims.len() >= 3 && scale_dims_fit(weights)
        ==> weights.chunkwise_conv_scale.values@.len() >= 2 * chunk_dims[2] * chunk_dims[0]
}

/// Runs a convolution module on a chunk.
#[verifier::spinoff_prover]
#[verifier::rlimit(40)]
pub fn convolution_module_streaming_reference<O: FloatOps>(
    ops: &O,
    weights: &XasrConvolutionModuleWeights,
    rows: &[u32],
    frames: usize,
    dim: usize,
    cache: Option<&[u32]>,
    padding_mask: Option<&[bool]>,
) -> (result: Result<XasrConvolutionReferenceOutput, String>)
    requires
        dim > 0 || rows@.len() > 0,
        convolution_can_run(*weights, frames, dim),
    ensures
        result is Ok ==> {
            let left_pad = (weights.depthwise_chunkwise_conv.weight.dims@[0] / 2) as int;
            &&& result->Ok_0.depthwise_rows@.len() == dim * frames
            &&& result->Ok_0.new_cache@.len() == dim * left_pad
            &&& float_ops::sized(ops) ==> result->Ok_0.rows@.len() == frames
                * weights.out_proj.weight.output_dim
        },
        frame_rows_refusal(rows@.len() as int, frames, dim, "convolution module input"@) is Some
            ==> text_outcome(
            result,
            frame_rows_refusal(rows@.len() as int, frames, dim, "convolution module input"@),
        ),
        float_ops::functional(ops) ==> match convolution_values(
            float_ops::model(ops),
            *weights,
            rows@,
            frames,
            dim,
            float_ops::option_view(cache),
            mask_view(padding_mask),
        ) {
            Ok(values) => {
                &&& result is Ok
                &&& result->Ok_0.rows@ == values.rows
                &&& result->Ok_0.depthwise_rows@ == values.depthwise
                &&& result->Ok_0.new_cache@ == values.cache
            },
            Err(reason) => result is Err && result->Err_0@ == reason,
        },
{
    match validate_frame_rows(rows, frames, dim, "convolution module input") {
        Ok(_) => {},
        Err(reason) => return Err(reason),
    }
    match padding_mask {
        Some(mask) => {
            if mask.len() != frames {
                let mut reason = text::copy_text("xasr convolution padding mask has ");
                text::push_number(&mut reason, mask.len());
                reason.append(" entries, expected ");
                text::push_number(&mut reason, frames);
                return Err(reason);
            }
        },
        None => {},
    }
    let gated = gate_rows(ops, weights, rows, frames, dim)?;
    let channel_major = to_channels(gated.as_slice(), frames, dim, padding_mask);
    let kernel = weights.depthwise_chunkwise_conv.weight.dims[0];
    let left_pad = kernel / 2;
    let expected_cache_len = dim * left_pad;
    match cache {
        Some(values) => {
            if values.len() != expected_cache_len {
                let mut reason = text::copy_text("xasr convolution cache has ");
                text::push_number(&mut reason, values.len());
                reason.append(" values, expected ");
                text::push_number(&mut reason, expected_cache_len);
                return Err(reason);
            }
        },
        None => {},
    }
    let old_cache = copy_cache(cache, expected_cache_len);
    let cached_input = with_cache(
        old_cache.as_slice(),
        left_pad,
        channel_major.as_slice(),
        frames,
        dim,
    );
    let new_cache = take_last_inputs(cached_input.as_slice(), left_pad, frames, dim);
    let causal = depthwise_conv1d_valid_channel_major(
        ops,
        cached_input.as_slice(),
        dim,
        left_pad + frames,
        &weights.depthwise_causal_conv,
    )?;
    proof {
        let causal_len = left_pad + frames - weights.depthwise_causal_conv.weight.dims@[0] + 1;
        assert(dim * frames <= dim * causal_len) by (nonlinear_arith)
            requires
                frames <= causal_len,
                0 <= dim,
        ;
        assert(frames * dim == dim * frames) by (nonlinear_arith);
    }
    let chunk = depthwise_conv1d_same_channel_major(
        ops,
        channel_major.as_slice(),
        dim,
        frames,
        &weights.depthwise_chunkwise_conv,
    )?;
    let depthwise_rows = mix_channels(ops, weights, causal.as_slice(), chunk.as_slice(), frames, dim)?;
    let mut transposed = to_channels(depthwise_rows.as_slice(), dim, frames, None);
    apply_swoosh_r(ops, &mut transposed);
    let output = apply_linear_to_rows(ops, &weights.out_proj, transposed.as_slice(), frames, dim)?;
    Ok(XasrConvolutionReferenceOutput { rows: output, depthwise_rows, new_cache })
}

} // verus!
