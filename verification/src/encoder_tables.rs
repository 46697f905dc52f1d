//! Constant tables that the encoder layers need: attention masks, position
//! embeddings and the scales of chunkwise convolutions.

use vstd::prelude::*;
use vstd::string::StringExecFns;
use crate::bits::{MINUS_THOUSAND_BITS, ONE_BITS, ZERO_BITS};
use crate::encoder_error::{shape_error, XasrEncoderGraphError};
use crate::encoder_weights::XasrConvolutionModuleWeights;
use crate::float_ops;
use crate::float_ops::{FloatModel, FloatOps};
use crate::rows;
use crate::rows::joined;
use crate::text;
use crate::text::decimal;

verus! {

/// The outcome of a computation that may fail with a shape error.
pub open spec fn shape_outcome<T>(
    result: Result<T, XasrEncoderGraphError>,
    refusal: Option<Seq<char>>,
) -> bool {
    match refusal {
        Some(reason) => result is Err && result->Err_0.is_shape(reason),
        None => result is Ok,
    }
}

/// Why a key padding mask is refused.
pub open spec fn mask_refusal(
    left_context_len: usize,
    valid_left_context_len: usize,
) -> Option<Seq<char>> {
    if valid_left_context_len > left_context_len {
        Some(
            "xasr attention valid left context "@ + decimal(valid_left_context_len as nat)
                + " exceeds "@ + decimal(left_context_len as nat),
        )
    } else {
        None
    }
}

/// Whether the key at `position` is padding: the oldest cached frames that hold
/// nothing yet.
pub open spec fn is_masked(
    left_context_len: int,
    valid_left_context_len: int,
    position: int,
) -> bool {
    position < left_context_len - valid_left_context_len
}

/// Marks the cached keys that hold nothing yet.
pub fn streaming_key_padding_mask(
    left_context_len: usize,
    frames: usize,
    valid_left_context_len: usize,
) -> (result: Result<Vec<bool>, String>)
    requires
        valid_left_context_len <= left_context_len ==> left_context_len + frames <= usize::MAX,
    ensures
        match mask_refusal(left_context_len, valid_left_context_len) {
            Some(reason) => result is Err && result->Err_0@ == reason,
            None => {
                &&& result is Ok
                &&& result->Ok_0@ == Seq::new(
                    (left_context_len + frames) as nat,
                    |i: int|
                        is_masked(left_context_len as int, valid_left_context_len as int, i),
                )
            },
        },
{
    if valid_left_context_len > left_context_len {
        let mut reason = text::copy_text("xasr attention valid left context ");
        text::push_number(&mut reason, valid_left_context_len);
        reason.append(" exceeds ");
        text::push_number(&mut reason, left_context_len);
        return Err(reason);
    }
    let mut mask: Vec<bool> = vec![false; left_context_len + frames];
    let masked_left = left_context_len - valid_left_context_len;
    let mut i: usize = 0;
    while i < masked_left
        invariant
            i <= masked_left <= mask@.len(),
            mask@.len() == left_context_len + frames,
            forall|j: int| 0 <= j < mask@.len() ==> mask@[j] == (j < i),
        decreases masked_left - i,
    {
        mask.set(i, true);
        i = i + 1;
    }
    assert(mask@ =~= Seq::new(
        (left_context_len + frames) as nat,
        |i: int| is_masked(left_context_len as int, valid_left_context_len as int, i),
    ));
    Ok(mask)
}

/// Why an attention mask is refused.
pub open spec fn attention_mask_refusal(
    left_context_len: usize,
    frames: usize,
    valid_left_context: usize,
) -> Option<Seq<char>> {
    if mask_refusal(left_context_len, valid_left_context) is Some {
        mask_refusal(left_context_len, valid_left_context)
    } else if left_context_len + frames > usize::MAX {
        Some("xasr stack0 key length overflows"@)
    } else if frames * (left_context_len + frames) > usize::MAX {
        Some("xasr stack0 attention mask length overflows"@)
    } else {
        None
    }
}

/// The attention mask of one frame: minus one thousand for padding, else zero.
pub open spec fn mask_row(left_context_len: int, frames: int, valid_left_context: int) -> Seq<u32> {
    Seq::new(
        (left_context_len + frames) as nat,
        |i: int|
            if is_masked(left_context_len, valid_left_context, i) {
                MINUS_THOUSAND_BITS
            } else {
                ZERO_BITS
            },
    )
}

/// The attention mask of all frames.
pub open spec fn attention_mask(
    left_context_len: int,
    frames: int,
    valid_left_context: int,
) -> Seq<u32> {
    joined(frames, |t: int| mask_row(left_context_len, frames, valid_left_context))
}

/// The attention mask: one row for each frame, one column for each key.
pub fn attention_mask_values_for_graph(
    left_context_len: usize,
    frames: usize,
    valid_left_context: usize,
) -> (result: Result<Vec<u32>, XasrEncoderGraphError>)
    ensures
        shape_outcome(
            result,
            attention_mask_refusal(left_context_len, frames, valid_left_context),
        ),
        result is Ok ==> result->Ok_0@ == attention_mask(
            left_context_len as int,
            frames as int,
            valid_left_context as int,
        ),
{
    if valid_left_context <= left_context_len && left_context_len > usize::MAX - frames {
        return Err(shape_error("xasr stack0 key length overflows"));
    }
    let key_padding_mask = match streaming_key_padding_mask(
        left_context_len,
        frames,
        valid_left_context,
    ) {
        Ok(mask) => mask,
        Err(reason) => return Err(XasrEncoderGraphError::Shape { reason }),
    };
    let k_len = left_context_len + frames;
    if frames.checked_mul(k_len).is_none() {
        return Err(shape_error("xasr stack0 attention mask length overflows"));
    }
    let ghost row = mask_row(left_context_len as int, frames as int, valid_left_context as int);
    let ghost part = |t: int|
        mask_row(left_context_len as int, frames as int, valid_left_context as int);
    let mut mask_values: Vec<u32> = Vec::new();
    let mut target: usize = 0;
    while target < frames
        invariant
            target <= frames,
            k_len == left_context_len + frames,
            key_padding_mask@ == Seq::new(
                k_len as nat,
                |i: int| is_masked(left_context_len as int, valid_left_context as int, i),
            ),
            row == mask_row(left_context_len as int, frames as int, valid_left_context as int),
            part == (|t: int|
                mask_row(left_context_len as int, frames as int, valid_left_context as int)),
            mask_values@ == joined(target as int, part),
        decreases frames - target,
    {
        let mut source: usize = 0;
        while source < k_len
            invariant
                source <= k_len,
                k_len == left_context_len + frames,
                key_padding_mask@ == Seq::new(
                    k_len as nat,
                    |i: int| is_masked(left_context_len as int, valid_left_context as int, i),
                ),
                row == mask_row(left_context_len as int, frames as int, valid_left_context as int),
                mask_values@ == joined(target as int, part) + row.take(source as int),
            decreases k_len - source,
        {
            mask_values.push(
                if key_padding_mask[source] {
                    MINUS_THOUSAND_BITS
                } else {
                    ZERO_BITS
                },
            );
            source = source + 1;
            assert(row.take(source as int) =~= row.take(source - 1).push(row[source - 1]));
        }
        target = target + 1;
        assert(row.take(k_len as int) =~= part(target - 1));
    }
    Ok(mask_values)
}

/// Why a position embedding is refused.
pub open spec fn position_refusal(
    frames: usize,
    left_context_len: usize,
    embed_dim: usize,
) -> Option<Seq<char>> {
    let seq_end = left_context_len + frames * 2;
    if embed_dim % 2 != 0 {
        Some("xasr relative positional encoding dim must be even"@)
    } else if frames + left_context_len > usize::MAX {
        Some("xasr relative positional context overflows"@)
    } else if seq_end > usize::MAX || seq_end == 0 {
        Some("xasr relative positional sequence length overflows"@)
    } else if (seq_end - 1) * embed_dim > usize::MAX {
        Some("xasr relative positional output length overflows"@)
    } else {
        None
    }
}

/// The embedding of the relative position `offset`: cosines and sines of the
/// multiples of its angle, and a constant in the last place.
pub open spec fn position_row(m: FloatModel, embed_dim: int, offset: int) -> Seq<u32> {
    let angle = (m.position_angle)(embed_dim, offset);
    Seq::new(
        embed_dim as nat,
        |j: int|
            if j == embed_dim - 1 {
                ONE_BITS
            } else if j % 2 == 0 {
                (m.cos_multiple)(angle, j / 2 + 1)
            } else {
                (m.sin_multiple)(angle, j / 2 + 1)
            },
    )
}

/// The embeddings of all relative positions, from the farthest past on.
pub open spec fn position_table(
    m: FloatModel,
    frames: int,
    left_context_len: int,
    embed_dim: int,
) -> Seq<u32> {
    joined(
        left_context_len + frames * 2 - 1,
        |row: int| position_row(m, embed_dim, row - (frames + left_context_len - 1)),
    )
}

fn push_position_row<O: FloatOps>(ops: &O, output: &mut Vec<u32>, embed_dim: usize, offset: i128)
    requires
        embed_dim > 0,
        embed_dim % 2 == 0,
        old(output)@.len() + embed_dim <= usize::MAX,
    ensures
        final(output)@.len() == old(output)@.len() + embed_dim,
        float_ops::functional(ops) ==> final(output)@ == old(output)@ + position_row(
            float_ops::model(ops),
            embed_dim as int,
            offset as int,
        ),
{
    let ghost m = float_ops::model(ops);
    let ghost start = output@;
    let angle = ops.position_angle(embed_dim, offset);
    let ghost row = position_row(m, embed_dim as int, offset as int);
    let mut i: usize = 0;
    while i < embed_dim / 2
        invariant
            embed_dim > 0,
            embed_dim % 2 == 0,
            i <= embed_dim / 2,
            start.len() + embed_dim <= usize::MAX,
            output@.len() == start.len() + 2 * i,
            m == float_ops::model(ops),
            row == position_row(m, embed_dim as int, offset as int),
            float_ops::functional(ops) ==> angle == (m.position_angle)(
                embed_dim as int,
                offset as int,
            ),
            float_ops::functional(ops) ==> {
                &&& output@.take(start.len() as int) == start
                &&& forall|j: int|
                    0 <= j < 2 * i && j != embed_dim - 1 ==> #[trigger] output@[start.len() + j]
                        == row[j]
            },
        decreases embed_dim / 2 - i,
    {
        let ghost before = output@;
        let cos = ops.cos_multiple(angle, i + 1);
        output.push(cos);
        let sin = ops.sin_multiple(angle, i + 1);
        output.push(sin);
        proof {
            assert(output@.take(start.len() as int) =~= before.take(start.len() as int));
            assert forall|j: int|
                float_ops::functional(ops) && 0 <= j < 2 * (i + 1) && j != embed_dim
                    - 1 implies #[trigger] output@[start.len() + j] == row[j] by {
                if j < 2 * i {
                    assert(before[start.len() + j] == row[j]);
                }
            }
        }
        i = i + 1;
    }
    let last = output.len() - 1;
    output.set(last, ONE_BITS);
    proof {
        if float_ops::functional(ops) {
            assert forall|k: int| 0 <= k < output@.len() implies output@[k] == (start + row)[k] by {
                if k >= start.len() {
                    let j = k - start.len();
                    assert(output@[start.len() + j] == row[j]);
                } else {
                    assert(output@.take(start.len() as int)[k] == start[k]);
                }
            }
            assert(output@ =~= start + row);
        }
    }
}

/// The embeddings of all relative positions.
pub fn compact_relative_positional_encoding_for_graph<O: FloatOps>(
    ops: &O,
    frames: usize,
    left_context_len: usize,
    embed_dim: usize,
) -> (result: Result<Vec<u32>, XasrEncoderGraphError>)
    requires
        embed_dim > 0 || left_context_len + frames * 2 <= 1,
    ensures
        shape_outcome(result, position_refusal(frames, left_context_len, embed_dim)),
        result is Ok ==> result->Ok_0@.len() == (left_context_len + frames * 2 - 1) * embed_dim,
        result is Ok && float_ops::functional(ops) ==> result->Ok_0@ == position_table(
            float_ops::model(ops),
            frames as int,
            left_context_len as int,
            embed_dim as int,
        ),
{
    if embed_dim % 2 != 0 {
        return Err(shape_error("xasr relative positional encoding dim must be even"));
    }
    let total_context = match frames.checked_add(left_context_len) {
        Some(value) => value,
        None => return Err(shape_error("xasr relative positional context overflows")),
    };
    let doubled = match frames.checked_mul(2) {
        Some(value) => value,
        None => return Err(shape_error("xasr relative positional sequence length overflows")),
    };
    let seq_len = match left_context_len.checked_add(doubled) {
        Some(value) => {
            if value == 0 {
                return Err(shape_error("xasr relative positional sequence length overflows"));
            }
            value - 1
        },
        None => return Err(shape_error("xasr relative positional sequence length overflows")),
    };
    if seq_len.checked_mul(embed_dim).is_none() {
        return Err(shape_error("xasr relative positional output length overflows"));
    }
    let ghost m = float_ops::model(ops);
    let ghost part = |row: int|
        position_row(m, embed_dim as int, row - (frames + left_context_len - 1));
    let mut output: Vec<u32> = Vec::new();
    let mut row: usize = 0;
    proof {
        assert(0 * embed_dim == 0) by (nonlinear_arith);
    }
    while row < seq_len
        invariant
            row <= seq_len,
            embed_dim > 0 || seq_len == 0,
            embed_dim % 2 == 0,
            total_context == frames + left_context_len,
            seq_len * embed_dim <= usize::MAX,
            m == float_ops::model(ops),
            part == (|row: int|
                position_row(m, embed_dim as int, row - (frames + left_context_len - 1))),
            output@.len() == row * embed_dim,
            float_ops::functional(ops) ==> output@ == joined(row as int, part),
        decreases seq_len - row,
    {
        proof {
            rows::lemma_part_bounds(row as int, seq_len as int, embed_dim as int);
        }
        let offset: i128 = row as i128 - (total_context as i128 - 1);
        push_position_row(ops, &mut output, embed_dim, offset);
        row = row + 1;
        assert(part(row - 1) == position_row(m, embed_dim as int, offset as int));
    }
    Ok(output)
}

/// Whether the dimensions of a chunkwise scale are those of its convolution.
pub open spec fn scale_dims_fit(weights: XasrConvolutionModuleWeights) -> bool {
    let dims = weights.chunkwise_conv_scale.dims@;
    let chunk_dims = weights.depthwise_chunkwise_conv.weight.dims@;
    dims == seq![2usize, chunk_dims[2], chunk_dims[0]]
}

/// Why the chunkwise scale of a channel is refused.
pub open spec fn scale_refusal(
    weights: XasrConvolutionModuleWeights,
    channel: usize,
) -> Option<Seq<char>> {
    let dims = weights.chunkwise_conv_scale.dims@;
    let chunk_dims = weights.depthwise_chunkwise_conv.weight.dims@;
    let values = weights.chunkwise_conv_scale.values@;
    let expected_values = 2 * dims[1] * dims[2];
    if chunk_dims.len() < 3 {
        Some(
            "xasr depthwise_chunkwise_conv has rank "@ + decimal(chunk_dims.len())
                + ", expected at least 3"@,
        )
    } else if !scale_dims_fit(weights) {
        Some(
            "xasr chunkwise_conv_scale has dims "@ + text::bracketed(dims) + ", expected "@
                + text::bracketed(seq![2usize, chunk_dims[2], chunk_dims[0]]),
        )
    } else if channel >= dims[1] {
        Some(
            "xasr chunkwise conv channel "@ + decimal(channel as nat) + " exceeds "@ + decimal(
                dims[1] as nat,
            ),
        )
    } else if 2 * dims[1] > usize::MAX || expected_values > usize::MAX {
        Some("xasr chunkwise conv scale value count overflows"@)
    } else if values.len() != expected_values {
        Some(
            "xasr chunkwise_conv_scale has "@ + decimal(values.len()) + " values, expected "@
                + decimal(expected_values as nat),
        )
    } else {
        None
    }
}

/// The scale of a frame in a chunk of `chunk_size`: one, plus what the left
/// edge adds to the first frames, plus what the right edge adds to the last.
pub open spec fn scale_value(
    m: FloatModel,
    weights: XasrConvolutionModuleWeights,
    channel: int,
    frame: int,
    chunk_size: int,
) -> u32 {
    let channels = weights.chunkwise_conv_scale.dims@[1] as int;
    let kernel = weights.chunkwise_conv_scale.dims@[2] as int;
    let values = weights.chunkwise_conv_scale.values@;
    let left = if frame < kernel {
        values[channel * kernel + frame]
    } else {
        ZERO_BITS
    };
    let from_end = kernel - chunk_size + frame;
    let right = if from_end >= 0 {
        values[channels * kernel + channel * kernel + from_end]
    } else {
        ZERO_BITS
    };
    (m.add)((m.add)(ONE_BITS, left), right)
}

fn scale_dims_error(weights: &XasrConvolutionModuleWeights) -> (error: XasrEncoderGraphError)
    requires
        weights.depthwise_chunkwise_conv.weight.dims@.len() >= 3,
        !scale_dims_fit(*weights),
    ensures
        error.is_shape(scale_refusal(*weights, 0)->0),
{
    let chunk_dims = &weights.depthwise_chunkwise_conv.weight.dims;
    let expected: Vec<usize> = vec![2, chunk_dims[2], chunk_dims[0]];
    let mut reason = text::copy_text("xasr chunkwise_conv_scale has dims ");
    text::push_bracketed(&mut reason, weights.chunkwise_conv_scale.dims.as_slice());
    reason.append(", expected ");
    text::push_bracketed(&mut reason, expected.as_slice());
    assert(expected@ =~= seq![
        2usize,
        weights.depthwise_chunkwise_conv.weight.dims@[2],
        weights.depthwise_chunkwise_conv.weight.dims@[0],
    ]);
    XasrEncoderGraphError::Shape { reason }
}

/// The scale of one frame of one channel.
pub fn chunkwise_conv_scale_for_graph<O: FloatOps>(
    ops: &O,
    weights: &XasrConvolutionModuleWeights,
    channel: usize,
    frame: usize,
    chunk_size: usize,
) -> (result: Result<u32, XasrEncoderGraphError>)
    requires
        frame < chunk_size,
    ensures
        shape_outcome(result, scale_refusal(*weights, channel)),
        result is Ok && float_ops::functional(ops) ==> result->Ok_0 == scale_value(
            float_ops::model(ops),
            *weights,
            channel as int,
            frame as int,
            chunk_size as int,
        ),
{
    let dims = &weights.chunkwise_conv_scale.dims;
    let chunk_dims = &weights.depthwise_chunkwise_conv.weight.dims;
    if chunk_dims.len() < 3 {
        let mut reason = text::copy_text("xasr depthwise_chunkwise_conv has rank ");
        text::push_number(&mut reason, chunk_dims.len());
        reason.append(", expected at least 3");
        return Err(XasrEncoderGraphError::Shape { reason });
    }
    if dims.len() != 3 || dims[0] != 2 || dims[1] != chunk_dims[2] || dims[2] != chunk_dims[0] {
        return Err(scale_dims_error(weights));
    }
    assert(dims@ =~= seq![2usize, chunk_dims@[2], chunk_dims@[0]]);
    let channels = dims[1];
    let kernel = dims[2];
    if channel >= channels {
        let mut reason = text::copy_text("xasr chunkwise conv channel ");
        text::push_number(&mut reason, channel);
        reason.append(" exceeds ");
        text::push_number(&mut reason, channels);
        return Err(XasrEncoderGraphError::Shape { reason });
    }
    let values = &weights.chunkwise_conv_scale.values;
    let doubled = match 2usize.checked_mul(channels) {
        Some(value) => value,
        None => return Err(shape_error("xasr chunkwise conv scale value count overflows")),
    };
    let expected_values = match doubled.checked_mul(kernel) {
        Some(value) => value,
        None => return Err(shape_error("xasr chunkwise conv scale value count overflows")),
    };
    if values.len() != expected_values {
        let mut reason = text::copy_text("xasr chunkwise_conv_scale has ");
        text::push_number(&mut reason, values.len());
        reason.append(" values, expected ");
        text::push_number(&mut reason, expected_values);
        return Err(XasrEncoderGraphError::Shape { reason });
    }
    proof {
        rows::lemma_part_bounds(channel as int, channels as int, kernel as int);
        assert(2 * channels * kernel == channels * kernel + channels * kernel) by (nonlinear_arith);
    }
    let left = if frame < kernel {
        values[channel * kernel + frame]
    } else {
        ZERO_BITS
    };
    let right_base = channels * kernel;
    let right = if chunk_size < kernel {
        values[right_base + channel * kernel + (kernel - chunk_size + frame)]
    } else {
        let pad = chunk_size - kernel;
        if frame >= pad {
            values[right_base + channel * kernel + (frame - pad)]
        } else {
            ZERO_BITS
        }
    };
    let with_left = ops.add(ONE_BITS, left);
    Ok(ops.add(with_left, right))
}

/// Why the chunkwise scales of a module are refused: as the first channel that
/// is refused.
pub open spec fn scales_refusal(
    weights: XasrConvolutionModuleWeights,
    channels: usize,
    frames: usize,
) -> Option<Seq<char>> {
    let scale_channels = weights.chunkwise_conv_scale.dims@[1];
    if channels * frames > usize::MAX {
        Some("xasr chunkwise conv scale length overflows"@)
    } else if channels == 0 || frames == 0 {
        None
    } else if scale_refusal(weights, 0) is Some {
        scale_refusal(weights, 0)
    } else if channels > scale_channels {
        scale_refusal(weights, scale_channels)
    } else {
        None
    }
}

/// The scales of all frames of each channel.
pub open spec fn scale_table(
    m: FloatModel,
    weights: XasrConvolutionModuleWeights,
    channels: int,
    frames: int,
) -> Seq<u32> {
    joined(
        channels,
        |c: int| Seq::new(frames as nat, |t: int| scale_value(m, weights, c, t, frames)),
    )
}

/// The scales of all frames of each channel.
pub fn chunkwise_conv_scale_values_for_graph<O: FloatOps>(
    ops: &O,
    weights: &XasrConvolutionModuleWeights,
    channels: usize,
    frames: usize,
) -> (result: Result<Vec<u32>, XasrEncoderGraphError>)
    ensures
        shape_outcome(result, scales_refusal(*weights, channels, frames)),
        result is Ok ==> result->Ok_0@.len() == channels * frames,
        result is Ok && float_ops::functional(ops) ==> result->Ok_0@ == scale_table(
            float_ops::model(ops),
            *weights,
            channels as int,
            frames as int,
        ),
{
    if channels.checked_mul(frames).is_none() {
        return Err(shape_error("xasr chunkwise conv scale length overflows"));
    }
    let ghost m = float_ops::model(ops);
    let ghost part = |c: int|
        Seq::new(frames as nat, |t: int| scale_value(m, *weights, c, t, frames as int));
    let mut output: Vec<u32> = Vec::new();
    let mut c: usize = 0;
    proof {
        assert(0 * frames == 0) by (nonlinear_arith);
    }
    while c < channels
        invariant
            c <= channels,
            channels * frames <= usize::MAX,
            m == float_ops::model(ops),
            part == (|c: int|
                Seq::new(frames as nat, |t: int| scale_value(m, *weights, c, t, frames as int))),
            frames > 0 && c > 0 ==> scale_refusal(*weights, (c - 1) as usize) is None,
            output@.len() == c * frames,
            float_ops::functional(ops) ==> output@ == joined(c as int, part),
        decreases channels - c,
    {
        proof {
            rows::lemma_part_bounds(c as int, channels as int, frames as int);
        }
        let ghost before = output@;
        let mut t: usize = 0;
        while t < frames
            invariant
                t <= frames,
                c < channels,
                channels * frames <= usize::MAX,
                m == float_ops::model(ops),
                before.len() == c * frames,
                frames > 0 && c > 0 ==> scale_refusal(*weights, (c - 1) as usize) is None,
                t > 0 ==> scale_refusal(*weights, c) is None,
                output@.len() == before.len() + t,
                float_ops::functional(ops) ==> output@ == before + Seq::new(
                    t as nat,
                    |t: int| scale_value(m, *weights, c as int, t, frames as int),
                ),
            decreases frames - t,
        {
            let scale = chunkwise_conv_scale_for_graph(ops, weights, c, t, frames)?;
            output.push(scale);
            t = t + 1;
            proof {
                if float_ops::functional(ops) {
                    assert(output@ =~= before + Seq::new(
                        t as nat,
                        |t: int| scale_value(m, *weights, c as int, t, frames as int),
                    ));
                }
            }
        }
        c = c + 1;
        assert(part(c - 1) == Seq::new(
            frames as nat,
            |t: int| scale_value(m, *weights, c - 1, t, frames as int),
        ));
    }
    Ok(output)
}

/// Each mask row has one entry for each key, and is zero exactly on the keys
/// that hold something: the last `valid_left_context` cached frames and all
/// current ones.
pub proof fn law_mask_keeps_recent_and_current_keys(
    left_context_len: int,
    frames: int,
    valid_left_context: int,
    source: int,
)
    requires
        0 <= valid_left_context <= left_context_len,
        0 <= frames,
        0 <= source < left_context_len + frames,
    ensures
        mask_row(left_context_len, frames, valid_left_context).len() == left_context_len + frames,
        mask_row(left_context_len, frames, valid_left_context)[source] == ZERO_BITS <==> source
            >= left_context_len - valid_left_context,
{
}

} // verus!
