//! Fewer rows, more rows, wider and narrower rows.

use vstd::prelude::*;
use crate::bits::ZERO_BITS;
use crate::decoder::text_outcome;
use crate::float_ops;
use crate::float_ops::{mul_add, mul_add_of, FloatModel, FloatOps};
use crate::layer_graph::{ceil_div, div_ceil};
use crate::reference_rows::{frame_rows_refusal, lemma_index, push_all, validate_frame_rows};
use crate::rows;
use crate::rows::{joined, part_of, zero_seq};
use crate::softmax::{softmax_last_dim, softmax_rows};
use crate::text;

verus! {

/// Fewer rows, each the weighted sum of neighbours.
#[derive(Clone, Debug, PartialEq)]
pub struct XasrDownsampleReferenceOutput {
    /// The rows of the wanted width, with rows of zeros that fill the last
    /// group.
    pub padded_rows: Vec<u32>,
    /// The same values, group by group.
    pub reshaped_rows: Vec<u32>,
    /// One row for each group.
    pub rows: Vec<u32>,
    pub frames: usize,
    pub dim: usize,
}

/// Row `t`, cut or filled with zeros.
pub open spec fn resized_row(rows: Seq<u32>, input_dim: int, target_dim: int, t: int) -> Seq<u32> {
    Seq::new(
        target_dim as nat,
        |c: int|
            if c < input_dim {
                rows[t * input_dim + c]
            } else {
                ZERO_BITS
            },
    )
}

/// Rows, cut or filled with zeros.
pub open spec fn resized_rows(
    rows: Seq<u32>,
    frames: int,
    input_dim: int,
    target_dim: int,
) -> Seq<u32> {
    joined(frames, |t: int| resized_row(rows, input_dim, target_dim, t))
}

/// Why rows are not resized.
pub open spec fn resize_refusal(
    len: int,
    frames: usize,
    input_dim: usize,
    target_dim: usize,
) -> Option<Seq<char>> {
    if frame_rows_refusal(len, frames, input_dim, "resize input"@) is Some {
        frame_rows_refusal(len, frames, input_dim, "resize input"@)
    } else if target_dim == 0 {
        Some("xasr resize target dim must be > 0"@)
    } else {
        None
    }
}

/// Cuts rows or fills them with zeros.
#[verifier::spinoff_prover]
pub fn resize_frame_rows_reference(
    rows: &[u32],
    frames: usize,
    input_dim: usize,
    target_dim: usize,
) -> (result: Result<Vec<u32>, String>)
    requires
        frames * input_dim <= usize::MAX,
        frames * target_dim <= usize::MAX,
    ensures
        text_outcome(result, resize_refusal(rows@.len() as int, frames, input_dim, target_dim)),
        result is Ok ==> result->Ok_0@ == resized_rows(
            rows@,
            frames as int,
            input_dim as int,
            target_dim as int,
        ) && result->Ok_0@.len() == frames * target_dim,
{
    match validate_frame_rows(rows, frames, input_dim, "resize input") {
        Ok(_) => {},
        Err(reason) => return Err(reason),
    }
    if target_dim == 0 {
        return Err(text::copy_text("xasr resize target dim must be > 0"));
    }
    let ghost part = |t: int| resized_row(rows@, input_dim as int, target_dim as int, t);
    let mut output: Vec<u32> = Vec::new();
    let mut frame: usize = 0;
    while frame < frames
        invariant
            frame <= frames,
            rows@.len() == frames * input_dim,
            frames * input_dim <= usize::MAX,
            part == (|t: int| resized_row(rows@, input_dim as int, target_dim as int, t)),
            output@ == joined(frame as int, part),
        decreases frames - frame,
    {
        proof {
            rows::lemma_part_bounds(frame as int, frames as int, input_dim as int);
        }
        let base = frame * input_dim;
        let ghost before = output@;
        let mut c: usize = 0;
        while c < target_dim
            invariant
                c <= target_dim,
                base == frame * input_dim,
                base + input_dim <= rows@.len() <= usize::MAX,
                output@ == before + part(frame as int).take(c as int),
                part == (|t: int| resized_row(rows@, input_dim as int, target_dim as int, t)),
            decreases target_dim - c,
        {
            let value = if c < input_dim {
                rows[base + c]
            } else {
                ZERO_BITS
            };
            output.push(value);
            assert(part(frame as int).take(c + 1) =~= part(frame as int).take(c as int).push(value));
            assert(output@ =~= before + part(frame as int).take(c + 1));
            c = c + 1;
        }
        assert(part(frame as int).take(c as int) =~= part(frame as int));
        frame = frame + 1;
    }
    proof {
        rows::lemma_joined_len(frames as int, part, target_dim as int);
    }
    Ok(output)
}

/// Why rows are not downsampled.
pub open spec fn downsample_refusal(
    len: int,
    frames: usize,
    input_dim: usize,
    target_dim: usize,
    factor: int,
) -> Option<Seq<char>> {
    if frame_rows_refusal(len, frames, input_dim, "downsample input"@) is Some {
        frame_rows_refusal(len, frames, input_dim, "downsample input"@)
    } else if target_dim == 0 {
        Some("xasr downsample target dim must be > 0"@)
    } else if factor == 0 {
        Some("xasr downsample factor must be > 0"@)
    } else {
        None
    }
}

/// Resized rows, and rows of zeros that fill the last group.
pub open spec fn padded_rows(
    rows: Seq<u32>,
    frames: int,
    input_dim: int,
    target_dim: int,
    factor: int,
) -> Seq<u32> {
    resized_rows(rows, frames, input_dim, target_dim) + zero_seq(
        ((ceil_div(frames, factor) * factor - frames) * target_dim) as nat,
    )
}

/// The weighted sum of channel `c` of the first `n` rows of a group.
pub open spec fn group_sum(
    m: FloatModel,
    padded: Seq<u32>,
    weights: Seq<u32>,
    dim: int,
    first: int,
    c: int,
    n: int,
) -> u32
    decreases n,
{
    if n <= 0 {
        ZERO_BITS
    } else {
        mul_add_of(
            m,
            group_sum(m, padded, weights, dim, first, c, n - 1),
            padded[(first + n - 1) * dim + c],
            weights[n - 1],
        )
    }
}

/// The weighted sums of a group.
pub open spec fn group_row(
    m: FloatModel,
    padded: Seq<u32>,
    weights: Seq<u32>,
    dim: int,
    group: int,
) -> Seq<u32> {
    let factor = weights.len() as int;
    Seq::new(
        dim as nat,
        |c: int| group_sum(m, padded, weights, dim, group * factor, c, factor),
    )
}

/// The weighted sums of all groups.
pub open spec fn grouped_rows(
    m: FloatModel,
    padded: Seq<u32>,
    weights: Seq<u32>,
    dim: int,
    groups: int,
) -> Seq<u32> {
    joined(groups, |g: int| group_row(m, padded, weights, dim, g))
}

/// The rows of all groups, or why there are none.
pub open spec fn downsampled(
    m: FloatModel,
    rows: Seq<u32>,
    frames: usize,
    input_dim: usize,
    target_dim: usize,
    bias_logits: Seq<u32>,
) -> Result<Seq<u32>, Seq<char>> {
    let factor = bias_logits.len() as int;
    match downsample_refusal(rows.len() as int, frames, input_dim, target_dim, factor) {
        Some(reason) => Err(reason),
        None => match softmax_rows(m, bias_logits, factor as usize) {
            Err(reason) => Err(reason),
            Ok(weights) => Ok(
                grouped_rows(
                    m,
                    padded_rows(rows, frames as int, input_dim as int, target_dim as int, factor),
                    weights,
                    target_dim as int,
                    ceil_div(frames as int, factor),
                ),
            ),
        },
    }
}

/// The padded rows can be counted.
pub open spec fn can_downsample(
    frames: usize,
    input_dim: usize,
    target_dim: usize,
    factor: int,
) -> bool {
    &&& frames * input_dim <= usize::MAX
    &&& factor > 0 ==> ceil_div(frames as int, factor) * factor <= usize::MAX
    &&& factor > 0 ==> ceil_div(frames as int, factor) * factor * target_dim <= usize::MAX
}

/// The groups hold all rows, and less than one group is filled up.
pub proof fn law_groups_hold_all_rows(frames: int, factor: int)
    requires
        0 <= frames,
        0 < factor,
    ensures
        0 <= ceil_div(frames, factor) <= frames,
        frames <= ceil_div(frames, factor) * factor < frames + factor,
{
    vstd::arithmetic::div_mod::lemma_fundamental_div_mod(frames + factor - 1, factor);
    let groups = ceil_div(frames, factor);
    let rest = (frames + factor - 1) % factor;
    assert(groups == (frames + factor - 1) / factor);
    assert(frames <= groups * factor < frames + factor) by (nonlinear_arith)
        requires
            frames + factor - 1 == factor * groups + rest,
            0 <= rest < factor,
    ;
    assert(0 <= groups <= frames) by (nonlinear_arith)
        requires
            frames <= groups * factor < frames + factor,
            0 <= frames,
            0 < factor,
    ;
}

/// Sums groups of neighbouring rows, with weights that are the softmax of the
/// logits.
#[verifier::spinoff_prover]
pub fn downsample_streaming_reference<O: FloatOps>(
    ops: &O,
    rows: &[u32],
    frames: usize,
    input_dim: usize,
    target_dim: usize,
    bias_logits: &[u32],
) -> (result: Result<XasrDownsampleReferenceOutput, String>)
    requires
        can_downsample(frames, input_dim, target_dim, bias_logits@.len() as int),
    ensures
        downsample_refusal(
            rows@.len() as int,
            frames,
            input_dim,
            target_dim,
            bias_logits@.len() as int,
        ) is Some ==> text_outcome(
            result,
            downsample_refusal(
                rows@.len() as int,
                frames,
                input_dim,
                target_dim,
                bias_logits@.len() as int,
            ),
        ),
        result is Ok ==> {
            let output = result->Ok_0;
            let factor = bias_logits@.len() as int;
            &&& factor > 0
            &&& target_dim > 0
            &&& output.frames == ceil_div(frames as int, factor)
            &&& output.dim == target_dim
            &&& output.padded_rows@ == padded_rows(
                rows@,
                frames as int,
                input_dim as int,
                target_dim as int,
                factor,
            )
            &&& output.padded_rows@.len() == output.frames * factor * target_dim
            &&& output.reshaped_rows@ == output.padded_rows@
            &&& output.rows@.len() == output.frames * target_dim
        },
        float_ops::functional(ops) ==> match downsampled(
            float_ops::model(ops),
            rows@,
            frames,
            input_dim,
            target_dim,
            bias_logits@,
        ) {
            Ok(down) => result is Ok && result->Ok_0.rows@ == down,
            Err(reason) => result is Err && result->Err_0@ == reason,
        },
{
    match validate_frame_rows(rows, frames, input_dim, "downsample input") {
        Ok(_) => {},
        Err(reason) => return Err(reason),
    }
    if target_dim == 0 {
        return Err(text::copy_text("xasr downsample target dim must be > 0"));
    }
    let factor = bias_logits.len();
    if factor == 0 {
        return Err(text::copy_text("xasr downsample factor must be > 0"));
    }
    let ghost m = float_ops::model(ops);
    proof {
        law_groups_hold_all_rows(frames as int, factor as int);
        let groups = ceil_div(frames as int, factor as int);
        assert(frames * target_dim <= groups * factor * target_dim) by (nonlinear_arith)
            requires
                frames <= groups * factor,
                0 <= target_dim,
        ;
        assert((groups * factor - frames) * target_dim + frames * target_dim == groups * factor
            * target_dim) by (nonlinear_arith);
    }
    let out_frames = div_ceil(frames, factor);
    let padded_frames = out_frames * factor;
    let mut padded = resize_frame_rows_reference(rows, frames, input_dim, target_dim)?;
    let padded_len = padded_frames * target_dim;
    let ghost short = padded@;
    while padded.len() < padded_len
        invariant
            short.len() <= padded@.len() <= padded_len,
            padded@ == short + zero_seq((padded@.len() - short.len()) as nat),
        decreases padded_len - padded@.len(),
    {
        padded.push(ZERO_BITS);
        assert(padded@ =~= short + zero_seq((padded@.len() - short.len()) as nat));
    }
    let mut reshaped_rows: Vec<u32> = Vec::new();
    push_all(&mut reshaped_rows, padded.as_slice());
    assert(reshaped_rows@ =~= padded@);
    let weights = softmax_last_dim(ops, bias_logits, factor)?;
    let ghost part = |g: int| group_row(m, padded@, weights@, target_dim as int, g);
    let mut output: Vec<u32> = Vec::new();
    let mut group: usize = 0;
    assert(0 * target_dim == 0) by (nonlinear_arith);
    while group < out_frames
        invariant
            group <= out_frames,
            factor > 0,
            weights@.len() == factor,
            m == float_ops::model(ops),
            padded@.len() == out_frames * factor * target_dim,
            out_frames * factor * target_dim <= usize::MAX,
            part == (|g: int| group_row(m, padded@, weights@, target_dim as int, g)),
            output@.len() == group * target_dim,
            float_ops::functional(ops) ==> output@ == joined(group as int, part),
        decreases out_frames - group,
    {
        proof {
            rows::lemma_part_bounds(group as int, out_frames as int, factor as int);
            assert(group * target_dim + target_dim == (group + 1) * target_dim)
                by (nonlinear_arith);
        }
        let ghost before = output@;
        let mut c: usize = 0;
        while c < target_dim
            invariant
                c <= target_dim,
                group < out_frames,
                factor > 0,
                weights@.len() == factor,
                m == float_ops::model(ops),
                padded@.len() == out_frames * factor * target_dim,
                out_frames * factor * target_dim <= usize::MAX,
                group * factor + factor <= out_frames * factor,
                output@.len() == before.len() + c,
                forall|j: int| 0 <= j < before.len() ==> #[trigger] output@[j] == before[j],
                float_ops::functional(ops) ==> forall|j: int|
                    before.len() <= j < before.len() + c ==> #[trigger] output@[j] == group_sum(
                        m,
                        padded@,
                        weights@,
                        target_dim as int,
                        group * factor,
                        j - before.len(),
                        factor as int,
                    ),
            decreases target_dim - c,
        {
            let mut sum = ZERO_BITS;
            let mut k: usize = 0;
            while k < factor
                invariant
                    k <= factor,
                    c < target_dim,
                    group < out_frames,
                    weights@.len() == factor,
                    m == float_ops::model(ops),
                    padded@.len() == out_frames * factor * target_dim,
                    out_frames * factor * target_dim <= usize::MAX,
                    group * factor + factor <= out_frames * factor,
                    float_ops::functional(ops) ==> sum == group_sum(
                        m,
                        padded@,
                        weights@,
                        target_dim as int,
                        group * factor,
                        c as int,
                        k as int,
                    ),
                decreases factor - k,
            {
                let ghost source = group * factor + k;
                proof {
                    rows::lemma_part_bounds(group as int, out_frames as int, factor as int);
                    lemma_index(source, out_frames * factor, c as int, target_dim as int);
                    assert(source <= source * target_dim) by (nonlinear_arith)
                        requires
                            0 <= source,
                            1 <= target_dim,
                    ;
                }
                let index = (group * factor + k) * target_dim + c;
                sum = mul_add(ops, sum, padded[index], weights[k]);
                k = k + 1;
            }
            output.push(sum);
            c = c + 1;
        }
        proof {
            if float_ops::functional(ops) {
                assert(output@ =~= before + part(group as int));
            }
        }
        group = group + 1;
    }
    Ok(
        XasrDownsampleReferenceOutput {
            padded_rows: padded,
            reshaped_rows,
            rows: output,
            frames: out_frames,
            dim: target_dim,
        },
    )
}

/// Why rows are not upsampled.
pub open spec fn upsample_refusal(
    len: int,
    frames: usize,
    dim: usize,
    factor: usize,
) -> Option<Seq<char>> {
    if frame_rows_refusal(len, frames, dim, "upsample input"@) is Some {
        frame_rows_refusal(len, frames, dim, "upsample input"@)
    } else if factor == 0 {
        Some("xasr upsample factor must be > 0"@)
    } else {
        None
    }
}

/// Row `t` of the upsampled rows.
pub open spec fn upsampled_row(
    rows: Seq<u32>,
    frames: int,
    dim: int,
    factor: int,
    t: int,
) -> Seq<u32> {
    if t / factor < frames {
        part_of(rows, dim, t / factor)
    } else {
        zero_seq(dim as nat)
    }
}

/// Each row as many times as the factor says, cut or filled with zeros.
pub open spec fn upsampled_rows(
    rows: Seq<u32>,
    frames: int,
    dim: int,
    factor: int,
    target_frames: int,
) -> Seq<u32> {
    joined(target_frames, |t: int| upsampled_row(rows, frames, dim, factor, t))
}

/// Repeats each row.
#[verifier::spinoff_prover]
pub fn upsample_streaming_reference(
    rows: &[u32],
    frames: usize,
    dim: usize,
    factor: usize,
    target_frames: usize,
) -> (result: Result<Vec<u32>, String>)
    requires
        frames * dim <= usize::MAX,
        target_frames * dim <= usize::MAX,
    ensures
        text_outcome(result, upsample_refusal(rows@.len() as int, frames, dim, factor)),
        result is Ok ==> result->Ok_0@ == upsampled_rows(
            rows@,
            frames as int,
            dim as int,
            factor as int,
            target_frames as int,
        ) && result->Ok_0@.len() == target_frames * dim,
{
    match validate_frame_rows(rows, frames, dim, "upsample input") {
        Ok(_) => {},
        Err(reason) => return Err(reason),
    }
    if factor == 0 {
        return Err(text::copy_text("xasr upsample factor must be > 0"));
    }
    let ghost part = |t: int| upsampled_row(rows@, frames as int, dim as int, factor as int, t);
    let mut output: Vec<u32> = Vec::new();
    let mut frame: usize = 0;
    while frame < target_frames
        invariant
            frame <= target_frames,
            factor > 0,
            rows@.len() == frames * dim,
            part == (|t: int|
                upsampled_row(rows@, frames as int, dim as int, factor as int, t)),
            output@ == joined(frame as int, part),
        decreases target_frames - frame,
    {
        let source = frame / factor;
        if source < frames {
            proof {
                rows::lemma_part_bounds(source as int, frames as int, dim as int);
            }
            assert(rows.len() == rows@.len());
            let row = vstd::slice::slice_subrange(rows, source * dim, (source + 1) * dim);
            push_all(&mut output, row);
        } else {
            let row = rows::zeros(dim);
            push_all(&mut output, row.as_slice());
        }
        frame = frame + 1;
    }
    proof {
        assert forall|t: int| 0 <= t < target_frames implies (#[trigger] part(t)).len() == dim by {
            vstd::arithmetic::div_mod::lemma_div_pos_is_pos(t, factor as int);
            if t / (factor as int) < frames {
                rows::lemma_part_bounds(t / factor as int, frames as int, dim as int);
            }
        }
        rows::lemma_joined_len(target_frames as int, part, dim as int);
    }
    Ok(output)
}

/// Rows that are upsampled by a factor stand there that many times, one after
/// the other.
pub proof fn law_upsampling_repeats_rows(
    rows: Seq<u32>,
    frames: int,
    dim: int,
    factor: int,
    source: int,
    copy: int,
)
    requires
        0 < dim,
        rows.len() == frames * dim,
        0 <= source < frames,
        0 <= copy < factor,
    ensures
        upsampled_rows(rows, frames, dim, factor, frames * factor).len() == frames * factor * dim,
        part_of(
            upsampled_rows(rows, frames, dim, factor, frames * factor),
            dim,
            source * factor + copy,
        ) == part_of(rows, dim, source),
{
    let target = frames * factor;
    let part = |t: int| upsampled_row(rows, frames, dim, factor, t);
    lemma_index(source, frames, copy, factor);
    let t = source * factor + copy;
    assert forall|i: int| 0 <= i < target implies (#[trigger] part(i)).len() == dim by {
        vstd::arithmetic::div_mod::lemma_div_pos_is_pos(i, factor);
        if i / factor < frames {
            rows::lemma_part_bounds(i / factor, frames, dim);
        }
    }
    rows::lemma_joined_len(target, part, dim);
    rows::lemma_part_bounds(t, target, dim);
    rows::lemma_part_bounds(source, frames, dim);
    let whole = upsampled_rows(rows, frames, dim, factor, target);
    assert(part(t) == part_of(rows, dim, source));
    assert forall|c: int| 0 <= c < dim implies part_of(whole, dim, t)[c] == part(t)[c] by {
        rows::lemma_joined_at(target, part, dim, t, c);
    }
    assert(part_of(whole, dim, t) =~= part_of(rows, dim, source));
}

} // verus!
