//! The encoder on the host.

use vstd::prelude::*;
use vstd::string::StringExecFns;
use crate::encoder_error::{shape_error, Refusal, XasrEncoderGraphError};
use crate::encoder_graph::XasrZipformerEncoderGraph;
use crate::encoder_rows::{
    concat_frame_rows_reference, concat_part_refusal, concat_refusal, concat_row, rows_refusal,
    slice_frame_rows_reference, slice_rows_refusal, sliced_rows, total_width, validate_rows_len,
    XasrEncoderGraphOutput,
};
use crate::encoder_tables::shape_outcome;
use crate::encoder_weights::{XasrEncoderLayerWeights, XasrEncoderWeights};
use crate::float_ops;
use crate::float_ops::{FloatModel, FloatOps};
use crate::layer_graph::{ceil_div, div_ceil};
use crate::reference_layer::{
    layer_can_run, layer_values, zipformer_layer_streaming_reference, LayerCaches,
    XasrZipformerLayerReferenceCaches,
};
use crate::reference_rows::{bypass_reference, bypassed, push_all};
use crate::reference_scale::{
    can_downsample, downsample_streaming_reference, downsampled, law_groups_hold_all_rows,
    padded_rows, upsample_streaming_reference, upsampled_rows,
};
use crate::rows;
use crate::rows::{joined, part_of};
use crate::runtime_contract::{largest, XasrZipformerExecutionMetadata};
use crate::text;
use crate::text::decimal;

verus! {

/// What the first `n` layers of a stack give, or which layer fails and why.
pub open spec fn layers_values(
    m: FloatModel,
    layers: Seq<XasrEncoderLayerWeights>,
    rows: Seq<u32>,
    frames: usize,
    dim: usize,
    num_heads: usize,
    query_head_dim: usize,
    left_context_len: usize,
    valid_left_context: usize,
    n: int,
) -> Result<Seq<u32>, (int, Seq<char>)>
    decreases n,
{
    if n <= 0 {
        Ok(rows)
    } else {
        match layers_values(
            m,
            layers,
            rows,
            frames,
            dim,
            num_heads,
            query_head_dim,
            left_context_len,
            valid_left_context,
            n - 1,
        ) {
            Err(failure) => Err(failure),
            Ok(before) => match layer_values(
                m,
                layers[n - 1],
                before,
                frames,
                dim,
                num_heads,
                query_head_dim,
                left_context_len,
                valid_left_context,
                LayerCaches::nothing(),
            ) {
                Err(reason) => Err((n - 1, reason)),
                Ok(values) => Ok(values.rows),
            },
        }
    }
}

/// The first layer that fails decides.
proof fn lemma_layer_failure_stays(
    m: FloatModel,
    layers: Seq<XasrEncoderLayerWeights>,
    rows: Seq<u32>,
    frames: usize,
    dim: usize,
    num_heads: usize,
    query_head_dim: usize,
    left_context_len: usize,
    valid_left_context: usize,
    n: int,
    more: int,
)
    requires
        n <= more,
        layers_values(
            m,
            layers,
            rows,
            frames,
            dim,
            num_heads,
            query_head_dim,
            left_context_len,
            valid_left_context,
            n,
        ) is Err,
    ensures
        layers_values(
            m,
            layers,
            rows,
            frames,
            dim,
            num_heads,
            query_head_dim,
            left_context_len,
            valid_left_context,
            more,
        ) == layers_values(
            m,
            layers,
            rows,
            frames,
            dim,
            num_heads,
            query_head_dim,
            left_context_len,
            valid_left_context,
            n,
        ),
    decreases more - n,
{
    if n < more {
        lemma_layer_failure_stays(
            m,
            layers,
            rows,
            frames,
            dim,
            num_heads,
            query_head_dim,
            left_context_len,
            valid_left_context,
            n,
            more - 1,
        );
    }
}

/// Runs all layers of a stack, without caches.
#[verifier::spinoff_prover]
pub fn run_layers<O: FloatOps>(
    ops: &O,
    layers: &Vec<XasrEncoderLayerWeights>,
    rows: &[u32],
    frames: usize,
    dim: usize,
    num_heads: usize,
    query_head_dim: usize,
    left_context_len: usize,
    valid_left_context: usize,
) -> (result: Result<Vec<u32>, (usize, String)>)
    requires
        float_ops::sized(ops),
        dim > 0,
        rows@.len() == frames * dim,
        forall|i: int|
            0 <= i < layers@.len() ==> layer_can_run(
                #[trigger] layers@[i],
                frames,
                dim,
                num_heads,
                query_head_dim,
                left_context_len,
            ),
    ensures
        result is Ok ==> result->Ok_0@.len() == frames * dim,
        result is Err ==> result->Err_0.0 < layers@.len(),
        float_ops::functional(ops) ==> match layers_values(
            float_ops::model(ops),
            layers@,
            rows@,
            frames,
            dim,
            num_heads,
            query_head_dim,
            left_context_len,
            valid_left_context,
            layers@.len() as int,
        ) {
            Ok(values) => result is Ok && result->Ok_0@ == values,
            Err(failure) => result is Err && result->Err_0.0 == failure.0 && result->Err_0.1@
                == failure.1,
        },
{
    let ghost m = float_ops::model(ops);
    let mut state: Vec<u32> = Vec::new();
    push_all(&mut state, rows);
    assert(state@ =~= rows@);
    let mut index: usize = 0;
    while index < layers.len()
        invariant
            index <= layers@.len(),
            float_ops::sized(ops),
            dim > 0,
            m == float_ops::model(ops),
            forall|i: int|
                0 <= i < layers@.len() ==> layer_can_run(
                    #[trigger] layers@[i],
                    frames,
                    dim,
                    num_heads,
                    query_head_dim,
                    left_context_len,
                ),
            state@.len() == frames * dim,
            float_ops::functional(ops) ==> layers_values(
                m,
                layers@,
                rows@,
                frames,
                dim,
                num_heads,
                query_head_dim,
                left_context_len,
                valid_left_context,
                index as int,
            ) == Ok::<Seq<u32>, (int, Seq<char>)>(state@),
        decreases layers@.len() - index,
    {
        let layer = &layers[index];
        match zipformer_layer_streaming_reference(
            ops,
            layer,
            state.as_slice(),
            frames,
            dim,
            num_heads,
            query_head_dim,
            left_context_len,
            valid_left_context,
            XasrZipformerLayerReferenceCaches::empty(),
        ) {
            Ok(output) => {
                state = output.rows;
            },
            Err(reason) => {
                proof {
                    if float_ops::functional(ops) {
                        lemma_layer_failure_stays(
                            m,
                            layers@,
                            rows@,
                            frames,
                            dim,
                            num_heads,
                            query_head_dim,
                            left_context_len,
                            valid_left_context,
                            index + 1,
                            layers@.len() as int,
                        );
                    }
                }
                return Err((index, reason));
            },
        }
        index = index + 1;
    }
    Ok(state)
}

/// The failure of a layer of the first stack.
pub open spec fn stack0_layer_refusal(layer: int, reason: Seq<char>) -> Refusal {
    Refusal::Reference {
        stage: "stack0_layer"@,
        reason: "layer "@ + decimal(layer as nat) + ": "@ + reason,
    }
}

/// The failure of a stage of a stack.
pub open spec fn stack_refusal(stage: Seq<char>, stack: int, reason: Seq<char>) -> Refusal {
    Refusal::Reference { stage, reason: "stack"@ + decimal(stack as nat) + ": "@ + reason }
}

/// The failure of a layer of a stack.
pub open spec fn stack_layer_refusal(stack: int, layer: int, reason: Seq<char>) -> Refusal {
    Refusal::Reference {
        stage: "stack_layer"@,
        reason: "stack"@ + decimal(stack as nat) + ".layer"@ + decimal(layer as nat) + ": "@
            + reason,
    }
}

/// The shape failure of a stack.
pub open spec fn stack_shape_refusal(stack: int, reason: Seq<char>) -> Refusal {
    Refusal::Shape { reason: "stack"@ + decimal(stack as nat) + reason }
}

fn stack_error(stage: &'static str, stack: usize, reason: &str) -> (error: XasrEncoderGraphError)
    ensures
        error.is(stack_refusal(stage@, stack as int, reason@)),
{
    let mut text = text::copy_text("stack");
    text::push_number(&mut text, stack);
    text.append(": ");
    text.append(reason);
    XasrEncoderGraphError::Reference { stage, reason: text }
}

fn stack_layer_error(stack: usize, layer: usize, reason: &str) -> (error: XasrEncoderGraphError)
    ensures
        error.is(stack_layer_refusal(stack as int, layer as int, reason@)),
{
    let mut text = text::copy_text("stack");
    text::push_number(&mut text, stack);
    text.append(".layer");
    text::push_number(&mut text, layer);
    text.append(": ");
    text.append(reason);
    XasrEncoderGraphError::Reference { stage: "stack_layer", reason: text }
}

fn stack_shape_error(stack: usize, reason: &str) -> (error: XasrEncoderGraphError)
    ensures
        error.is(stack_shape_refusal(stack as int, reason@)),
{
    let mut text = text::copy_text("stack");
    text::push_number(&mut text, stack);
    text.append(reason);
    XasrEncoderGraphError::Shape { reason: text }
}

/// The rows between two stacks.
pub struct TrunkValues {
    pub rows: Seq<u32>,
    pub frames: usize,
    pub dim: usize,
    /// The last columns after stack three.
    pub tail3: Option<Seq<u32>>,
    /// The last columns after stack four.
    pub tail4: Option<Seq<u32>>,
}

/// The rows after stack `s`, or why there are none: the rows are downsampled,
/// taken through the layers, upsampled, and blended with those before.
#[verifier::opaque]
pub open spec fn step_values(
    m: FloatModel,
    metadata: XasrZipformerExecutionMetadata,
    weights: XasrEncoderWeights,
    trunk: TrunkValues,
    valid_left_context: usize,
    s: int,
) -> Result<TrunkValues, Refusal> {
    let stack = weights.stacks@[s];
    let factor = stack.downsampling_factor;
    if s >= weights.stacks@.len() {
        Err(Refusal::Shape { reason: "encoder weights missing stack"@ + decimal(s as nat) })
    } else if factor == 0 {
        Err(stack_shape_refusal(s, " downsampling factor must be > 0"@))
    } else if stack.downsample_bias is None {
        Err(stack_shape_refusal(s, " missing downsample bias"@))
    } else {
        let bias = (stack.downsample_bias->0)@;
        let groups = ceil_div(trunk.frames as int, bias.len() as int);
        let padded = padded_rows(
            trunk.rows,
            trunk.frames as int,
            trunk.dim as int,
            stack.dim as int,
            bias.len() as int,
        );
        let padded_frames = (groups * bias.len()) as usize;
        match downsampled(m, trunk.rows, trunk.frames, trunk.dim, stack.dim, bias) {
            Err(reason) => Err(stack_refusal("stack_downsample"@, s, reason)),
            Ok(down) => match layers_values(
                m,
                stack.layers@,
                down,
                groups as usize,
                stack.dim,
                metadata.num_heads@[s],
                metadata.query_head_dims@[s],
                metadata.left_context_len@[s],
                ceil_div(valid_left_context as int, factor as int) as usize,
                stack.layers@.len() as int,
            ) {
                Err(failure) => Err(stack_layer_refusal(s, failure.0, failure.1)),
                Ok(branch) => {
                    let up = upsampled_rows(
                        branch,
                        groups,
                        stack.dim as int,
                        factor as int,
                        padded_frames as int,
                    );
                    if stack.out_combiner_bypass_scale is None {
                        Err(stack_shape_refusal(s, " missing out_combiner bypass scale"@))
                    } else {
                        match bypassed(
                            m,
                            padded,
                            up,
                            (stack.out_combiner_bypass_scale->0)@,
                            padded_frames,
                            stack.dim,
                        ) {
                            Err(reason) => Err(stack_refusal("stack_out_combiner"@, s, reason)),
                            Ok(rows) => with_tails(trunk, rows, padded_frames, stack.dim, s),
                        }
                    }
                },
            },
        }
    }
}

/// The rows after a stack, with the columns that the output takes from stacks
/// three and four.
pub open spec fn with_tails(
    trunk: TrunkValues,
    rows: Seq<u32>,
    frames: usize,
    dim: usize,
    s: int,
) -> Result<TrunkValues, Refusal> {
    let count = rows.len() as int;
    let next = TrunkValues { rows, frames, dim, ..trunk };
    if s == 3 {
        match slice_rows_refusal(count, frames, dim, 512, 768) {
            Some(reason) => Err(Refusal::Shape { reason }),
            None => Ok(
                TrunkValues {
                    tail3: Some(sliced_rows(rows, frames as int, dim as int, 512, 768)),
                    ..next
                },
            ),
        }
    } else if s == 4 {
        match slice_rows_refusal(count, frames, dim, 256, 512) {
            Some(reason) => Err(Refusal::Shape { reason }),
            None => Ok(
                TrunkValues {
                    tail4: Some(sliced_rows(rows, frames as int, dim as int, 256, 512)),
                    ..next
                },
            ),
        }
    } else {
        Ok(next)
    }
}

/// The rows before stack `s`, or why there are none.
pub open spec fn trunk_values(
    m: FloatModel,
    metadata: XasrZipformerExecutionMetadata,
    weights: XasrEncoderWeights,
    start: TrunkValues,
    valid_left_context: usize,
    s: int,
) -> Result<TrunkValues, Refusal>
    decreases s,
{
    if s <= 1 {
        Ok(start)
    } else {
        match trunk_values(m, metadata, weights, start, valid_left_context, s - 1) {
            Err(refusal) => Err(refusal),
            Ok(trunk) => step_values(m, metadata, weights, trunk, valid_left_context, s - 1),
        }
    }
}

proof fn lemma_step_failure_stays(
    m: FloatModel,
    metadata: XasrZipformerExecutionMetadata,
    weights: XasrEncoderWeights,
    start: TrunkValues,
    valid_left_context: usize,
    s: int,
    more: int,
)
    requires
        s <= more,
        trunk_values(m, metadata, weights, start, valid_left_context, s) is Err,
    ensures
        trunk_values(m, metadata, weights, start, valid_left_context, more) == trunk_values(
            m,
            metadata,
            weights,
            start,
            valid_left_context,
            s,
        ),
    decreases more - s,
{
    if s < more {
        lemma_step_failure_stays(m, metadata, weights, start, valid_left_context, s, more - 1);
    }
}

/// Three lists of rows of 256 columns side by side.
pub open spec fn side_by_side(a: Seq<u32>, b: Seq<u32>, c: Seq<u32>, frames: int) -> Seq<u32> {
    joined(frames, |t: int| part_of(a, 256, t) + part_of(b, 256, t) + part_of(c, 256, t))
}

/// Why three lists of rows cannot be set side by side.
pub open spec fn side_by_side_refusal(a: int, b: int, c: int, frames: usize) -> Option<Seq<char>> {
    if frames * 768 > usize::MAX {
        Some("concat output length overflows"@)
    } else if rows_refusal(a, frames, 256, "concat input"@) is Some {
        rows_refusal(a, frames, 256, "concat input"@)
    } else if rows_refusal(b, frames, 256, "concat input"@) is Some {
        rows_refusal(b, frames, 256, "concat input"@)
    } else {
        rows_refusal(c, frames, 256, "concat input"@)
    }
}

/// Sets three lists of rows side by side.
#[verifier::spinoff_prover]
fn join_three(a: &[u32], b: &[u32], c: &[u32], frames: usize) -> (result: Result<
    Vec<u32>,
    XasrEncoderGraphError,
>)
    ensures
        shape_outcome(
            result,
            side_by_side_refusal(
                a@.len() as int,
                b@.len() as int,
                c@.len() as int,
                frames,
            ),
        ),
        result is Ok ==> result->Ok_0@ == side_by_side(a@, b@, c@, frames as int),
        result is Ok ==> result->Ok_0@.len() == frames * 768,
{
    let wide: usize = 256;
    let mut parts: Vec<(&[u32], usize)> = Vec::new();
    parts.push((a, wide));
    parts.push((b, wide));
    parts.push((c, wide));
    proof {
        reveal_with_fuel(total_width, 4);
        reveal_with_fuel(concat_part_refusal, 4);
        assert(total_width(parts@, 3) == 768);
        assert(concat_refusal(parts@, frames) == side_by_side_refusal(
            a@.len() as int,
            b@.len() as int,
            c@.len() as int,
            frames,
        ));
    }
    let result = concat_frame_rows_reference(frames, parts.as_slice());
    proof {
        if result is Ok {
            let f = |t: int| concat_row(parts@, t, parts@.len() as int);
            let g = |t: int| part_of(a@, 256, t) + part_of(b@, 256, t) + part_of(c@, 256, t);
            assert forall|t: int| 0 <= t < frames implies #[trigger] f(t) == g(t) by {
                reveal_with_fuel(concat_row, 4);
                assert(f(t) =~= g(t));
            }
            rows::lemma_joined_same(frames as int, f, g);
            assert forall|t: int| 0 <= t < frames implies (#[trigger] g(t)).len() == 768 by {
                rows::lemma_part_bounds(t, frames as int, 256);
            }
            rows::lemma_joined_len(frames as int, g, 768);
        }
    }
    result
}

/// The rows that the output is made of: those after the last stack, where they
/// are narrow with the columns kept of stacks four and three behind them.
pub open spec fn output_rows(
    trunk: TrunkValues,
    output_dim: usize,
) -> Result<(Seq<u32>, usize), Refusal> {
    if output_dim == 768 && trunk.dim == 256 {
        if trunk.tail4 is None {
            Err(Refusal::Shape { reason: "full encoder final concat missing stack4 tail"@ })
        } else if trunk.tail3 is None {
            Err(Refusal::Shape { reason: "full encoder final concat missing stack3 tail"@ })
        } else {
            match side_by_side_refusal(
                trunk.rows.len() as int,
                trunk.tail4->0.len() as int,
                trunk.tail3->0.len() as int,
                trunk.frames,
            ) {
                Some(reason) => Err(Refusal::Shape { reason }),
                None => Ok(
                    (
                        side_by_side(
                            trunk.rows,
                            trunk.tail4->0,
                            trunk.tail3->0,
                            trunk.frames as int,
                        ),
                        output_dim,
                    ),
                ),
            }
        }
    } else {
        Ok((trunk.rows, trunk.dim))
    }
}

/// What the stacks behind the first give, or why they fail.
pub open spec fn tail_values(
    m: FloatModel,
    metadata: XasrZipformerExecutionMetadata,
    weights: XasrEncoderWeights,
    rows: Seq<u32>,
    frames: usize,
    dim: usize,
    valid_left_context: usize,
) -> Result<Seq<u32>, Refusal> {
    let start = TrunkValues { rows, frames, dim, tail3: None, tail4: None };
    let output_dim = largest(metadata.encoder_dims@);
    if rows_refusal(rows.len() as int, frames, dim, "stack0 output"@) is Some {
        Err(
            Refusal::Shape {
                reason: rows_refusal(rows.len() as int, frames, dim, "stack0 output"@)->0,
            },
        )
    } else {
        match trunk_values(
            m,
            metadata,
            weights,
            start,
            valid_left_context,
            metadata.num_stacks as int,
        ) {
            Err(refusal) => Err(refusal),
            Ok(trunk) => match output_rows(trunk, output_dim) {
                Err(refusal) => Err(refusal),
                Ok((wide, wide_dim)) => match downsampled(
                    m,
                    wide,
                    trunk.frames,
                    wide_dim,
                    output_dim,
                    weights.downsample_output_bias@,
                ) {
                    Err(reason) => Err(
                        Refusal::Reference { stage: "downsample_output"@, reason },
                    ),
                    Ok(down) => Ok(down),
                },
            },
        }
    }
}

/// The number of frames before stack `s`.
pub open spec fn trunk_frames(weights: XasrEncoderWeights, frames: int, s: int) -> int
    decreases s,
{
    if s <= 1 {
        frames
    } else {
        let bias = (weights.stacks@[s - 1].downsample_bias->0)@.len() as int;
        ceil_div(trunk_frames(weights, frames, s - 1), bias) * bias
    }
}

/// The width of rows before stack `s`.
pub open spec fn trunk_dim(weights: XasrEncoderWeights, dim: usize, s: int) -> usize {
    if s <= 1 {
        dim
    } else {
        weights.stacks@[s - 1].dim
    }
}

/// A stack can run on this many rows: the sizes of its parts can be counted.
#[verifier::opaque]
pub open spec fn step_can_run(
    metadata: XasrZipformerExecutionMetadata,
    weights: XasrEncoderWeights,
    frames: usize,
    dim: usize,
    s: int,
) -> bool {
    let stack = weights.stacks@[s];
    let bias = (stack.downsample_bias->0)@.len() as int;
    stack.downsample_bias is Some ==> {
        &&& can_downsample(frames, dim, stack.dim, bias)
        &&& bias > 0 && stack.dim > 0 ==> forall|i: int|
            0 <= i < stack.layers@.len() ==> layer_can_run(
                #[trigger] stack.layers@[i],
                ceil_div(frames as int, bias) as usize,
                stack.dim,
                metadata.num_heads@[s],
                metadata.query_head_dims@[s],
                metadata.left_context_len@[s],
            )
    }
}

/// The stacks behind the first can run on this many rows.
pub open spec fn tail_can_run(
    metadata: XasrZipformerExecutionMetadata,
    weights: XasrEncoderWeights,
    frames: usize,
    dim: usize,
) -> bool {
    let n = metadata.num_stacks as int;
    let output_dim = largest(metadata.encoder_dims@);
    let last_dim = trunk_dim(weights, dim, n);
    &&& forall|s: int|
        1 <= s < n ==> step_can_run(
            metadata,
            weights,
            #[trigger] trunk_frames(weights, frames as int, s) as usize,
            trunk_dim(weights, dim, s),
            s,
        )
    &&& can_downsample(
        trunk_frames(weights, frames as int, n) as usize,
        if output_dim == 768 && last_dim == 256 {
            output_dim
        } else {
            last_dim
        },
        output_dim,
        weights.downsample_output_bias@.len() as int,
    )
}

struct Trunk {
    rows: Vec<u32>,
    frames: usize,
    dim: usize,
    tail3: Option<Vec<u32>>,
    tail4: Option<Vec<u32>>,
}

spec fn tail_view(tail: Option<Vec<u32>>) -> Option<Seq<u32>> {
    match tail {
        Some(rows) => Some(rows@),
        None => None,
    }
}

impl Trunk {
    spec fn values(self) -> TrunkValues {
        TrunkValues {
            rows: self.rows@,
            frames: self.frames,
            dim: self.dim,
            tail3: tail_view(self.tail3),
            tail4: tail_view(self.tail4),
        }
    }
}

impl XasrZipformerEncoderGraph {
    /// Takes the rows through one stack.
    #[verifier::spinoff_prover]
    #[verifier::rlimit(60)]
    fn advance<O: FloatOps>(
        &self,
        ops: &O,
        trunk: Trunk,
        valid_left_context: usize,
        s: usize,
    ) -> (result: Result<Trunk, XasrEncoderGraphError>)
        requires
            self.wf(),
            float_ops::sized(ops),
            1 <= s < self.spec_metadata().num_stacks,
            step_can_run(
                self.spec_metadata(),
                self.spec_weights(),
                trunk.frames,
                trunk.dim,
                s as int,
            ),
        ensures
            result is Ok ==> {
                let stack = self.spec_weights().stacks@[s as int];
                let bias = (stack.downsample_bias->0)@.len() as int;
                &&& result->Ok_0.rows@.len() == result->Ok_0.frames * result->Ok_0.dim
                &&& result->Ok_0.dim == stack.dim
                &&& result->Ok_0.frames == ceil_div(trunk.frames as int, bias) * bias
            },
            float_ops::functional(ops) ==> match step_values(
                float_ops::model(ops),
                self.spec_metadata(),
                self.spec_weights(),
                trunk.values(),
                valid_left_context,
                s as int,
            ) {
                Ok(next) => result is Ok && result->Ok_0.values() == next,
                Err(refusal) => result is Err && result->Err_0.is(refusal),
            },
    {
        reveal(step_values);
        reveal(step_can_run);
        let metadata = self.metadata();
        let stack = &self.weights().stacks[s];
        let factor = stack.downsampling_factor;
        if factor == 0 {
            return Err(stack_shape_error(s, " downsampling factor must be > 0"));
        }
        let bias = match &stack.downsample_bias {
            Some(bias) => bias,
            None => return Err(stack_shape_error(s, " missing downsample bias")),
        };
        let downsample = match downsample_streaming_reference(
            ops,
            trunk.rows.as_slice(),
            trunk.frames,
            trunk.dim,
            stack.dim,
            bias.as_slice(),
        ) {
            Ok(downsample) => downsample,
            Err(reason) => return Err(stack_error("stack_downsample", s, reason.as_str())),
        };
        let branch_frames = downsample.frames;
        let branch_valid_left_context = div_ceil(valid_left_context, factor);
        let branch = match run_layers(
            ops,
            &stack.layers,
            downsample.rows.as_slice(),
            branch_frames,
            stack.dim,
            metadata.num_heads[s],
            metadata.query_head_dims[s],
            metadata.left_context_len[s],
            branch_valid_left_context,
        ) {
            Ok(branch) => branch,
            Err(failure) => {
                let (layer, reason) = failure;
                return Err(stack_layer_error(s, layer, reason.as_str()));
            },
        };
        let ghost bias_len = bias@.len() as int;
        proof {
            assert(downsample.padded_rows.len() == downsample.padded_rows@.len());
            assert(branch.len() == branch@.len());
            law_groups_hold_all_rows(trunk.frames as int, bias_len);
            let padded = branch_frames * bias_len;
            vstd::arithmetic::div_mod::lemma_div_by_multiple(padded, stack.dim as int);
            assert(padded <= padded * stack.dim) by (nonlinear_arith)
                requires
                    0 <= padded,
                    1 <= stack.dim,
            ;
        }
        let padded_frames = downsample.padded_rows.len() / stack.dim;
        let upsample = match upsample_streaming_reference(
            branch.as_slice(),
            branch_frames,
            stack.dim,
            factor,
            padded_frames,
        ) {
            Ok(upsample) => upsample,
            Err(reason) => return Err(stack_error("stack_upsample", s, reason.as_str())),
        };
        let out_combiner = match &stack.out_combiner_bypass_scale {
            Some(scale) => scale,
            None => return Err(stack_shape_error(s, " missing out_combiner bypass scale")),
        };
        let rows = match bypass_reference(
            ops,
            downsample.padded_rows.as_slice(),
            upsample.as_slice(),
            out_combiner.as_slice(),
            padded_frames,
            stack.dim,
        ) {
            Ok(rows) => rows,
            Err(reason) => return Err(stack_error("stack_out_combiner", s, reason.as_str())),
        };
        let mut tail3 = trunk.tail3;
        let mut tail4 = trunk.tail4;
        if s == 3 {
            let tail = slice_frame_rows_reference(
                rows.as_slice(),
                padded_frames,
                stack.dim,
                512,
                768,
            )?;
            tail3 = Some(tail);
        } else if s == 4 {
            let tail = slice_frame_rows_reference(
                rows.as_slice(),
                padded_frames,
                stack.dim,
                256,
                512,
            )?;
            tail4 = Some(tail);
        }
        Ok(Trunk { rows, frames: padded_frames, dim: stack.dim, tail3, tail4 })
    }

    /// Takes the rows of the first stack through the other stacks.
    #[verifier::spinoff_prover]
    #[verifier::rlimit(60)]
    pub fn encode_multiscale_tail_from_stack0_rows<O: FloatOps>(
        &self,
        ops: &O,
        rows: &[u32],
        frames: usize,
        dim: usize,
        valid_left_context: usize,
    ) -> (result: Result<XasrEncoderGraphOutput, XasrEncoderGraphError>)
        requires
            self.wf(),
            float_ops::sized(ops),
            tail_can_run(self.spec_metadata(), self.spec_weights(), frames, dim),
        ensures
            rows_refusal(rows@.len() as int, frames, dim, "stack0 output"@) is Some
                ==> shape_outcome(
                result,
                rows_refusal(rows@.len() as int, frames, dim, "stack0 output"@),
            ),
            result is Ok ==> {
                let output = result->Ok_0;
                let metadata = self.spec_metadata();
                let weights = self.spec_weights();
                &&& output.dim == largest(metadata.encoder_dims@)
                &&& output.frames == ceil_div(
                    trunk_frames(weights, frames as int, metadata.num_stacks as int),
                    weights.downsample_output_bias@.len() as int,
                )
                &&& output.rows@.len() == output.frames * output.dim
            },
            float_ops::functional(ops) ==> match tail_values(
                float_ops::model(ops),
                self.spec_metadata(),
                self.spec_weights(),
                rows@,
                frames,
                dim,
                valid_left_context,
            ) {
                Ok(values) => result is Ok && result->Ok_0.rows@ == values,
                Err(refusal) => result is Err && result->Err_0.is(refusal),
            },
    {
        validate_rows_len(rows, frames, dim, "stack0 output")?;
        let ghost m = float_ops::model(ops);
        let ghost metadata = self.spec_metadata();
        let ghost weights = self.spec_weights();
        let ghost start = TrunkValues { rows: rows@, frames, dim, tail3: None, tail4: None };
        let mut copy: Vec<u32> = Vec::new();
        push_all(&mut copy, rows);
        assert(copy@ =~= rows@);
        let mut trunk = Trunk { rows: copy, frames, dim, tail3: None, tail4: None };
        let num_stacks = self.metadata().num_stacks;
        let mut s: usize = 1;
        while s < num_stacks
            invariant
                1 <= s <= num_stacks,
                self.wf(),
                float_ops::sized(ops),
                m == float_ops::model(ops),
                metadata == self.spec_metadata(),
                weights == self.spec_weights(),
                num_stacks == metadata.num_stacks,
                rows_refusal(rows@.len() as int, frames, dim, "stack0 output"@) is None,
                start == (TrunkValues { rows: rows@, frames, dim, tail3: None, tail4: None }),
                tail_can_run(metadata, weights, frames, dim),
                trunk.frames == trunk_frames(weights, frames as int, s as int),
                trunk.dim == trunk_dim(weights, dim, s as int),
                trunk.rows@.len() == trunk.frames * trunk.dim,
                float_ops::functional(ops) ==> trunk_values(
                    m,
                    metadata,
                    weights,
                    start,
                    valid_left_context,
                    s as int,
                ) == Ok::<TrunkValues, Refusal>(trunk.values()),
            decreases num_stacks - s,
        {
            match self.advance(ops, trunk, valid_left_context, s) {
                Ok(next) => {
                    trunk = next;
                },
                Err(error) => {
                    proof {
                        if float_ops::functional(ops) {
                            lemma_step_failure_stays(
                                m,
                                metadata,
                                weights,
                                start,
                                valid_left_context,
                                s + 1,
                                num_stacks as int,
                            );
                        }
                    }
                    return Err(error);
                },
            }
            s = s + 1;
        }
        let output_dim = self.metadata().encoder_output_dim();
        let mut wide = trunk.rows;
        let mut wide_dim = trunk.dim;
        if output_dim == 768 && wide_dim == 256 {
            let tail4 = match trunk.tail4 {
                Some(tail) => tail,
                None => return Err(
                    shape_error(
                        "full encoder final concat missing stack4 tail",
                    ),
                ),
            };
            let tail3 = match trunk.tail3 {
                Some(tail) => tail,
                None => return Err(
                    shape_error(
                        "full encoder final concat missing stack3 tail",
                    ),
                ),
            };
            wide = join_three(wide.as_slice(), tail4.as_slice(), tail3.as_slice(), trunk.frames)?;
            wide_dim = output_dim;
        }
        match downsample_streaming_reference(
            ops,
            wide.as_slice(),
            trunk.frames,
            wide_dim,
            output_dim,
            self.weights().downsample_output_bias.as_slice(),
        ) {
            Ok(output) => Ok(
                XasrEncoderGraphOutput {
                    frames: output.frames,
                    dim: output.dim,
                    rows: output.rows,
                },
            ),
            Err(reason) => Err(
                XasrEncoderGraphError::Reference { stage: "downsample_output", reason },
            ),
        }
    }
}

} // verus!
