//! Building the graph of the whole encoder.

use vstd::prelude::*;
use vstd::string::StringExecFns;
use crate::embed_binding;
use crate::embed_binding::XasrDownsampleGraphBinding;
use crate::encoder_error::{
    at_stage, map_ggml_stage, outcome, shape_error, Refusal, XasrEncoderGraphError,
};
use crate::encoder_plan;
use crate::encoder_plan::{
    build_downsample, build_layers, combiner_bound, downsample_bound, downsample_marks,
    layer_built, layer_marks, layers_value, lemma_downsample_bound_in_grown,
    lemma_layer_built_in_grown, lemma_layers_in_grown, norms_present, parts_extend, PlanParts,
    PlanTask, XasrOutCombinerGraphUpload, XasrZipformerLayerGraphUpload,
};
use crate::encoder_weights::XasrEncoderWeights;
use crate::float_ops;
use crate::float_ops::FloatOps;
use crate::graph;
use crate::graph::{EffectView, GgmlCpuGraphBuilder, GgmlCpuTensor};
use crate::layer_graph;
use crate::layer_graph::{
    apply_bypass_graph, apply_upsample_graph, div_ceil, slice_frame_rows_graph,
    XasrDownsampleGraphOutput, XasrDownsampleGraphShape, XasrUpsampleGraphShape,
};
use crate::plan_spans::{
    lemma_apart_combiner, lemma_apart_downsample, lemma_apart_empty, lemma_apart_layers,
    lemma_apart_wider, parts_apart,
};
use crate::runtime_contract;
use crate::runtime_contract::XasrZipformerExecutionMetadata;
use crate::softmax::softmax_row;
use crate::tensor_value::TensorValue;
use crate::text;
use crate::text::decimal;

verus! {

/// The lists of an encoder graph.
#[derive(Debug)]
pub struct XasrFullEncoderGraphParts {
    pub layer_uploads: Vec<XasrZipformerLayerGraphUpload>,
    pub downsample_uploads: Vec<XasrDownsampleGraphBinding>,
    pub out_combiner_uploads: Vec<XasrOutCombinerGraphUpload>,
}

impl View for XasrFullEncoderGraphParts {
    type V = PlanParts;

    open spec fn view(&self) -> PlanParts {
        PlanParts {
            layers: self.layer_uploads@,
            downsamples: self.downsample_uploads@,
            combiners: self.out_combiner_uploads@,
        }
    }
}

/// The trunk after some stacks.
#[derive(Clone, Copy, Debug)]
pub struct EncoderTrunk {
    pub state: GgmlCpuTensor,
    pub frames: usize,
    /// The columns of stack 3 that the output keeps.
    pub stack3_tail: Option<GgmlCpuTensor>,
    /// The columns of stack 4 that the output keeps.
    pub stack4_tail: Option<GgmlCpuTensor>,
}

/// The first `count` stacks stand in the graph and `trunk` is what they make of
/// `x`.
pub open spec fn trunk_built(
    task: PlanTask,
    graph: GgmlCpuGraphBuilder,
    parts: PlanParts,
    x: TensorValue,
    trunk: EncoderTrunk,
    count: int,
) -> bool {
    let combined = if count > 0 {
        count - 1
    } else {
        0
    };
    &&& task.stacks_refusal(count) is None
    &&& parts.layers.len() == task.layer_start(count)
    &&& parts.downsamples.len() == combined
    &&& parts.combiners.len() == combined
    &&& forall|s: int| 0 <= s < count ==> #[trigger] task.stack_built(graph, parts, x, s)
    &&& graph.has_dense(trunk.state)
    &&& graph.value(trunk.state) == task.trunk_value(graph, parts, x, count)
    &&& trunk.frames == task.trunk_frames(count)
    &&& trunk.stack3_tail is Some <==> count > 3
    &&& trunk.stack4_tail is Some <==> count > 4
    &&& count > 3 ==> {
        &&& graph.has_dense(trunk.stack3_tail->0)
        &&& graph.value(trunk.stack3_tail->0) == task.tail_value(graph, parts, x, 3, 512, 768)
    }
    &&& count > 4 ==> {
        &&& graph.has_dense(trunk.stack4_tail->0)
        &&& graph.value(trunk.stack4_tail->0) == task.tail_value(graph, parts, x, 4, 256, 512)
    }
}

fn stack_reason(stack_index: usize, rest: &str) -> (error: XasrEncoderGraphError)
    ensures
        error.is_shape("stack"@ + decimal(stack_index as nat) + rest@),
{
    let mut reason = text::copy_text("stack");
    text::push_number(&mut reason, stack_index);
    reason.append(rest);
    XasrEncoderGraphError::Shape { reason }
}

/// What one stack of a trunk is built from.
#[derive(Clone, Copy, Debug)]
pub struct PlanRequest<'a> {
    pub metadata: &'a XasrZipformerExecutionMetadata,
    pub weights: &'a XasrEncoderWeights,
    pub frames: usize,
    pub dim: usize,
    pub valid_left_context: usize,
    pub persistent: bool,
}

impl<'a> PlanRequest<'a> {
    pub open spec fn task(self) -> PlanTask {
        PlanTask {
            metadata: *self.metadata,
            weights: *self.weights,
            frames: self.frames,
            dim: self.dim,
            valid_left_context: self.valid_left_context,
            persistent: self.persistent,
        }
    }
}

/// Adds the first stack, which keeps the frame rate.
#[verifier::spinoff_prover]
#[verifier::rlimit(60)]
fn build_first_stack(
    graph: &mut GgmlCpuGraphBuilder,
    request: PlanRequest<'_>,
    input: GgmlCpuTensor,
    parts: &mut XasrFullEncoderGraphParts,
) -> (result: Result<EncoderTrunk, XasrEncoderGraphError>)
    requires
        request.task().covered(),
        old(graph).has_dense(input),
        old(parts)@.layers.len() == 0,
        old(parts)@.downsamples.len() == 0,
        old(parts)@.combiners.len() == 0,
    ensures
        final(graph).builds_on(*old(graph)),
        outcome(result, request.task().stack_refusal(0)),
        result is Ok ==> {
            &&& trunk_built(
                request.task(),
                *final(graph),
                final(parts)@,
                old(graph).value(input),
                result->Ok_0,
                1,
            )
            &&& forall|floor: int|
                #[trigger] parts_apart(old(parts)@, floor, old(graph)@.len() as int)
                    ==> parts_apart(final(parts)@, floor, final(graph)@.len() as int)
            &&& final(graph).pending() == request.task().trunk_marks(
                old(graph).pending(),
                final(parts)@,
                1,
            )
        },
{
    let ghost task = request.task();
    let stack = &request.weights.stacks[0];
    let factor = stack.downsampling_factor;
    if factor == 0 {
        return Err(stack_reason(0, " downsampling factor must be > 0"));
    }
    if factor != 1 {
        let mut reason = text::copy_text("stack0 contract drift: downsampling_factor=");
        text::push_number(&mut reason, factor);
        return Err(XasrEncoderGraphError::Shape { reason });
    }
    proof {
        reveal_with_fuel(PlanTask::layer_start, 3);
        reveal_with_fuel(PlanTask::trunk_value, 3);
        reveal_with_fuel(PlanTask::trunk_frames, 2);
        reveal_with_fuel(PlanTask::stacks_refusal, 3);
        reveal_with_fuel(PlanTask::trunk_marks, 3);
        assert(norms_present(request.weights.stacks@[0]));
    }
    let ghost x = graph.value(input);
    let ghost p0 = parts@;
    let state = build_layers(
        graph,
        stack,
        0,
        request.metadata.left_context_len[0],
        request.metadata.num_heads[0],
        request.metadata.query_head_dims[0],
        input,
        request.frames,
        request.valid_left_context,
        request.persistent,
        "full_encoder_layer_alloc",
        "full_encoder_layer_graph",
        &mut parts.layer_uploads,
    )?;
    proof {
        assert(task.branch_input(*graph, parts@, 0, x) == x);
        assert(task.trunk_value(*graph, parts@, x, 0) == x);
        assert(task.stack_built(*graph, parts@, x, 0));
        assert forall|floor: int| #[trigger] parts_apart(
            p0,
            floor,
            old(graph)@.len() as int,
        ) implies parts_apart(parts@, floor, graph@.len() as int) by {
            lemma_apart_layers(
                p0,
                parts@,
                floor,
                old(graph)@.len() as int,
                graph@.len() as int,
            );
        }
        assert(task.trunk_value(*graph, parts@, x, 1) == task.stack_value(
            *graph,
            parts@,
            0,
            x,
        ));
    }
    Ok(EncoderTrunk { state, frames: request.frames, stack3_tail: None, stack4_tail: None })
}

/// The layers of a stack at their own frame rate, and the padded trunk.
#[derive(Clone, Copy, Debug)]
struct StackBranch {
    padded_rows: GgmlCpuTensor,
    rows: GgmlCpuTensor,
    frames: usize,
}

/// Why the branch of stack `s` is refused.
spec fn branch_refusal(task: PlanTask, s: int) -> Option<Refusal> {
    let stack = task.stack(s);
    let shape = task.downsample_shape(s);
    let handles = embed_binding::downsample_handles(0, shape);
    let alloc = embed_binding::downsample_allocation_refusal(shape);
    let down = layer_graph::downsample_refusal(stack.downsample_bias->0@, handles, shape);
    if stack.downsampling_factor == 0 {
        Some(
            Refusal::Shape {
                reason: "stack"@ + decimal(s as nat) + " downsampling factor must be > 0"@,
            },
        )
    } else if stack.downsample_bias is None {
        Some(
            Refusal::Shape {
                reason: "stack"@ + decimal(s as nat) + " missing downsample bias"@,
            },
        )
    } else if alloc is Some {
        at_stage("full_encoder_downsample_alloc"@, alloc)
    } else if down is Some {
        at_stage("full_encoder_downsample_graph"@, down)
    } else {
        encoder_plan::layers_refusal(
            stack,
            task.site(s),
            "full_encoder_layer_alloc"@,
            "full_encoder_layer_graph"@,
            stack.layers@.len() as int,
        )
    }
}

/// The branch of stack `s` stands in the graph, over the trunk `rows`.
spec fn branch_built(
    task: PlanTask,
    graph: GgmlCpuGraphBuilder,
    parts: PlanParts,
    rows: TensorValue,
    branch: StackBranch,
    s: int,
) -> bool {
    let from = task.layer_start(s);
    let to = task.layer_start(s + 1);
    let input = task.branch_input(graph, parts, s, rows);
    &&& 0 <= from <= to
    &&& parts.layers.len() == to
    &&& parts.downsamples.len() == s
    &&& downsample_bound(graph, parts.downsamples[s - 1], task.downsample_shape(s))
    &&& forall|i: int|
        from <= i < to ==> #[trigger] layer_built(
            graph,
            input,
            task.stack(s),
            task.site(s),
            parts.layers,
            from,
            i,
        )
    &&& graph.has_dense(branch.padded_rows)
    &&& graph.value(branch.padded_rows) == task.downsample_shape(s).padded_value(
        graph,
        rows,
        parts.downsamples[s - 1].tensors,
    )
    &&& graph.has_dense(branch.rows)
    &&& graph.value(branch.rows) == layers_value(graph, input, parts.layers, from, to)
    &&& branch.frames == task.branch_frames(s)
    &&& task.trunk_frames(s + 1) <= usize::MAX
    &&& task.trunk_frames(s + 1) == branch.frames * task.stack(s).downsampling_factor
}

/// A branch stays built while the graph grows and combiners are added.
proof fn lemma_branch_in_grown(
    task: PlanTask,
    before: GgmlCpuGraphBuilder,
    after: GgmlCpuGraphBuilder,
    parts: PlanParts,
    longer: PlanParts,
    rows: TensorValue,
    branch: StackBranch,
    s: int,
)
    requires
        0 < s,
        branch_built(task, before, parts, rows, branch, s),
        after.builds_on(before),
        longer.layers == parts.layers,
        longer.downsamples == parts.downsamples,
    ensures
        branch_built(task, after, longer, rows, branch, s),
{
    let shape = task.downsample_shape(s);
    let binding = parts.downsamples[s - 1];
    let from = task.layer_start(s);
    let to = task.layer_start(s + 1);
    shape.lemma_values_in_grown(
        before,
        after,
        rows,
        binding.tensors,
        binding.weights@,
    );
    lemma_downsample_bound_in_grown(before, after, binding, shape);
    let input = task.branch_input(before, parts, s, rows);
    assert(task.branch_input(after, longer, s, rows) == input);
    assert forall|i: int| from <= i < to implies (
    #[trigger] parts.layers[i]).binding.tensors.within(before) by {
        assert(layer_built(before, input, task.stack(s), task.site(s), parts.layers, from, i));
    }
    lemma_layers_in_grown(before, after, input, parts.layers, parts.layers, from, to);
    assert forall|i: int| from <= i < to implies #[trigger] layer_built(
        after,
        input,
        task.stack(s),
        task.site(s),
        parts.layers,
        from,
        i,
    ) by {
        assert(layer_built(before, input, task.stack(s), task.site(s), parts.layers, from, i));
        lemma_layer_built_in_grown(
            before,
            after,
            input,
            task.stack(s),
            task.site(s),
            parts.layers,
            parts.layers,
            from,
            i,
        );
    }
}

/// Adds the branch of stack `stack_index`.
#[verifier::spinoff_prover]
#[verifier::rlimit(60)]
fn build_branch<O: FloatOps>(
    ops: &O,
    graph: &mut GgmlCpuGraphBuilder,
    request: PlanRequest<'_>,
    stack_index: usize,
    trunk: GgmlCpuTensor,
    trunk_frames: usize,
    parts: &mut XasrFullEncoderGraphParts,
) -> (result: Result<StackBranch, XasrEncoderGraphError>)
    requires
        request.task().covered(),
        0 < stack_index < request.metadata.num_stacks,
        old(graph).has_dense(trunk),
        trunk_frames == request.task().trunk_frames(stack_index as int),
        old(parts)@.layers.len() == request.task().layer_start(stack_index as int),
        old(parts)@.downsamples.len() == stack_index - 1,
    ensures
        final(graph).builds_on(*old(graph)),
        outcome(result, branch_refusal(request.task(), stack_index as int)),
        result is Ok ==> {
            &&& final(parts)@.combiners == old(parts)@.combiners
            &&& parts_extend(old(parts)@, final(parts)@)
            &&& forall|floor: int|
                #[trigger] parts_apart(old(parts)@, floor, old(graph)@.len() as int)
                    ==> parts_apart(final(parts)@, floor, final(graph)@.len() as int)
            &&& float_ops::functional(ops) ==> final(parts)@.downsamples[stack_index - 1].weights@
                == softmax_row(
                float_ops::model(ops),
                request.task().stack(stack_index as int).downsample_bias->0@,
            )
            &&& branch_built(
                request.task(),
                *final(graph),
                final(parts)@,
                old(graph).value(trunk),
                result->Ok_0,
                stack_index as int,
            )
            &&& final(graph).pending() == layer_marks(
                downsample_marks(
                    old(graph).pending(),
                    final(parts)@.downsamples[stack_index - 1],
                    request.persistent,
                ),
                final(parts)@.layers,
                request.task().layer_start(stack_index as int),
                request.task().layer_start(stack_index + 1),
                request.persistent,
            )
        },
{
    let ghost task = request.task();
    let ghost s = stack_index as int;
    let ghost rows = graph.value(trunk);
    let stack = &request.weights.stacks[stack_index];
    let factor = stack.downsampling_factor;
    if factor == 0 {
        return Err(stack_reason(stack_index, " downsampling factor must be > 0"));
    }
    let bias = match &stack.downsample_bias {
        Some(bias) => bias,
        None => return Err(stack_reason(stack_index, " missing downsample bias")),
    };
    let trunk_dim = request.weights.stacks[stack_index - 1].dim;
    let (downsampling, downsample) = build_downsample(
        ops,
        graph,
        trunk,
        bias.as_slice(),
        trunk_frames,
        trunk_dim,
        stack.dim,
        factor,
        request.persistent,
        "full_encoder_downsample_alloc",
        "full_encoder_downsample_graph",
    )?;
    let ghost p0 = parts@;
    let ghost binding = downsampling;
    parts.downsample_uploads.push(downsampling);
    let ghost g1 = *graph;
    let ghost p1 = parts@;
    let branch_valid_left_context = div_ceil(request.valid_left_context, factor);
    proof {
        assert(encoder_plan::norms_present(request.weights.stacks@[s]));
        task.lemma_layer_start_monotone(s, s + 1);
    }
    let branch_rows = build_layers(
        graph,
        stack,
        stack_index,
        request.metadata.left_context_len[stack_index],
        request.metadata.num_heads[stack_index],
        request.metadata.query_head_dims[stack_index],
        downsample.rows,
        downsample.frames,
        branch_valid_left_context,
        request.persistent,
        "full_encoder_layer_alloc",
        "full_encoder_layer_graph",
        &mut parts.layer_uploads,
    )?;
    proof {
        let shape = task.downsample_shape(s);
        shape.lemma_values_in_grown(g1, *graph, rows, binding.tensors, binding.weights@);
        lemma_downsample_bound_in_grown(g1, *graph, binding, shape);
        assert(parts@.downsamples[s - 1] == binding);
        assert(task.branch_input(*graph, parts@, s, rows) == g1.value(downsample.rows));
        assert forall|floor: int| #[trigger] parts_apart(
            p0,
            floor,
            old(graph)@.len() as int,
        ) implies parts_apart(parts@, floor, graph@.len() as int) by {
            lemma_apart_downsample(
                p0,
                p1,
                binding,
                floor,
                old(graph)@.len() as int,
                g1@.len() as int,
            );
            lemma_apart_layers(p1, parts@, floor, g1@.len() as int, graph@.len() as int);
        }
    }
    Ok(
        StackBranch {
            padded_rows: downsample.padded_rows,
            rows: branch_rows,
            frames: downsample.frames,
        },
    )
}

/// Why stack `s` is refused before its tail is cut.
spec fn untailed_refusal(task: PlanTask, s: int) -> Option<Refusal> {
    let branch = branch_refusal(task, s);
    if branch is Some {
        branch
    } else {
        at_stage(
            "full_encoder_upsample_graph"@,
            layer_graph::upsample_refusal(task.upsample_shape(s)),
        )
    }
}

/// Why the tail of stack `s` is refused.
spec fn tail_refusal(task: PlanTask, s: int) -> Option<Refusal> {
    let frames = task.trunk_frames(s + 1) as usize;
    let dim = task.stack(s).dim;
    if s == 3 {
        at_stage(
            "full_encoder_stack3_tail_graph"@,
            layer_graph::slice_refusal(frames, dim, 512, 768),
        )
    } else if s == 4 {
        at_stage(
            "full_encoder_stack4_tail_graph"@,
            layer_graph::slice_refusal(frames, dim, 256, 512),
        )
    } else {
        None
    }
}

proof fn lemma_stack_refusal_parts(task: PlanTask, s: int)
    requires
        0 < s,
    ensures
        task.stack_refusal(s) == (if untailed_refusal(task, s) is Some {
            untailed_refusal(task, s)
        } else {
            tail_refusal(task, s)
        }),
{
}

/// The first `count` stacks stand in the graph; the state is what they make of
/// `x`.
spec fn state_built(
    task: PlanTask,
    graph: GgmlCpuGraphBuilder,
    parts: PlanParts,
    x: TensorValue,
    state: GgmlCpuTensor,
    frames: usize,
    count: int,
) -> bool {
    &&& parts.layers.len() == task.layer_start(count)
    &&& parts.downsamples.len() == count - 1
    &&& parts.combiners.len() == count - 1
    &&& forall|s: int| 0 <= s < count ==> #[trigger] task.stack_built(graph, parts, x, s)
    &&& graph.has_dense(state)
    &&& graph.value(state) == task.trunk_value(graph, parts, x, count)
    &&& frames == task.trunk_frames(count)
}

/// Adds stack `stack_index` without its tail.
#[verifier::spinoff_prover]
#[verifier::rlimit(60)]
fn build_untailed_stack<O: FloatOps>(
    ops: &O,
    graph: &mut GgmlCpuGraphBuilder,
    request: PlanRequest<'_>,
    input: GgmlCpuTensor,
    stack_index: usize,
    trunk: GgmlCpuTensor,
    trunk_frames: usize,
    parts: &mut XasrFullEncoderGraphParts,
) -> (result: Result<(GgmlCpuTensor, usize), XasrEncoderGraphError>)
    requires
        request.task().covered(),
        0 < stack_index < request.metadata.num_stacks,
        old(graph).has_dense(input),
        state_built(
            request.task(),
            *old(graph),
            old(parts)@,
            old(graph).value(input),
            trunk,
            trunk_frames,
            stack_index as int,
        ),
    ensures
        final(graph).builds_on(*old(graph)),
        outcome(result, untailed_refusal(request.task(), stack_index as int)),
        result is Ok ==> {
            &&& parts_extend(old(parts)@, final(parts)@)
            &&& forall|floor: int|
                #[trigger] parts_apart(old(parts)@, floor, old(graph)@.len() as int)
                    ==> parts_apart(final(parts)@, floor, final(graph)@.len() as int)
            &&& float_ops::functional(ops) ==> final(parts)@.downsamples[stack_index - 1].weights@
                == softmax_row(
                float_ops::model(ops),
                request.task().stack(stack_index as int).downsample_bias->0@,
            )
            &&& state_built(
                request.task(),
                *final(graph),
                final(parts)@,
                old(graph).value(input),
                result->Ok_0.0,
                result->Ok_0.1,
                stack_index + 1,
            )
            &&& final(graph).pending() == request.task().stack_marks(
                old(graph).pending(),
                final(parts)@,
                stack_index as int,
            )
        },
{
    let ghost task = request.task();
    let ghost s = stack_index as int;
    let ghost x = graph.value(input);
    let ghost g0 = *graph;
    let ghost p0 = parts@;
    let stack = &request.weights.stacks[stack_index];
    let factor = stack.downsampling_factor;
    let branch = build_branch(ops, graph, request, stack_index, trunk, trunk_frames, parts)?;
    let ghost g2 = *graph;
    let ghost p2 = parts@;
    let padded_frames = branch.frames * factor;
    let repeated = apply_upsample_graph(
        graph,
        branch.rows,
        XasrUpsampleGraphShape {
            frames: branch.frames,
            dim: stack.dim,
            factor,
            target_frames: padded_frames,
        },
    );
    let upsample = map_ggml_stage("full_encoder_upsample_graph", repeated)?;
    let ghost g3 = *graph;
    proof {
        graph.lemma_view_len();
    }
    let scale = graph.new_tensor_1d_f32(stack.dim, "xasr_out_combiner_scale");
    graph.set_input(scale);
    if request.persistent {
        graph.set_output(scale);
    }
    let ghost g4 = *graph;
    proof {
        assert(g4.builds_on(g3));
    }
    let state = apply_bypass_graph(graph, branch.padded_rows, upsample, scale);
    parts.out_combiner_uploads.push(XasrOutCombinerGraphUpload { stack_index, scale });
    proof {
        let g5 = *graph;
        let p5 = parts@;
        assert(g5.builds_on(g4));
        assert(combiner_bound(g5, p5.combiners[s - 1], s, stack.dim));
        lemma_branch_in_grown(task, g2, g5, p2, p5, g0.value(trunk), branch, s);
        task.lemma_trunk_in_grown(g0, g5, p0, p5, x, s);
        assert(task.stack_built(g5, p5, x, s));
        assert(g5.value(state) == task.stack_value(g5, p5, s, task.trunk_value(g5, p5, x, s)));
        assert(task.trunk_value(g5, p5, x, s + 1) == g5.value(state));
        assert forall|floor: int| #[trigger] parts_apart(
            p0,
            floor,
            g0@.len() as int,
        ) implies parts_apart(p5, floor, g5@.len() as int) by {
            assert(parts_apart(p2, floor, g2@.len() as int));
            lemma_apart_combiner(
                p2,
                p5,
                p5.combiners[s - 1],
                floor,
                g2@.len() as int,
                g5@.len() as int,
            );
        }
    }
    Ok((state, padded_frames))
}

/// Adds stack `stack_index`, which works at a lower frame rate.
#[verifier::spinoff_prover]
#[verifier::rlimit(60)]
fn build_next_stack<O: FloatOps>(
    ops: &O,
    graph: &mut GgmlCpuGraphBuilder,
    request: PlanRequest<'_>,
    input: GgmlCpuTensor,
    stack_index: usize,
    trunk: EncoderTrunk,
    parts: &mut XasrFullEncoderGraphParts,
) -> (result: Result<EncoderTrunk, XasrEncoderGraphError>)
    requires
        request.task().covered(),
        0 < stack_index < request.metadata.num_stacks,
        old(graph).has_dense(input),
        trunk_built(
            request.task(),
            *old(graph),
            old(parts)@,
            old(graph).value(input),
            trunk,
            stack_index as int,
        ),
    ensures
        final(graph).builds_on(*old(graph)),
        outcome(result, request.task().stack_refusal(stack_index as int)),
        result is Ok ==> {
            &&& parts_extend(old(parts)@, final(parts)@)
            &&& forall|floor: int|
                #[trigger] parts_apart(old(parts)@, floor, old(graph)@.len() as int)
                    ==> parts_apart(final(parts)@, floor, final(graph)@.len() as int)
            &&& float_ops::functional(ops) ==> final(parts)@.downsamples[stack_index - 1].weights@
                == softmax_row(
                float_ops::model(ops),
                request.task().stack(stack_index as int).downsample_bias->0@,
            )
            &&& trunk_built(
                request.task(),
                *final(graph),
                final(parts)@,
                old(graph).value(input),
                result->Ok_0,
                stack_index + 1,
            )
            &&& final(graph).pending() == request.task().stack_marks(
                old(graph).pending(),
                final(parts)@,
                stack_index as int,
            )
        },
{
    let ghost task = request.task();
    let ghost s = stack_index as int;
    let ghost x = graph.value(input);
    let ghost g0 = *graph;
    let ghost p0 = parts@;
    proof {
        lemma_stack_refusal_parts(task, s);
    }
    let (state, padded_frames) = build_untailed_stack(
        ops,
        graph,
        request,
        input,
        stack_index,
        trunk.state,
        trunk.frames,
        parts,
    )?;
    let ghost g5 = *graph;
    let dim = request.weights.stacks[stack_index].dim;
    let mut stack3_tail = trunk.stack3_tail;
    let mut stack4_tail = trunk.stack4_tail;
    if stack_index == 3 {
        let sliced = slice_frame_rows_graph(graph, state, padded_frames, dim, 512, 768);
        stack3_tail = Some(map_ggml_stage("full_encoder_stack3_tail_graph", sliced)?);
    } else if stack_index == 4 {
        let sliced = slice_frame_rows_graph(graph, state, padded_frames, dim, 256, 512);
        stack4_tail = Some(map_ggml_stage("full_encoder_stack4_tail_graph", sliced)?);
    }
    proof {
        let g6 = *graph;
        let p5 = parts@;
        assert(g6.builds_on(g5));
        task.lemma_trunk_in_grown(g5, g6, p5, p5, x, s + 1);
        if s > 3 {
            lemma_tail_in_grown(task, g0, g6, p0, p5, x, 3, 512, 768, s);
        }
        if s > 4 {
            lemma_tail_in_grown(task, g0, g6, p0, p5, x, 4, 256, 512, s);
        }
        assert(task.stacks_refusal(s + 1) == task.stack_refusal(s));
        assert forall|floor: int| #[trigger] parts_apart(
            p0,
            floor,
            g0@.len() as int,
        ) implies parts_apart(p5, floor, g6@.len() as int) by {
            lemma_apart_wider(p5, floor, g5@.len() as int, floor, g6@.len() as int);
        }
    }
    Ok(EncoderTrunk { state, frames: padded_frames, stack3_tail, stack4_tail })
}

/// A tail does not change while the graph and its parts grow.
pub proof fn lemma_tail_in_grown(
    task: PlanTask,
    before: GgmlCpuGraphBuilder,
    after: GgmlCpuGraphBuilder,
    parts: PlanParts,
    longer: PlanParts,
    x: TensorValue,
    s: int,
    start: int,
    end: int,
    count: int,
)
    requires
        0 <= s < count,
        forall|t: int| 0 <= t < count ==> #[trigger] task.stack_built(before, parts, x, t),
        after.builds_on(before),
        parts_extend(parts, longer),
    ensures
        task.tail_value(after, longer, x, s, start, end) == task.tail_value(
            before,
            parts,
            x,
            s,
            start,
            end,
        ),
{
    task.lemma_trunk_in_grown(before, after, parts, longer, x, s + 1);
}

/// The graph of the whole encoder.
#[derive(Debug)]
pub struct XasrFullEncoderGraphPlan {
    pub output: XasrDownsampleGraphOutput,
    pub parts: XasrFullEncoderGraphParts,
}

impl PlanTask {
    pub open spec fn stack_count(self) -> int {
        self.metadata.num_stacks as int
    }

    /// Width of the output: the widest stack.
    pub open spec fn output_dim(self) -> usize {
        runtime_contract::largest(self.metadata.encoder_dims@)
    }

    /// The last stack is narrower than the output, which takes its remaining
    /// columns from the two stacks before it.
    pub open spec fn widened(self) -> bool {
        self.output_dim() == 768 && self.trunk_dim(self.stack_count()) == 256
    }

    /// The trunk at the width of the output.
    pub open spec fn final_trunk(
        self,
        graph: GgmlCpuGraphBuilder,
        parts: PlanParts,
        x: TensorValue,
    ) -> TensorValue {
        let trunk = self.trunk_value(graph, parts, x, self.stack_count());
        if self.widened() {
            trunk.concat(self.tail_value(graph, parts, x, 4, 256, 512), 0).concat(
                self.tail_value(graph, parts, x, 3, 512, 768),
                0,
            )
        } else {
            trunk
        }
    }

    /// The final downsampling.
    pub open spec fn output_shape(self) -> XasrDownsampleGraphShape {
        XasrDownsampleGraphShape {
            frames: self.trunk_frames(self.stack_count()) as usize,
            input_dim: if self.widened() {
                self.output_dim()
            } else {
                self.trunk_dim(self.stack_count())
            },
            target_dim: self.output_dim(),
            factor: self.weights.downsample_output_bias@.len() as usize,
        }
    }

    /// Why the encoder graph is refused.
    pub open spec fn plan_refusal(self) -> Option<Refusal> {
        let stacks = self.stacks_refusal(self.stack_count());
        let shape = self.output_shape();
        let alloc = embed_binding::downsample_allocation_refusal(shape);
        if stacks is Some {
            stacks
        } else if self.widened() && self.stack_count() <= 4 {
            Some(
                Refusal::Shape {
                    reason: "full encoder final concat missing stack4 tail"@,
                },
            )
        } else if alloc is Some {
            at_stage("full_encoder_output_downsample_alloc"@, alloc)
        } else {
            at_stage(
                "full_encoder_output_downsample_graph"@,
                layer_graph::downsample_refusal(
                    self.weights.downsample_output_bias@,
                    embed_binding::downsample_handles(0, shape),
                    shape,
                ),
            )
        }
    }

    /// The encoder stands in the graph and its output is what it makes of `x`.
    pub open spec fn plan_built(
        self,
        graph: GgmlCpuGraphBuilder,
        plan: XasrFullEncoderGraphPlan,
        x: TensorValue,
    ) -> bool {
        let n = self.stack_count();
        let parts = plan.parts@;
        &&& parts.layers.len() == self.layer_start(n)
        &&& parts.downsamples.len() == n
        &&& parts.combiners.len() == n - 1
        &&& parts_apart(parts, 0, graph@.len() as int)
        &&& forall|s: int| 0 <= s < n ==> #[trigger] self.stack_built(graph, parts, x, s)
        &&& downsample_bound(graph, parts.downsamples[n - 1], self.output_shape())
        &&& graph.has_dense(plan.output.rows)
        &&& graph.value(plan.output.rows) == self.output_shape().rows_value(
            graph,
            self.final_trunk(graph, parts, x),
            parts.downsamples[n - 1].tensors,
            parts.downsamples[n - 1].weights@,
        )
        &&& plan.output.frames == self.output_shape().out_frames()
        &&& plan.output.dim == self.output_dim()
    }

    /// The marks of the encoder, appended.
    pub open spec fn plan_marks(
        self,
        pending: Seq<EffectView>,
        plan: XasrFullEncoderGraphPlan,
    ) -> Seq<
        EffectView,
    > {
        let n = self.stack_count();
        downsample_marks(
            self.trunk_marks(pending, plan.parts@, n),
            plan.parts@.downsamples[n - 1],
            self.persistent,
        ).push((EffectView::SetOutput { tensor: plan.output.rows.id as int }))
    }
}

/// Adds all stacks.
#[verifier::spinoff_prover]
#[verifier::rlimit(60)]
fn build_trunk<O: FloatOps>(
    ops: &O,
    graph: &mut GgmlCpuGraphBuilder,
    request: PlanRequest<'_>,
    input: GgmlCpuTensor,
    parts: &mut XasrFullEncoderGraphParts,
) -> (result: Result<EncoderTrunk, XasrEncoderGraphError>)
    requires
        request.task().covered(),
        old(graph).has_dense(input),
        old(parts)@.layers.len() == 0,
        old(parts)@.downsamples.len() == 0,
        old(parts)@.combiners.len() == 0,
    ensures
        final(graph).builds_on(*old(graph)),
        outcome(result, request.task().stacks_refusal(request.task().stack_count())),
        result is Ok ==> {
            &&& trunk_built(
                request.task(),
                *final(graph),
                final(parts)@,
                old(graph).value(input),
                result->Ok_0,
                request.task().stack_count(),
            )
            &&& forall|floor: int|
                #[trigger] parts_apart(old(parts)@, floor, old(graph)@.len() as int)
                    ==> parts_apart(final(parts)@, floor, final(graph)@.len() as int)
            &&& float_ops::functional(ops) ==> request.task().weighs_stacks(
                float_ops::model(ops),
                final(parts)@,
                request.task().stack_count(),
            )
            &&& final(graph).pending() == request.task().trunk_marks(
                old(graph).pending(),
                final(parts)@,
                request.task().stack_count(),
            )
        },
{
    let ghost task = request.task();
    let ghost x = graph.value(input);
    proof {
        assert(task.stacks_refusal(0) is None);
        assert(task.stacks_refusal(1) == task.stack_refusal(0));
        if task.stacks_refusal(1) is Some {
            task.lemma_stacks_refusal_monotone(1, task.stack_count());
        }
    }
    let mut trunk = build_first_stack(graph, request, input, parts)?;
    let mut stack_index: usize = 1;
    while stack_index < request.metadata.num_stacks
        invariant
            task == request.task(),
            task.covered(),
            1 <= stack_index <= request.metadata.num_stacks,
            old(graph).has_dense(input),
            x == old(graph).value(input),
            graph.builds_on(*old(graph)),
            trunk_built(task, *graph, parts@, x, trunk, stack_index as int),
            forall|floor: int|
                #[trigger] parts_apart(old(parts)@, floor, old(graph)@.len() as int)
                    ==> parts_apart(parts@, floor, graph@.len() as int),
            float_ops::functional(ops) ==> task.weighs_stacks(
                float_ops::model(ops),
                parts@,
                stack_index as int,
            ),
            graph.pending() == task.trunk_marks(
                old(graph).pending(),
                parts@,
                stack_index as int,
            ),
        decreases request.metadata.num_stacks - stack_index,
    {
        let ghost p0 = parts@;
        let ghost s = stack_index as int;
        proof {
            assert(task.stacks_refusal(s + 1) == task.stack_refusal(s));
            if task.stacks_refusal(s + 1) is Some {
                task.lemma_stacks_refusal_monotone(s + 1, task.stack_count());
            }
        }
        trunk = build_next_stack(ops, graph, request, input, stack_index, trunk, parts)?;
        proof {
            task.lemma_trunk_marks_prefix(old(graph).pending(), p0, parts@, s);
            assert(task.trunk_marks(old(graph).pending(), parts@, s + 1) == task.stack_marks(
                task.trunk_marks(old(graph).pending(), parts@, s),
                parts@,
                s,
            ));
            if float_ops::functional(ops) {
                let m = float_ops::model(ops);
                assert forall|k: int| 0 <= k < s implies (
                #[trigger] parts@.downsamples[k]).weights@ == softmax_row(
                    m,
                    task.stack(k + 1).downsample_bias->0@,
                ) by {
                    if k < s - 1 {
                        assert(parts@.downsamples[k] == p0.downsamples[k]);
                    }
                }
            }
        }
        stack_index = stack_index + 1;
    }
    Ok(trunk)
}

/// Builds the graph of the whole encoder over the rows `input`.
#[verifier::spinoff_prover]
#[verifier::rlimit(60)]
pub fn build_full_encoder_graph_plan<O: FloatOps>(
    ops: &O,
    graph: &mut GgmlCpuGraphBuilder,
    request: PlanRequest<'_>,
    input: GgmlCpuTensor,
) -> (result: Result<XasrFullEncoderGraphPlan, XasrEncoderGraphError>)
    requires
        request.task().covered(),
        old(graph).has_dense(input),
    ensures
        final(graph).builds_on(*old(graph)),
        outcome(result, request.task().plan_refusal()),
        result is Ok ==> {
            &&& request.task().plan_built(*final(graph), result->Ok_0, old(graph).value(input))
            &&& parts_apart(
                result->Ok_0.parts@,
                old(graph)@.len() as int,
                final(graph)@.len() as int,
            )
            &&& float_ops::functional(ops) ==> request.task().weighs(
                float_ops::model(ops),
                result->Ok_0.parts@,
            )
            &&& final(graph).pending() == request.task().plan_marks(
                old(graph).pending(),
                result->Ok_0,
            )
        },
{
    let ghost task = request.task();
    let ghost x = graph.value(input);
    let ghost n = task.stack_count();
    let mut parts = XasrFullEncoderGraphParts {
        layer_uploads: Vec::new(),
        downsample_uploads: Vec::new(),
        out_combiner_uploads: Vec::new(),
    };
    let ghost base = graph@.len() as int;
    proof {
        lemma_apart_empty(parts@, base);
    }
    let trunk = build_trunk(ops, graph, request, input, &mut parts)?;
    let ghost g1 = *graph;
    let ghost p1 = parts@;
    let mut state = trunk.state;
    let mut trunk_dim = request.weights.stacks[request.metadata.num_stacks - 1].dim;
    let output_dim = request.metadata.encoder_output_dim();
    if output_dim == 768 && trunk_dim == 256 {
        let stack4_tail = match trunk.stack4_tail {
            Some(tail) => tail,
            None => return Err(shape_error("full encoder final concat missing stack4 tail")),
        };
        let stack3_tail = match trunk.stack3_tail {
            Some(tail) => tail,
            None => return Err(shape_error("full encoder final concat missing stack3 tail")),
        };
        state = graph.concat(state, stack4_tail, 0);
        state = graph.concat(state, stack3_tail, 0);
        trunk_dim = output_dim;
    }
    let ghost g2 = *graph;
    assert(g2.value(state) == task.final_trunk(g1, p1, x));
    let output_factor = request.weights.downsample_output_bias.len();
    let (downsampling, output) = build_downsample(
        ops,
        graph,
        state,
        request.weights.downsample_output_bias.as_slice(),
        trunk.frames,
        trunk_dim,
        output_dim,
        output_factor,
        request.persistent,
        "full_encoder_output_downsample_alloc",
        "full_encoder_output_downsample_graph",
    )?;
    let ghost binding = downsampling;
    parts.downsample_uploads.push(downsampling);
    let ghost g3 = *graph;
    graph.set_output(output.rows);
    proof {
        let g4 = *graph;
        let p4 = parts@;
        assert(g3.builds_on(g1));
        assert(g4.builds_on(g3));
        assert(g4.builds_on(g1));
        assert(parts_extend(p1, p4));
        task.lemma_trunk_in_grown(g1, g4, p1, p4, x, n);
        if task.widened() {
            lemma_tail_in_grown(task, g1, g4, p1, p4, x, 3, 512, 768, n);
            lemma_tail_in_grown(task, g1, g4, p1, p4, x, 4, 256, 512, n);
        }
        assert(task.final_trunk(g4, p4, x) == task.final_trunk(g1, p1, x));
        assert(p4.downsamples[n - 1] == binding);
        task.output_shape().lemma_values_in_grown(
            g3,
            g4,
            task.final_trunk(g1, p1, x),
            binding.tensors,
            binding.weights@,
        );
        lemma_downsample_bound_in_grown(g3, g4, binding, task.output_shape());
        task.lemma_trunk_marks_prefix(old(graph).pending(), p1, p4, n);
        assert(parts_apart(p1, base, g1@.len() as int));
        lemma_apart_wider(p1, base, g1@.len() as int, base, g2@.len() as int);
        lemma_apart_downsample(p1, p4, binding, base, g2@.len() as int, g4@.len() as int);
        lemma_apart_wider(p4, base, g4@.len() as int, 0, g4@.len() as int);
        if float_ops::functional(ops) {
            let m = float_ops::model(ops);
            assert forall|k: int| 0 <= k < n - 1 implies (
            #[trigger] p4.downsamples[k]).weights@ == softmax_row(
                m,
                task.stack(k + 1).downsample_bias->0@,
            ) by {
                assert(p4.downsamples[k] == p1.downsamples[k]);
            }
        }
    }
    Ok(XasrFullEncoderGraphPlan { output, parts })
}

} // verus!
