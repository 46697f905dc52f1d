//! Planning one run of the whole encoder, and chunk after chunk.

use vstd::prelude::*;
use vstd::string::StringExecFns;
use crate::embed_binding::{
    downsample_handles, downsample_upload_refusal, XasrDownsampleGraphBinding,
};
use crate::encoder_binding::{float_leaf, layer_shape};
use crate::encoder_error::{of_shape, outcome, shape_error, Refusal, XasrEncoderGraphError};
use crate::encoder_graph::XasrZipformerEncoderGraph;
use crate::encoder_plan::{downsample_bound, layer_built, PlanTask};
use crate::encoder_rows::{rows_refusal, validate_rows_len, XasrEncoderGraphOutput};
use crate::encoder_session::{
    cache_holds, full_encoder_output_specs, input_value, layer_outputs,
    lemma_plan_built_in_grown, take_chunk_output, XasrFullEncoderReusableGraph,
};
use crate::encoder_tables::shape_outcome;
use crate::encoder_upload::{
    cache_lengths_refusal, floats, layer_upload_refusal, XasrEncoderLayerCache,
};
use crate::float_ops;
use crate::float_ops::FloatOps;
use crate::full_encoder::{
    build_full_encoder_graph_plan, PlanRequest, XasrFullEncoderGraphPlan,
};
use crate::full_upload;
use crate::full_upload::{cache_at, caches_view, upload_all};
use crate::graph::{EffectView, GgmlCpuGraphBuilder, GgmlCpuTensor};
use crate::layer_graph::XasrDownsampleGraphShape;
use crate::plan_spans::parts_apart;
use crate::runtime_contract;
use crate::tensor_value::TensorValue;
use crate::text;
use crate::text::decimal;

verus! {

/// Why the padding of a downsampling of this shape cannot be uploaded.
pub open spec fn padding_refusal(shape: XasrDownsampleGraphShape) -> Option<Seq<char>> {
    downsample_upload_refusal(downsample_handles(0, shape), shape)
}

impl PlanTask {
    /// Why the padding of one of the stacks `1..=count` cannot be uploaded.
    pub open spec fn paddings_refusal(self, count: int) -> Option<Seq<char>>
        decreases count,
    {
        if count <= 0 {
            None
        } else if self.paddings_refusal(count - 1) is Some {
            self.paddings_refusal(count - 1)
        } else {
            padding_refusal(self.downsample_shape(count))
        }
    }

    /// Why one of the first `count` layers of stack `s` cannot be uploaded.
    pub open spec fn stack_upload_refusal(
        self,
        caches: Option<Seq<XasrEncoderLayerCache>>,
        s: int,
        count: int,
    ) -> Option<Seq<char>>
        decreases count,
    {
        let site = self.site(s);
        if count <= 0 {
            None
        } else if self.stack_upload_refusal(caches, s, count - 1) is Some {
            self.stack_upload_refusal(caches, s, count - 1)
        } else {
            layer_upload_refusal(
                self.stack(s).layers@[count - 1],
                layer_shape(
                    self.stack(s).layers@[count - 1],
                    self.stack(s).dim,
                    site.frames,
                    site.left_context_len,
                    site.num_heads,
                    site.query_head_dim,
                ),
                site.valid_left_context,
                cache_at(caches, self.layer_start(s) + count - 1),
            )
        }
    }

    /// Why a layer of one of the first `count` stacks cannot be uploaded.
    pub open spec fn stacks_upload_refusal(
        self,
        caches: Option<Seq<XasrEncoderLayerCache>>,
        count: int,
    ) -> Option<Seq<char>>
        decreases count,
    {
        if count <= 0 {
            None
        } else if self.stacks_upload_refusal(caches, count - 1) is Some {
            self.stacks_upload_refusal(caches, count - 1)
        } else {
            self.stack_upload_refusal(
                caches,
                count - 1,
                self.stack(count - 1).layers@.len() as int,
            )
        }
    }

    /// Why the combiner of one of the stacks `1..=count` cannot be uploaded.
    pub open spec fn scales_refusal(self, count: int) -> Option<Seq<char>>
        decreases count,
    {
        if count <= 0 {
            None
        } else if self.scales_refusal(count - 1) is Some {
            self.scales_refusal(count - 1)
        } else if self.stack(count).out_combiner_bypass_scale is None {
            Some("stack"@ + decimal(count as nat) + " missing out_combiner bypass scale"@)
        } else {
            None
        }
    }

    /// Why weights and caches cannot be uploaded.
    pub open spec fn uploads_refusal(self, caches: Option<Seq<XasrEncoderLayerCache>>) -> Option<
        Seq<char>,
    > {
        let n = self.stack_count();
        if self.paddings_refusal(n - 1) is Some {
            self.paddings_refusal(n - 1)
        } else if padding_refusal(self.output_shape()) is Some {
            padding_refusal(self.output_shape())
        } else if self.stacks_upload_refusal(caches, n) is Some {
            self.stacks_upload_refusal(caches, n)
        } else {
            self.scales_refusal(n - 1)
        }
    }

    proof fn lemma_paddings(
        self,
        graph: GgmlCpuGraphBuilder,
        plan: XasrFullEncoderGraphPlan,
        x: TensorValue,
        count: int,
    )
        requires
            self.plan_built(graph, plan, x),
            0 <= count < self.stack_count(),
        ensures
            plan.parts@.downsamples_refusal(count) == self.paddings_refusal(count),
            plan.parts@.combiners_refusal(self.weights, count) == self.scales_refusal(count),
        decreases count,
    {
        if count > 0 {
            self.lemma_paddings(graph, plan, x, count - 1);
            assert(self.stack_built(graph, plan.parts@, x, count));
            lemma_padding_refusal(
                graph,
                plan.parts@.downsamples[count - 1],
                self.downsample_shape(count),
            );
        }
    }

    proof fn lemma_stack_uploads(
        self,
        graph: GgmlCpuGraphBuilder,
        plan: XasrFullEncoderGraphPlan,
        x: TensorValue,
        caches: Option<Seq<XasrEncoderLayerCache>>,
        s: int,
        count: int,
    )
        requires
            self.plan_built(graph, plan, x),
            0 <= s < self.stack_count(),
            0 <= count <= self.stack(s).layers@.len(),
        ensures
            plan.parts@.layers_refusal(self.weights, caches, self.layer_start(s) + count) == (
            if plan.parts@.layers_refusal(self.weights, caches, self.layer_start(s)) is Some {
                plan.parts@.layers_refusal(self.weights, caches, self.layer_start(s))
            } else {
                self.stack_upload_refusal(caches, s, count)
            }),
        decreases count,
    {
        if count > 0 {
            self.lemma_stack_uploads(graph, plan, x, caches, s, count - 1);
            self.lemma_layer_start_monotone(0, s);
            let from = self.layer_start(s);
            let parts = plan.parts@;
            assert(self.stack_built(graph, parts, x, s));
            assert(self.layer_start(s + 1) == from + self.stack(s).layers@.len());
            assert(layer_built(
                graph,
                self.branch_input(graph, parts, s, self.trunk_value(graph, parts, x, s)),
                self.stack(s),
                self.site(s),
                parts.layers,
                from,
                from + count - 1,
            ));
        }
    }

    proof fn lemma_stacks_uploads(
        self,
        graph: GgmlCpuGraphBuilder,
        plan: XasrFullEncoderGraphPlan,
        x: TensorValue,
        caches: Option<Seq<XasrEncoderLayerCache>>,
        count: int,
    )
        requires
            self.plan_built(graph, plan, x),
            0 <= count <= self.stack_count(),
        ensures
            plan.parts@.layers_refusal(self.weights, caches, self.layer_start(count))
                == self.stacks_upload_refusal(caches, count),
        decreases count,
    {
        if count > 0 {
            self.lemma_stacks_uploads(graph, plan, x, caches, count - 1);
            self.lemma_stack_uploads(
                graph,
                plan,
                x,
                caches,
                count - 1,
                self.stack(count - 1).layers@.len() as int,
            );
        }
    }

    /// Whether a built graph can be uploaded depends on the encoder and the
    /// caches alone.
    pub proof fn lemma_uploads_refusal(
        self,
        graph: GgmlCpuGraphBuilder,
        plan: XasrFullEncoderGraphPlan,
        x: TensorValue,
        caches: Option<Seq<XasrEncoderLayerCache>>,
    )
        requires
            self.covered(),
            self.plan_built(graph, plan, x),
        ensures
            plan.parts@.upload_refusal(self.weights, caches) == self.uploads_refusal(caches),
    {
        let n = self.stack_count();
        self.lemma_paddings(graph, plan, x, n - 1);
        lemma_padding_refusal(graph, plan.parts@.downsamples[n - 1], self.output_shape());
        self.lemma_stacks_uploads(graph, plan, x, caches, n);
    }
}

proof fn lemma_padding_refusal(
    graph: GgmlCpuGraphBuilder,
    binding: XasrDownsampleGraphBinding,
    shape: XasrDownsampleGraphShape,
)
    requires
        downsample_bound(graph, binding, shape),
    ensures
        downsample_upload_refusal(binding.tensors, binding.shape) == padding_refusal(shape),
{
}

/// A graph for the whole encoder and what to read back from it.
#[derive(Debug)]
pub struct FullEncoderRun {
    pub input: GgmlCpuTensor,
    pub plan: XasrFullEncoderGraphPlan,
    pub output_specs: Vec<(GgmlCpuTensor, usize)>,
}

impl XasrZipformerEncoderGraph {
    /// Why rows and caches cannot enter the encoder.
    pub open spec fn full_input_refusal(
        self,
        count: int,
        frames: usize,
        dim: usize,
        valid_left_context: usize,
        caches: Option<Seq<XasrEncoderLayerCache>>,
    ) -> Option<Seq<char>> {
        let stack = self.spec_weights().stacks@[0];
        let rows = rows_refusal(count, frames, dim, "full encoder input"@);
        let layers = runtime_contract::total(self.spec_metadata().num_encoder_layers@);
        if self.stack0_refusal() is Some {
            self.stack0_refusal()
        } else if dim != stack.dim {
            Some(
                "full encoder input dim "@ + decimal(dim as nat) + " does not match stack0 dim "@
                    + decimal(stack.dim as nat),
            )
        } else if rows is Some {
            rows
        } else if valid_left_context == 0 {
            Some("full encoder valid_left_context must be > 0"@)
        } else if caches is Some && caches->0.len() != layers {
            Some(
                "full encoder got "@ + decimal(caches->0.len()) + " layer cache(s), expected "@
                    + decimal(layers),
            )
        } else {
            None
        }
    }

    /// Checks that rows and caches can enter the encoder.
    pub fn check_full_input(
        &self,
        rows: &[u32],
        frames: usize,
        dim: usize,
        valid_left_context: usize,
        caches: Option<&[XasrEncoderLayerCache]>,
    ) -> (result: Result<(), XasrEncoderGraphError>)
        requires
            self.complete(),
        ensures
            shape_outcome(
                result,
                self.full_input_refusal(
                    rows@.len() as int,
                    frames,
                    dim,
                    valid_left_context,
                    caches_view(caches),
                ),
            ),
    {
        let stack = self.stack0()?;
        if dim != stack.dim {
            let mut reason = text::copy_text("full encoder input dim ");
            text::push_number(&mut reason, dim);
            reason.append(" does not match stack0 dim ");
            text::push_number(&mut reason, stack.dim);
            return Err(XasrEncoderGraphError::Shape { reason });
        }
        validate_rows_len(rows, frames, dim, "full encoder input")?;
        if valid_left_context == 0 {
            return Err(shape_error("full encoder valid_left_context must be > 0"));
        }
        if let Some(all) = caches {
            let layers = self.metadata().total_encoder_layers();
            if all.len() != layers {
                let mut reason = text::copy_text("full encoder got ");
                text::push_number(&mut reason, all.len());
                reason.append(" layer cache(s), expected ");
                text::push_number(&mut reason, layers);
                return Err(XasrEncoderGraphError::Shape { reason });
            }
        }
        Ok(())
    }

    /// The encoder over input of a shape.
    pub open spec fn task(
        self,
        frames: usize,
        dim: usize,
        valid_left_context: usize,
        persistent: bool,
    ) -> PlanTask {
        PlanTask {
            metadata: self.spec_metadata(),
            weights: self.spec_weights(),
            frames,
            dim,
            valid_left_context,
            persistent,
        }
    }

    /// Why one run of the encoder cannot be planned.
    pub open spec fn full_plan_refusal(
        self,
        count: int,
        frames: usize,
        dim: usize,
        valid_left_context: usize,
        caches: Option<Seq<XasrEncoderLayerCache>>,
    ) -> Option<Refusal> {
        let input = self.full_input_refusal(count, frames, dim, valid_left_context, caches);
        let task = self.task(frames, dim, valid_left_context, false);
        if input is Some {
            of_shape(input)
        } else if self.spec_config() is None {
            Some(Refusal::Shape { reason: "GGML full encoder backend requires a graph config"@ })
        } else if task.plan_refusal() is Some {
            task.plan_refusal()
        } else if task.uploads_refusal(caches) is Some {
            of_shape(task.uploads_refusal(caches))
        } else {
            of_shape(task.captured_refusal(0))
        }
    }

    /// Plans one run of the encoder.
    #[verifier::spinoff_prover]
    #[verifier::rlimit(40)]
    pub fn plan_full_encoder<O: FloatOps>(
        &self,
        ops: &O,
        graph: &mut GgmlCpuGraphBuilder,
        rows: &[u32],
        frames: usize,
        dim: usize,
        valid_left_context: usize,
        caches: Option<&[XasrEncoderLayerCache]>,
    ) -> (result: Result<FullEncoderRun, XasrEncoderGraphError>)
        requires
            self.wf(),
            self.complete(),
        ensures
            outcome(
                result,
                self.full_plan_refusal(
                    rows@.len() as int,
                    frames,
                    dim,
                    valid_left_context,
                    caches_view(caches),
                ),
            ),
            final(graph).builds_on(*old(graph)),
            result is Ok ==> {
                let run = result->Ok_0;
                let task = self.task(frames, dim, valid_left_context, false);
                &&& run.input.id == old(graph)@.len()
                &&& final(graph).recorded()[run.input.id as int] == float_leaf(
                    dim,
                    frames,
                    1,
                    1,
                    "xasr_full_input",
                )
                &&& final(graph).value(run.input) == input_value(run.input, frames, dim)
                &&& task.plan_built(*final(graph), run.plan, input_value(run.input, frames, dim))
                &&& parts_apart(
                    run.plan.parts@,
                    run.input.id + 1,
                    final(graph)@.len() as int,
                )
                &&& float_ops::functional(ops) ==> task.weighs(
                    float_ops::model(ops),
                    run.plan.parts@,
                )
                &&& run.output_specs@ == run.plan.outputs(0)
                &&& float_ops::functional(ops) ==> final(graph).pending()
                    == run.plan.parts@.all_uploads(
                    float_ops::model(ops),
                    task.plan_marks(
                        old(graph).pending().push(
                            (EffectView::SetInput { tensor: run.input.id as int }),
                        ),
                        run.plan,
                    ).push(floats(run.input, rows@, "xasr_full_input"@)),
                    self.spec_weights(),
                    caches_view(caches),
                )
            },
    {
        self.check_full_input(rows, frames, dim, valid_left_context, caches)?;
        if self.config().is_none() {
            return Err(shape_error("GGML full encoder backend requires a graph config"));
        }
        let ghost task = self.task(frames, dim, valid_left_context, false);
        let input = graph.new_tensor_2d_f32(dim, frames, "xasr_full_input");
        graph.set_input(input);
        let ghost x = input_value(input, frames, dim);
        proof {
            old(graph).lemma_view_len();
        }
        let request = PlanRequest {
            metadata: self.metadata(),
            weights: self.weights(),
            frames,
            dim,
            valid_left_context,
            persistent: false,
        };
        let plan = build_full_encoder_graph_plan(ops, graph, request, input)?;
        let ghost g1 = *graph;
        proof {
            task.lemma_uploads_refusal(g1, plan, x, caches_view(caches));
            full_upload::law_built_plan_can_be_uploaded(task, g1, plan, x);
        }
        graph.set_f32_slice(input, rows, "xasr_full_input");
        proof {
            full_upload::lemma_fits_noted(g1, *graph, plan.parts@, self.spec_weights());
        }
        upload_all(ops, graph, self.weights(), &plan.parts, caches)?;
        proof {
            lemma_plan_built_in_grown(task, g1, *graph, plan, x);
        }
        let output_specs = full_encoder_output_specs(&plan, false)?;
        Ok(FullEncoderRun { input, plan, output_specs })
    }

    /// The rows of one run.
    pub fn finish_full_encoder(run: &FullEncoderRun, outputs: Vec<Vec<u32>>) -> (output:
        XasrEncoderGraphOutput)
        requires
            outputs@.len() >= 1,
        ensures
            output.frames == run.plan.output.frames,
            output.dim == run.plan.output.dim,
            output.rows == outputs@[0],
    {
        take_chunk_output(run.plan.output.frames, run.plan.output.dim, 0, outputs).output
    }

    /// A kept graph fits chunks of this shape.
    pub open spec fn kept_for(self, frames: usize, dim: usize, valid_left_context: usize) -> bool {
        self.reuse() is Some && (self.reuse()->0).fits_chunk(frames, dim, valid_left_context)
    }

    /// Whether a graph must be built for chunks of this shape.
    pub fn needs_rebuild(
        &self,
        frames: usize,
        dim: usize,
        valid_left_context: usize,
    ) -> (result: bool)
        ensures
            result == !self.kept_for(frames, dim, valid_left_context),
    {
        match self.reusable() {
            Some(reuse) => !reuse.matches(frames, dim, valid_left_context),
            None => true,
        }
    }

    /// Why no graph for chunks of this shape can be built.
    pub open spec fn rebuild_refusal(
        self,
        frames: usize,
        dim: usize,
        valid_left_context: usize,
    ) -> Option<
        Refusal,
    > {
        if self.spec_config() is None {
            Some(Refusal::Shape { reason: "GGML full encoder backend requires a graph config"@ })
        } else {
            self.task(frames, dim, valid_left_context, true).reusable_refusal()
        }
    }

    /// Builds a graph for chunks of this shape.
    pub fn build_reusable<O: FloatOps>(
        &self,
        ops: &O,
        frames: usize,
        dim: usize,
        valid_left_context: usize,
    ) -> (result: Result<XasrFullEncoderReusableGraph, XasrEncoderGraphError>)
        requires
            self.wf(),
            self.complete(),
        ensures
            outcome(result, self.rebuild_refusal(frames, dim, valid_left_context)),
            result is Ok ==> {
                let reuse = result->Ok_0;
                &&& reuse.built_for(self.spec_metadata(), self.spec_weights())
                &&& reuse.fits_chunk(frames, dim, valid_left_context)
                &&& !reuse.static_uploaded
                &&& float_ops::functional(ops) ==> self.task(
                    frames,
                    dim,
                    valid_left_context,
                    true,
                ).weighs(float_ops::model(ops), reuse.plan.parts@)
                &&& reuse.graph.pending() == self.task(
                    frames,
                    dim,
                    valid_left_context,
                    true,
                ).plan_marks(
                    seq![EffectView::SetInput { tensor: reuse.input.id as int }],
                    reuse.plan,
                )
            },
    {
        if self.config().is_none() {
            return Err(shape_error("GGML full encoder backend requires a graph config"));
        }
        XasrFullEncoderReusableGraph::build(
            ops,
            self.metadata(),
            self.weights(),
            frames,
            dim,
            valid_left_context,
        )
    }
}

/// The results have the lengths that were asked for.
pub open spec fn lengths_as_asked(
    outputs: Seq<Vec<u32>>,
    specs: Seq<(GgmlCpuTensor, usize)>,
) -> bool {
    &&& outputs.len() == specs.len()
    &&& forall|i: int| 0 <= i < specs.len() ==> (#[trigger] outputs[i])@.len() == specs[i].1
}

/// Where the results of a layer stand among all results.
pub proof fn lemma_cache_outputs(plan: XasrFullEncoderGraphPlan, layers: int, index: int, k: int)
    requires
        0 <= index < layers,
        0 <= k < 6,
    ensures
        plan.outputs(layers).len() == 1 + 6 * layers,
        plan.outputs(layers)[1 + 6 * index + k] == layer_outputs(plan.parts@.layers[index])[k],
    decreases layers,
{
    plan.lemma_outputs_len(layers);
    plan.lemma_outputs_len(layers - 1);
    if index < layers - 1 {
        lemma_cache_outputs(plan, layers - 1, index, k);
    }
}

proof fn lemma_lengths_exist(plan: XasrFullEncoderGraphPlan, layers: int, index: int)
    requires
        0 <= index < layers,
        plan.outputs_refusal(layers) is None,
    ensures
        cache_lengths_refusal(plan.parts@.layers[index].binding.shape) is None,
    decreases layers,
{
    if index < layers - 1 {
        lemma_lengths_exist(plan, layers - 1, index);
    }
}

proof fn lemma_caches_accepted(
    reuse: XasrFullEncoderReusableGraph,
    outputs: Seq<Vec<u32>>,
    caches: Seq<XasrEncoderLayerCache>,
    count: int,
)
    requires
        reuse.plan.outputs_refusal(reuse.plan.captured(true)) is None,
        reuse.output_specs@ == reuse.plan.outputs(reuse.plan.captured(true)),
        lengths_as_asked(outputs, reuse.output_specs@),
        caches.len() == reuse.plan.parts@.layers.len(),
        forall|i: int|
            0 <= i < caches.len() ==> cache_holds(#[trigger] caches[i], outputs, 1 + 6 * i),
        forall|i: int|
            0 <= i < caches.len() ==> (#[trigger] reuse.plan.parts@.layers[i]).cache_index == i,
        0 <= count <= caches.len(),
    ensures
        reuse.plan.parts@.caches_refusal(Some(caches), count) is None,
    decreases count,
{
    if count > 0 {
        lemma_caches_accepted(reuse, outputs, caches, count - 1);
        let plan = reuse.plan;
        let n = plan.parts@.layers.len() as int;
        let i = count - 1;
        assert(cache_holds(caches[i], outputs, 1 + 6 * i));
        assert(plan.parts@.layers[i].cache_index == i);
        lemma_lengths_exist(plan, n, i);
        lemma_cache_outputs(plan, n, i, 0);
        lemma_cache_outputs(plan, n, i, 1);
        lemma_cache_outputs(plan, n, i, 2);
        lemma_cache_outputs(plan, n, i, 3);
        lemma_cache_outputs(plan, n, i, 4);
        lemma_cache_outputs(plan, n, i, 5);
        assert(outputs[1 + 6 * i]@.len() == reuse.output_specs@[1 + 6 * i].1);
        assert(outputs[1 + 6 * i + 1]@.len() == reuse.output_specs@[1 + 6 * i + 1].1);
        assert(outputs[1 + 6 * i + 2]@.len() == reuse.output_specs@[1 + 6 * i + 2].1);
        assert(outputs[1 + 6 * i + 3]@.len() == reuse.output_specs@[1 + 6 * i + 3].1);
        assert(outputs[1 + 6 * i + 4]@.len() == reuse.output_specs@[1 + 6 * i + 4].1);
        assert(outputs[1 + 6 * i + 5]@.len() == reuse.output_specs@[1 + 6 * i + 5].1);
    }
}

/// Layer `index` of a built graph is at position `index`.
proof fn lemma_cache_index(
    task: PlanTask,
    graph: GgmlCpuGraphBuilder,
    plan: XasrFullEncoderGraphPlan,
    x: TensorValue,
    index: int,
)
    requires
        task.covered(),
        task.plan_built(graph, plan, x),
        0 <= index < plan.parts@.layers.len(),
    ensures
        plan.parts@.layers[index].cache_index == index,
{
    let s = full_upload::lemma_stack_of_layer(task, task.stack_count(), index);
    let parts = plan.parts@;
    assert(task.stack_built(graph, parts, x, s));
    assert(layer_built(
        graph,
        task.branch_input(graph, parts, s, task.trunk_value(graph, parts, x, s)),
        task.stack(s),
        task.site(s),
        parts.layers,
        task.layer_start(s),
        index,
    ));
}

/// What a chunk leaves behind can enter the next chunk of the same shape: when
/// the results have the lengths that were asked for, no cache is refused.
pub proof fn law_chunk_caches_enter_the_next_chunk(
    encoder: XasrZipformerEncoderGraph,
    reuse: XasrFullEncoderReusableGraph,
    outputs: Seq<Vec<u32>>,
    caches: Seq<XasrEncoderLayerCache>,
)
    requires
        reuse.built_for(encoder.spec_metadata(), encoder.spec_weights()),
        reuse.static_uploaded,
        lengths_as_asked(outputs, reuse.output_specs@),
        caches.len() == reuse.plan.parts@.layers.len(),
        forall|i: int|
            0 <= i < caches.len() ==> cache_holds(#[trigger] caches[i], outputs, 1 + 6 * i),
    ensures
        reuse.chunk_refusal(encoder.spec_weights(), Some(caches)) is None,
{
    let task = reuse.task(encoder.spec_metadata(), encoder.spec_weights());
    let x = input_value(reuse.input, reuse.frames, reuse.dim);
    assert forall|i: int| 0 <= i < caches.len() implies (
    #[trigger] reuse.plan.parts@.layers[i]).cache_index == i by {
        lemma_cache_index(task, reuse.graph, reuse.plan, x, i);
    }
    lemma_caches_accepted(reuse, outputs, caches, caches.len() as int);
}

} // verus!
