//! Running the graph of the whole encoder: what is computed, what is uploaded
//! for each chunk, and what becomes of the results.

use vstd::prelude::*;
use crate::encoder_binding::{float_leaf, layer_shape, partly_noted};
use crate::encoder_error::{
    of_shape, outcome, shape_error, Refusal, XasrEncoderGraphError,
};
use crate::encoder_plan::{
    layer_built, lemma_downsample_bound_in_grown, PlanTask, XasrZipformerLayerGraphUpload,
};
use crate::encoder_rows::XasrEncoderGraphOutput;
use crate::encoder_tables::shape_outcome;
use crate::encoder_upload::{
    cache_lengths, cache_lengths_refusal, floats, layer_cache_lengths, lemma_noted_is_partly_noted,
    lemma_partly_noted_trans, XasrEncoderLayerCache,
};
use crate::encoder_weights::XasrEncoderWeights;
use crate::float_ops;
use crate::float_ops::{FloatModel, FloatOps};
use crate::full_encoder::{
    build_full_encoder_graph_plan, lemma_tail_in_grown, PlanRequest, XasrFullEncoderGraphPlan,
};
use crate::full_upload;
use crate::full_upload::{caches_view, upload_all, upload_caches};
use crate::graph::{EffectView, GgmlCpuGraphBuilder, GgmlCpuTensor};
use crate::plan_spans::{lemma_apart_wider, parts_apart};
use crate::runtime_contract::XasrZipformerExecutionMetadata;
use crate::tensor_value::{Shape4, TensorValue};
use crate::zipformer_graph;

verus! {

/// The new caches of a layer and their lengths.
pub open spec fn layer_outputs(
    entry: XasrZipformerLayerGraphUpload,
) -> Seq<(GgmlCpuTensor, usize)> {
    let lengths = cache_lengths(entry.binding.shape);
    seq![
        (entry.output.new_cached_key, lengths.cached_key),
        (entry.output.new_cached_nonlin_attention, lengths.cached_nonlin_attention),
        (entry.output.new_cached_val1, lengths.cached_val1),
        (entry.output.new_cached_val2, lengths.cached_val2),
        (entry.output.new_cached_conv1, lengths.cached_conv1),
        (entry.output.new_cached_conv2, lengths.cached_conv2),
    ]
}

impl XasrFullEncoderGraphPlan {
    /// Why the outputs have no lengths.
    pub open spec fn outputs_refusal(self, layers: int) -> Option<Seq<char>>
        decreases layers,
    {
        if layers <= 0 {
            if self.output.frames * self.output.dim > usize::MAX {
                Some("full encoder output shape overflows"@)
            } else {
                None
            }
        } else if self.outputs_refusal(layers - 1) is Some {
            self.outputs_refusal(layers - 1)
        } else {
            cache_lengths_refusal(self.parts@.layers[layers - 1].binding.shape)
        }
    }

    /// What is computed: the rows, then the caches of the first `layers`
    /// layers, each with its length.
    pub open spec fn outputs(self, layers: int) -> Seq<(GgmlCpuTensor, usize)>
        decreases layers,
    {
        if layers <= 0 {
            seq![(self.output.rows, (self.output.frames * self.output.dim) as usize)]
        } else {
            self.outputs(layers - 1) + layer_outputs(self.parts@.layers[layers - 1])
        }
    }

    /// Number of layers whose caches are computed.
    pub open spec fn captured(self, capture_caches: bool) -> int {
        if capture_caches {
            self.parts@.layers.len() as int
        } else {
            0
        }
    }

    proof fn lemma_outputs_refusal_monotone(self, layers: int, longer: int)
        requires
            0 <= layers <= longer,
            self.outputs_refusal(layers) is Some,
        ensures
            self.outputs_refusal(longer) == self.outputs_refusal(layers),
        decreases longer,
    {
        if layers < longer {
            self.lemma_outputs_refusal_monotone(layers, longer - 1);
        }
    }

    /// One row block and six caches for each layer.
    pub proof fn lemma_outputs_len(self, layers: int)
        requires
            0 <= layers,
        ensures
            self.outputs(layers).len() == 1 + 6 * layers,
        decreases layers,
    {
        if layers > 0 {
            self.lemma_outputs_len(layers - 1);
        }
    }
}

impl PlanTask {
    /// Why the caches of one of the first `count` layers of stack `s` have no
    /// lengths.
    pub open spec fn stack_caches_refusal(self, s: int, count: int) -> Option<Seq<char>>
        decreases count,
    {
        let site = self.site(s);
        if count <= 0 {
            None
        } else if self.stack_caches_refusal(s, count - 1) is Some {
            self.stack_caches_refusal(s, count - 1)
        } else {
            cache_lengths_refusal(
                layer_shape(
                    self.stack(s).layers@[count - 1],
                    self.stack(s).dim,
                    site.frames,
                    site.left_context_len,
                    site.num_heads,
                    site.query_head_dim,
                ),
            )
        }
    }

    /// Why the outputs have no lengths: the rows, or the caches of one of the
    /// first `count` stacks.
    pub open spec fn captured_refusal(self, count: int) -> Option<Seq<char>>
        decreases count,
    {
        if count <= 0 {
            if self.output_shape().out_frames() * self.output_dim() > usize::MAX {
                Some("full encoder output shape overflows"@)
            } else {
                None
            }
        } else if self.captured_refusal(count - 1) is Some {
            self.captured_refusal(count - 1)
        } else {
            self.stack_caches_refusal(count - 1, self.stack(count - 1).layers@.len() as int)
        }
    }

    /// Why no graph that runs chunk after chunk can be built.
    pub open spec fn reusable_refusal(self) -> Option<Refusal> {
        if self.plan_refusal() is Some {
            self.plan_refusal()
        } else {
            of_shape(self.captured_refusal(self.stack_count()))
        }
    }

    proof fn lemma_stack_captured(
        self,
        graph: GgmlCpuGraphBuilder,
        plan: XasrFullEncoderGraphPlan,
        x: TensorValue,
        s: int,
        count: int,
    )
        requires
            self.plan_built(graph, plan, x),
            0 <= s < self.stack_count(),
            0 <= count <= self.stack(s).layers@.len(),
        ensures
            plan.outputs_refusal(self.layer_start(s) + count) == (if plan.outputs_refusal(
                self.layer_start(s),
            ) is Some {
                plan.outputs_refusal(self.layer_start(s))
            } else {
                self.stack_caches_refusal(s, count)
            }),
        decreases count,
    {
        if count > 0 {
            self.lemma_stack_captured(graph, plan, x, s, count - 1);
            self.lemma_layer_start_monotone(0, s);
            let from = self.layer_start(s);
            let parts = plan.parts@;
            assert(self.stack_built(graph, parts, x, s));
            assert(self.layer_start(s + 1) == from + self.stack(s).layers@.len());
            assert(layer_built(
                graph,
                self.branch_input(graph, parts, s, self.trunk_value(graph, parts, x, s)),
                self.stack(s),
                self.site(s),
                parts.layers,
                from,
                from + count - 1,
            ));
        }
    }

    proof fn lemma_stacks_captured(
        self,
        graph: GgmlCpuGraphBuilder,
        plan: XasrFullEncoderGraphPlan,
        x: TensorValue,
        count: int,
    )
        requires
            self.plan_built(graph, plan, x),
            0 <= count <= self.stack_count(),
        ensures
            plan.outputs_refusal(self.layer_start(count)) == self.captured_refusal(count),
        decreases count,
    {
        if count > 0 {
            self.lemma_stacks_captured(graph, plan, x, count - 1);
            self.lemma_stack_captured(
                graph,
                plan,
                x,
                count - 1,
                self.stack(count - 1).layers@.len() as int,
            );
        }
    }

    /// Whether the outputs of a built graph have lengths depends on the encoder
    /// alone.
    pub proof fn lemma_captured_refusal(
        self,
        graph: GgmlCpuGraphBuilder,
        plan: XasrFullEncoderGraphPlan,
        x: TensorValue,
    )
        requires
            self.covered(),
            self.plan_built(graph, plan, x),
        ensures
            plan.outputs_refusal(plan.captured(true)) == self.captured_refusal(self.stack_count()),
    {
        self.lemma_stacks_captured(graph, plan, x, self.stack_count());
    }
}

/// The tensors that a computation reads back, with their lengths.
pub fn full_encoder_output_specs(plan: &XasrFullEncoderGraphPlan, capture_caches: bool) -> (result:
    Result<Vec<(GgmlCpuTensor, usize)>, XasrEncoderGraphError>)
    ensures
        shape_outcome(result, plan.outputs_refusal(plan.captured(capture_caches))),
        result is Ok ==> result->Ok_0@ == plan.outputs(plan.captured(capture_caches)),
{
    let ghost all = plan.parts@.layers.len() as int;
    proof {
        if plan.outputs_refusal(0) is Some {
            plan.lemma_outputs_refusal_monotone(0, plan.captured(capture_caches));
        }
    }
    let expected = match plan.output.frames.checked_mul(plan.output.dim) {
        Some(expected) => expected,
        None => return Err(shape_error("full encoder output shape overflows")),
    };
    let mut specs: Vec<(GgmlCpuTensor, usize)> = vec![(plan.output.rows, expected)];
    assert(specs@ =~= plan.outputs(0));
    if capture_caches {
        let mut i: usize = 0;
        while i < plan.parts.layer_uploads.len()
            invariant
                i <= plan.parts.layer_uploads.len(),
                all == plan.parts@.layers.len(),
                capture_caches,
                plan.outputs_refusal(i as int) is None,
                specs@ == plan.outputs(i as int),
            decreases plan.parts.layer_uploads.len() - i,
        {
            let entry = &plan.parts.layer_uploads[i];
            proof {
                if plan.outputs_refusal(i + 1) is Some {
                    plan.lemma_outputs_refusal_monotone(i + 1, all);
                }
            }
            let lengths = layer_cache_lengths(entry.binding.shape())?;
            specs.push((entry.output.new_cached_key, lengths.cached_key));
            specs.push((entry.output.new_cached_nonlin_attention, lengths.cached_nonlin_attention));
            specs.push((entry.output.new_cached_val1, lengths.cached_val1));
            specs.push((entry.output.new_cached_val2, lengths.cached_val2));
            specs.push((entry.output.new_cached_conv1, lengths.cached_conv1));
            specs.push((entry.output.new_cached_conv2, lengths.cached_conv2));
            assert(specs@ =~= plan.outputs(i + 1));
            i = i + 1;
        }
    }
    Ok(specs)
}

/// Rows and caches of a chunk.
#[derive(Clone, Debug, PartialEq)]
pub struct XasrEncoderChunkGraphOutput {
    pub output: XasrEncoderGraphOutput,
    pub layer_caches: Vec<XasrEncoderLayerCache>,
}

/// The caches of a layer are the six results from position `at`.
pub open spec fn cache_holds(
    cache: XasrEncoderLayerCache,
    outputs: Seq<Vec<u32>>,
    at: int,
) -> bool {
    &&& cache.cached_key == outputs[at]
    &&& cache.cached_nonlin_attention == outputs[at + 1]
    &&& cache.cached_val1 == outputs[at + 2]
    &&& cache.cached_val2 == outputs[at + 3]
    &&& cache.cached_conv1 == outputs[at + 4]
    &&& cache.cached_conv2 == outputs[at + 5]
}

/// Names the results of a computation: the rows, then the caches of each layer.
pub fn take_chunk_output(
    frames: usize,
    dim: usize,
    layers: usize,
    outputs: Vec<Vec<u32>>,
) -> (chunk:
    XasrEncoderChunkGraphOutput)
    requires
        outputs@.len() >= 1 + 6 * layers,
    ensures
        chunk.output.frames == frames,
        chunk.output.dim == dim,
        chunk.output.rows == outputs@[0],
        chunk.layer_caches@.len() == layers,
        forall|i: int|
            0 <= i < layers ==> cache_holds(
                #[trigger] chunk.layer_caches@[i],
                outputs@,
                1 + 6 * i,
            ),
{
    let ghost all = outputs@;
    let mut outputs = outputs;
    let rows = outputs.remove(0);
    let mut layer_caches: Vec<XasrEncoderLayerCache> = Vec::new();
    let mut i: usize = 0;
    while i < layers
        invariant
            i <= layers,
            all.len() >= 1 + 6 * layers,
            outputs@ == all.skip(1 + 6 * i),
            layer_caches@.len() == i,
            forall|j: int|
                0 <= j < i ==> cache_holds(#[trigger] layer_caches@[j], all, 1 + 6 * j),
        decreases layers - i,
    {
        let cached_key = outputs.remove(0);
        let cached_nonlin_attention = outputs.remove(0);
        let cached_val1 = outputs.remove(0);
        let cached_val2 = outputs.remove(0);
        let cached_conv1 = outputs.remove(0);
        let cached_conv2 = outputs.remove(0);
        layer_caches.push(
            XasrEncoderLayerCache {
                cached_key,
                cached_nonlin_attention,
                cached_val1,
                cached_val2,
                cached_conv1,
                cached_conv2,
            },
        );
        i = i + 1;
    }
    XasrEncoderChunkGraphOutput {
        output: XasrEncoderGraphOutput { frames, dim, rows },
        layer_caches,
    }
}

/// A built graph stays built while operations or effects are added.
#[verifier::spinoff_prover]
pub proof fn lemma_plan_built_in_grown(
    task: PlanTask,
    before: GgmlCpuGraphBuilder,
    after: GgmlCpuGraphBuilder,
    plan: XasrFullEncoderGraphPlan,
    x: TensorValue,
)
    requires
        task.covered(),
        task.plan_built(before, plan, x),
        after.builds_on(before),
        task.plan_refusal() is None,
    ensures
        task.plan_built(after, plan, x),
{
    let p = plan.parts@;
    let n = task.stack_count();
    task.lemma_trunk_in_grown(before, after, p, p, x, n);
    if task.widened() {
        lemma_tail_in_grown(task, before, after, p, p, x, 3, 512, 768, n);
        lemma_tail_in_grown(task, before, after, p, p, x, 4, 256, 512, n);
    }
    assert(task.final_trunk(after, p, x) == task.final_trunk(before, p, x));
    task.output_shape().lemma_values_in_grown(
        before,
        after,
        task.final_trunk(before, p, x),
        p.downsamples[n - 1].tensors,
        p.downsamples[n - 1].weights@,
    );
    lemma_downsample_bound_in_grown(before, after, p.downsamples[n - 1], task.output_shape());
    lemma_apart_wider(p, 0, before@.len() as int, 0, after@.len() as int);
}

/// A graph that runs chunk after chunk.  Weights are uploaded for the first
/// chunk only.
pub struct XasrFullEncoderReusableGraph {
    pub graph: GgmlCpuGraphBuilder,
    pub frames: usize,
    pub dim: usize,
    pub valid_left_context: usize,
    pub input: GgmlCpuTensor,
    pub static_uploaded: bool,
    pub output_specs: Vec<(GgmlCpuTensor, usize)>,
    pub plan: XasrFullEncoderGraphPlan,
}

/// The input rows of a graph.
pub open spec fn input_value(input: GgmlCpuTensor, frames: usize, dim: usize) -> TensorValue {
    TensorValue::leaf(input.id as int, (Shape4 { ne0: dim, ne1: frames, ne2: 1, ne3: 1 }))
}

impl XasrFullEncoderReusableGraph {
    /// The encoder and the chunk shape that the graph is for.
    pub open spec fn task(
        self,
        metadata: XasrZipformerExecutionMetadata,
        weights: XasrEncoderWeights,
    ) -> PlanTask {
        PlanTask {
            metadata,
            weights,
            frames: self.frames,
            dim: self.dim,
            valid_left_context: self.valid_left_context,
            persistent: true,
        }
    }

    /// The graph is that of the encoder, over its input rows.
    pub open spec fn built_for(
        self,
        metadata: XasrZipformerExecutionMetadata,
        weights: XasrEncoderWeights,
    ) -> bool {
        let task = self.task(metadata, weights);
        &&& task.covered()
        &&& task.plan_refusal() is None
        &&& self.graph.has_dense(self.input)
        &&& self.graph.recorded()[self.input.id as int] == float_leaf(
            self.dim,
            self.frames,
            1,
            1,
            "xasr_full_input",
        )
        &&& self.graph.value(self.input) == input_value(self.input, self.frames, self.dim)
        &&& task.plan_built(
            self.graph,
            self.plan,
            input_value(self.input, self.frames, self.dim),
        )
        &&& parts_apart(self.plan.parts@, self.input.id + 1, self.graph@.len() as int)
        &&& self.plan.outputs_refusal(self.plan.captured(true)) is None
        &&& self.output_specs@ == self.plan.outputs(self.plan.captured(true))
    }

    pub open spec fn fits_chunk(
        self,
        frames: usize,
        dim: usize,
        valid_left_context: usize,
    ) -> bool {
        self.frames == frames && self.dim == dim && self.valid_left_context == valid_left_context
    }

    /// Whether the graph is for chunks of this shape.
    pub fn matches(&self, frames: usize, dim: usize, valid_left_context: usize) -> (result: bool)
        ensures
            result == self.fits_chunk(frames, dim, valid_left_context),
    {
        self.frames == frames && self.dim == dim && self.valid_left_context == valid_left_context
    }

    /// Builds the graph for chunks of a shape.
    #[verifier::spinoff_prover]
    pub fn build<O: FloatOps>(
        ops: &O,
        metadata: &XasrZipformerExecutionMetadata,
        weights: &XasrEncoderWeights,
        frames: usize,
        dim: usize,
        valid_left_context: usize,
    ) -> (result: Result<Self, XasrEncoderGraphError>)
        requires
            (PlanTask {
                metadata: *metadata,
                weights: *weights,
                frames,
                dim,
                valid_left_context,
                persistent: true,
            }).covered(),
        ensures
            outcome(
                result,
                (PlanTask {
                    metadata: *metadata,
                    weights: *weights,
                    frames,
                    dim,
                    valid_left_context,
                    persistent: true,
                }).reusable_refusal(),
            ),
            result is Ok ==> {
                let reuse = result->Ok_0;
                &&& reuse.built_for(*metadata, *weights)
                &&& reuse.fits_chunk(frames, dim, valid_left_context)
                &&& !reuse.static_uploaded
                &&& float_ops::functional(ops) ==> reuse.task(*metadata, *weights).weighs(
                    float_ops::model(ops),
                    reuse.plan.parts@,
                )
                &&& reuse.graph.pending() == reuse.task(*metadata, *weights).plan_marks(
                    seq![EffectView::SetInput { tensor: reuse.input.id as int }],
                    reuse.plan,
                )
            },
    {
        let mut graph = GgmlCpuGraphBuilder::new();
        proof {
            graph.lemma_view_len();
        }
        let input = graph.new_tensor_2d_f32(dim, frames, "xasr_full_input");
        graph.set_input(input);
        assert(graph.pending() =~= seq![EffectView::SetInput { tensor: input.id as int }]);
        let request = PlanRequest {
            metadata,
            weights,
            frames,
            dim,
            valid_left_context,
            persistent: true,
        };
        let plan = build_full_encoder_graph_plan(ops, &mut graph, request, input)?;
        let ghost task = request.task();
        assert(task.plan_built(graph, plan, input_value(input, frames, dim)));
        proof {
            task.lemma_captured_refusal(graph, plan, input_value(input, frames, dim));
        }
        let output_specs = full_encoder_output_specs(&plan, true)?;
        Ok(
            XasrFullEncoderReusableGraph {
                graph,
                frames,
                dim,
                valid_left_context,
                input,
                static_uploaded: false,
                output_specs,
                plan,
            },
        )
    }

    /// Why a chunk cannot be uploaded.
    pub open spec fn chunk_refusal(
        self,
        weights: XasrEncoderWeights,
        caches: Option<Seq<XasrEncoderLayerCache>>,
    ) -> Option<Seq<char>> {
        if self.static_uploaded {
            self.plan.parts@.caches_refusal(caches, self.plan.parts@.layers.len() as int)
        } else {
            self.plan.parts@.upload_refusal(weights, caches)
        }
    }

    /// The uploads of a chunk, appended: its rows, and all weights the first
    /// time, or else the caches.
    pub open spec fn chunk_uploads(
        self,
        m: FloatModel,
        weights: XasrEncoderWeights,
        rows: Seq<u32>,
        caches: Option<Seq<XasrEncoderLayerCache>>,
    ) -> Seq<EffectView> {
        let with_rows = self.graph.pending().push(floats(self.input, rows, "xasr_full_input"@));
        if self.static_uploaded {
            self.plan.parts@.caches_uploads(
                with_rows,
                caches,
                self.plan.parts@.layers.len() as int,
            )
        } else {
            self.plan.parts@.all_uploads(m, with_rows, weights, caches)
        }
    }

    /// Uploads a chunk.  Whatever comes of it, the weights count as uploaded.
    #[verifier::spinoff_prover]
    pub fn upload_chunk<O: FloatOps>(
        &mut self,
        ops: &O,
        metadata: &XasrZipformerExecutionMetadata,
        weights: &XasrEncoderWeights,
        rows: &[u32],
        caches: Option<&[XasrEncoderLayerCache]>,
    ) -> (result: Result<(), XasrEncoderGraphError>)
        requires
            old(self).built_for(*metadata, *weights),
        ensures
            shape_outcome(result, old(self).chunk_refusal(*weights, caches_view(caches))),
            final(self).built_for(*metadata, *weights),
            final(self).fits_chunk(old(self).frames, old(self).dim, old(self).valid_left_context),
            final(self).plan == old(self).plan,
            final(self).input == old(self).input,
            final(self).output_specs == old(self).output_specs,
            final(self).static_uploaded,
            partly_noted(old(self).graph, final(self).graph),
            result is Ok && (
                old(self).static_uploaded || float_ops::functional(ops)
            ) ==> final(self).graph.pending() == old(self).chunk_uploads(
                float_ops::model(ops),
                *weights,
                rows@,
                caches_view(caches),
            ),
    {
        let ghost x = input_value(self.input, self.frames, self.dim);
        let ghost task = self.task(*metadata, *weights);
        proof {
            full_upload::law_built_plan_can_be_uploaded(task, self.graph, self.plan, x);
        }
        let needs_static_upload = !self.static_uploaded;
        if needs_static_upload {
            self.static_uploaded = true;
        }
        self.graph.set_f32_slice(self.input, rows, "xasr_full_input");
        let ghost g1 = self.graph;
        proof {
            lemma_noted_is_partly_noted(old(self).graph, g1);
            full_upload::lemma_fits_noted(old(self).graph, g1, self.plan.parts@, *weights);
            reveal(zipformer_graph::XasrZipformerLayerGraphTensors::within);
            assert forall|i: int| 0 <= i < self.plan.parts@.layers.len() implies (
            #[trigger] self.plan.parts@.layers[i]).binding.tensors.within(g1) by {
                assert(self.plan.parts@.layer_fits(g1, *weights, i));
            }
        }
        let result = if needs_static_upload {
            upload_all(ops, &mut self.graph, weights, &self.plan.parts, caches)
        } else {
            upload_caches(&mut self.graph, &self.plan.parts, caches)
        };
        proof {
            lemma_partly_noted_trans(old(self).graph, g1, self.graph);
            lemma_plan_built_in_grown(task, old(self).graph, self.graph, self.plan, x);
        }
        result
    }

    /// The results of a chunk.
    pub fn finish_chunk(&self, outputs: Vec<Vec<u32>>) -> (chunk: XasrEncoderChunkGraphOutput)
        requires
            outputs@.len() >= 1 + 6 * self.plan.parts@.layers.len(),
        ensures
            chunk.output.frames == self.plan.output.frames,
            chunk.output.dim == self.plan.output.dim,
            chunk.output.rows == outputs@[0],
            chunk.layer_caches@.len() == self.plan.parts@.layers.len(),
            forall|i: int|
                0 <= i < chunk.layer_caches@.len() ==> cache_holds(
                    #[trigger] chunk.layer_caches@[i],
                    outputs@,
                    1 + 6 * i,
                ),
    {
        take_chunk_output(
            self.plan.output.frames,
            self.plan.output.dim,
            self.plan.parts.layer_uploads.len(),
            outputs,
        )
    }
}

} // verus!
