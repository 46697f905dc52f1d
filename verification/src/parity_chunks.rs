//! A device that runs chunk after chunk on one kept graph computes what the host does.

use vstd::prelude::*;
use crate::chunk_reuse::{
    all_zeros, held, held_after, law_chunks_leave_what_the_last_leaves,
    law_zero_chunk_caches_stand_for_none, lemma_held_upload, ChunkInput,
};
use crate::encoder_binding::{input_marks, output_marks};
use crate::encoder_plan::{
    downsample_marks, layer_marks, PlanParts, PlanTask, XasrZipformerLayerGraphUpload,
};
use crate::encoder_session::XasrFullEncoderReusableGraph;
use crate::encoder_weights::XasrEncoderWeights;
use crate::full_encoder::XasrFullEncoderGraphPlan;
use crate::graph::{EffectView, GgmlCpuGraphBuilder, GgmlCpuTensor};
use crate::host_chunks::law_a_chunk_passes_every_layer;
use crate::parity::Device;
use crate::parity_plan_upload::{
    encoder_ready, law_uploaded_chunk_gives_what_the_host_gives,
    law_uploaded_encoder_gives_what_the_host_gives,
};
use crate::reference_encoder::{layers_values, tail_values};
use crate::runtime_contract::XasrZipformerExecutionMetadata;
use crate::upload_targets::{law_chunk_uploads_have_tensors_of_their_own, target};

verus! {

/// Effects that upload nothing.
pub open spec fn marks_only(effects: Seq<EffectView>) -> bool {
    forall|i: int| 0 <= i < effects.len() ==> target(#[trigger] effects[i]) is None
}

proof fn lemma_marks(effects: Seq<EffectView>, tensors: Seq<GgmlCpuTensor>)
    requires
        marks_only(effects),
    ensures
        marks_only(input_marks(effects, tensors)),
        marks_only(output_marks(effects, tensors)),
{
}

proof fn lemma_layer_marks(
    effects: Seq<EffectView>,
    layers: Seq<XasrZipformerLayerGraphUpload>,
    from: int,
    to: int,
    persistent: bool,
)
    requires
        marks_only(effects),
    ensures
        marks_only(layer_marks(effects, layers, from, to, persistent)),
    decreases to - from,
{
    if from < to {
        lemma_layer_marks(effects, layers, from, to - 1, persistent);
        let before = layer_marks(effects, layers, from, to - 1, persistent);
        let binding = layers[to - 1].binding;
        lemma_marks(before, binding.inputs());
        lemma_marks(input_marks(before, binding.inputs()), binding.static_inputs());
    }
}

proof fn lemma_trunk_marks(task: PlanTask, effects: Seq<EffectView>, parts: PlanParts, count: int)
    requires
        marks_only(effects),
    ensures
        marks_only(task.trunk_marks(effects, parts, count)),
    decreases count,
{
    if count > 0 {
        lemma_trunk_marks(task, effects, parts, count - 1);
        let s = count - 1;
        let before = task.trunk_marks(effects, parts, s);
        let from = task.layer_start(s);
        let to = task.layer_start(s + 1);
        if s == 0 {
            lemma_layer_marks(before, parts.layers, from, to, task.persistent);
        } else {
            let binding = parts.downsamples[s - 1];
            lemma_marks(before, binding.inputs());
            lemma_marks(input_marks(before, binding.inputs()), binding.inputs());
            lemma_layer_marks(
                downsample_marks(before, binding, task.persistent),
                parts.layers,
                from,
                to,
                task.persistent,
            );
        }
    }
}

/// What is pending in a graph that was just planned uploads nothing.
pub proof fn law_planning_uploads_nothing(
    task: PlanTask,
    effects: Seq<EffectView>,
    plan: XasrFullEncoderGraphPlan,
)
    requires
        marks_only(effects),
    ensures
        marks_only(task.plan_marks(effects, plan)),
{
    let n = task.stack_count();
    let binding = plan.parts@.downsamples[n - 1];
    let trunk = task.trunk_marks(effects, plan.parts@, n);
    lemma_trunk_marks(task, effects, plan.parts@, n);
    lemma_marks(trunk, binding.inputs());
    lemma_marks(input_marks(trunk, binding.inputs()), binding.inputs());
}

impl Device {
    /// The leaves hold what the tensors hold.
    pub open spec fn holds_all(
        self,
        graph: GgmlCpuGraphBuilder,
        contents: Map<int, EffectView>,
    ) -> bool {
        forall|tensor: int|
            contents.contains_key(tensor) ==> self.carries_out(graph, #[trigger] contents[tensor])
    }
}

/// Chunks that a device ran on one kept graph.
pub struct KeptRun {
    pub device: Device,
    /// The graph when it was built.
    pub fresh: XasrFullEncoderReusableGraph,
    /// The graph after its first chunk.
    pub kept: XasrFullEncoderReusableGraph,
    /// What the tensors held when the graph was built.
    pub before: Map<int, EffectView>,
    pub chunks: Seq<ChunkInput>,
}

impl KeptRun {
    /// The graph was built for the encoder, and the leaves of the device hold what the
    /// chunks left in its tensors.
    pub open spec fn ran(
        self,
        metadata: XasrZipformerExecutionMetadata,
        weights: XasrEncoderWeights,
    ) -> bool {
        let task = self.fresh.task(metadata, weights);
        &&& encoder_ready(task)
        &&& self.fresh.built_for(metadata, weights)
        &&& task.weighs(self.device.host, self.fresh.plan.parts@)
        &&& !self.fresh.static_uploaded
        &&& marks_only(self.fresh.graph.pending())
        &&& self.kept.built_for(metadata, weights)
        &&& self.kept.kept_as(self.fresh)
        &&& self.chunks.len() > 0
        &&& self.chunks.last().rows.len() == self.fresh.frames * self.fresh.dim
        &&& self.device.holds_all(
            self.fresh.graph,
            held_after(
                self.fresh,
                self.kept,
                weights,
                self.device.host,
                self.before,
                self.chunks,
            ),
        )
    }
}

/// A device whose leaves hold what the chunks left has carried out the uploads of the last.
pub proof fn lemma_last_chunk_is_uploaded(
    run: KeptRun,
    metadata: XasrZipformerExecutionMetadata,
    weights: XasrEncoderWeights,
)
    requires
        run.ran(metadata, weights),
    ensures
        run.device.carried_out(
            run.fresh.graph,
            run.fresh.chunk_uploads(
                run.device.host,
                weights,
                run.chunks.last().rows,
                run.chunks.last().caches,
            ),
        ),
{
    let device = run.device;
    let fresh = run.fresh;
    let m = device.host;
    let rows = run.chunks.last().rows;
    let caches = run.chunks.last().caches;
    let pending = fresh.graph.pending();
    let uploads = fresh.chunk_uploads(m, weights, rows, caches);
    let contents = held(run.before, uploads);
    law_chunks_leave_what_the_last_leaves(
        fresh,
        run.kept,
        metadata,
        weights,
        m,
        run.before,
        run.chunks,
    );
    law_chunk_uploads_have_tensors_of_their_own(fresh, metadata, weights, m, rows, caches);
    assert forall|j: int| 0 <= j < uploads.len() implies device.carries_out(
        fresh.graph,
        #[trigger] uploads[j],
    ) by {
        if j < pending.len() {
            assert(uploads.take(pending.len() as int)[j] == pending[j]);
            assert(target(pending[j]) is None);
        } else {
            lemma_held_upload(run.before, uploads, j);
            assert(contents.contains_key(target(uploads[j])->0));
            assert(device.carries_out(fresh.graph, contents[target(uploads[j])->0]));
        }
    }
}

/// Whatever chunks came before it, a chunk gives what the host gives on its rows with its
/// caches: the rows that the device computes on the kept graph, and what each layer keeps
/// for the next chunk, where the operations of the device are those of the host and the
/// host does not fail.
pub proof fn law_kept_graph_computes_the_chunk(
    run: KeptRun,
    metadata: XasrZipformerExecutionMetadata,
    weights: XasrEncoderWeights,
)
    requires
        run.device.agrees_with_the_host(),
        run.device.averages_as_the_host(),
        run.ran(metadata, weights),
        run.fresh.task(metadata, weights).takes_caches(run.chunks.last().caches),
    ensures
        ({
            let task = run.fresh.task(metadata, weights);
            let m = run.device.host;
            let last = run.chunks.last();
            let plan = run.fresh.plan;
            let host = task.host_output(m, last.caches, last.rows);
            host is Some ==> {
                &&& run.device.holds(
                    run.fresh.graph.value(plan.output.rows),
                    host->0,
                    plan.output.dim as int,
                    plan.output.frames as int,
                )
                &&& forall|s: int, k: int|
                    0 <= s < task.stack_count() && 0 <= k < task.stack(s).layers@.len()
                        ==> run.device.holds_outputs(
                        run.fresh.graph,
                        plan.parts@.layers[task.layer_start(s) + k].output,
                        (#[trigger] task.host_values(m, last.caches, last.rows, s, k))->0,
                        task.shape_of(s, k),
                    )
            }
        }),
{
    let task = run.fresh.task(metadata, weights);
    let m = run.device.host;
    let rows = run.chunks.last().rows;
    let caches = run.chunks.last().caches;
    lemma_last_chunk_is_uploaded(run, metadata, weights);
    law_uploaded_chunk_gives_what_the_host_gives(
        run.device,
        run.fresh.graph,
        task,
        run.fresh.plan,
        run.fresh.input,
        rows,
        caches,
        run.fresh.graph.pending(),
    );
    if task.host_output(m, caches, rows) is Some {
        assert forall|s: int, k: int|
            0 <= s < task.stack_count() && 0 <= k < task.stack(s).layers@.len() implies (
        #[trigger] task.host_values(m, caches, rows, s, k)) is Some by {
            law_a_chunk_passes_every_layer(task, m, caches, rows, s, k);
        }
    }
}

/// Whatever chunks came before it, a chunk that has no caches, or caches of zeros, gives
/// what the host gives on its rows alone: the rows that the device computes on the kept
/// graph are those of the host, where the operations of the device are those of the host
/// and the host does not fail.
pub proof fn law_kept_graph_gives_what_the_host_gives(
    run: KeptRun,
    metadata: XasrZipformerExecutionMetadata,
    weights: XasrEncoderWeights,
)
    requires
        run.device.agrees_with_the_host(),
        run.device.averages_as_the_host(),
        run.ran(metadata, weights),
        run.chunks.last().caches is None || all_zeros(
            run.fresh.plan.parts@,
            run.chunks.last().caches,
        ),
    ensures
        ({
            let task = run.fresh.task(metadata, weights);
            let first = layers_values(
                run.device.host,
                task.stack(0).layers@,
                run.chunks.last().rows,
                task.frames,
                task.dim,
                task.metadata.num_heads@[0],
                task.metadata.query_head_dims@[0],
                task.metadata.left_context_len@[0],
                task.valid_left_context,
                task.stack(0).layers@.len() as int,
            );
            let host = tail_values(
                run.device.host,
                task.metadata,
                task.weights,
                first->Ok_0,
                task.frames,
                task.dim,
                task.valid_left_context,
            );
            first is Ok && host is Ok ==> run.device.holds(
                run.fresh.graph.value(run.fresh.plan.output.rows),
                host->Ok_0,
                run.fresh.plan.output.dim as int,
                run.fresh.plan.output.frames as int,
            )
        }),
{
    let rows = run.chunks.last().rows;
    let caches = run.chunks.last().caches;
    lemma_last_chunk_is_uploaded(run, metadata, weights);
    if caches is Some {
        law_zero_chunk_caches_stand_for_none(run.fresh, weights, run.device.host, rows, caches);
    }
    law_uploaded_encoder_gives_what_the_host_gives(
        run.device,
        run.fresh.graph,
        run.fresh.task(metadata, weights),
        run.fresh.plan,
        run.fresh.input,
        rows,
        run.fresh.graph.pending(),
    );
}

} // verus!
