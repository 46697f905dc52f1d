//! A device that has taken the uploads of an encoder computes what the host does.

use vstd::prelude::*;
use crate::embed_binding::{
    downsample_uploads, lemma_padded_frames_cover, XasrDownsampleGraphBinding,
};
use crate::encoder_graph::XasrZipformerEncoderGraph;
use crate::encoder_plan::{
    downsample_bound, layer_bound, layer_built, PlanParts, PlanTask, XasrOutCombinerGraphUpload,
};
use crate::encoder_runs::Stack0Run;
use crate::encoder_session::input_value;
use crate::encoder_upload::{cache_lengths_refusal, floats, XasrEncoderLayerCache};
use crate::encoder_weights::XasrEncoderWeights;
use crate::full_encoder::XasrFullEncoderGraphPlan;
use crate::full_upload::cache_at;
use crate::graph::{EffectView, GgmlCpuGraphBuilder, GgmlCpuTensor};
use crate::host_chunks::{
    law_first_layers_without_caches, law_without_caches_a_chunk_is_the_first, lemma_fresh_is_kept,
};
use crate::parity::Device;
use crate::parity_encoder::{
    law_graph_encoder_is_the_host_encoder, law_graph_layer_values_are_those_of_the_host,
    law_graph_layers_are_the_host_layers,
};
use crate::parity_layer::{layer_fits, KeptCaches};
use crate::parity_layer_upload::{
    caches_fit, kept_caches, law_uploaded_layer_is_held, layer_complete, lemma_bound_layer_leaves,
};
use crate::parity_upload::{is_leaf, lemma_uploaded_list, lemma_uploaded_rows};
use crate::reference_encoder::{layers_values, tail_values};
use crate::reference_layer::LayerValues as HostValues;
use crate::rows::zero_seq;
use crate::tensor_value::TensorValue;
use crate::zipformer_graph::{
    LayerValues, XasrZipformerLayerGraphOutput, XasrZipformerLayerGraphShape,
};

verus! {

/// The uploaded padding of a downsampling.
proof fn lemma_uploaded_padding(
    device: Device,
    graph: GgmlCpuGraphBuilder,
    pending: Seq<EffectView>,
    binding: XasrDownsampleGraphBinding,
)
    requires
        device.carried_out(graph, downsample_uploads(pending, binding)),
        downsample_bound(graph, binding, binding.shape),
        binding.shape.padded_frames() <= usize::MAX,
    ensures
        device.carried_out(graph, pending),
        device.holds_padding(graph, binding.tensors, binding.shape),
{
    let shape = binding.shape;
    let wider = shape.target_dim - shape.input_dim;
    let longer = shape.padded_frames() - shape.frames;
    lemma_padded_frames_cover(shape);
    let channels = zero_seq((wider * shape.frames) as nat);
    let frames = zero_seq((shape.target_dim * longer) as nat);
    let with_channels = if binding.tensors.channel_pad is Some {
        pending.push(floats(binding.tensors.channel_pad->0, channels, "xasr_down_ch_pad"@))
    } else {
        pending
    };
    if binding.tensors.frame_pad is Some {
        let tensor = binding.tensors.frame_pad->0;
        graph.lemma_leaf_value(tensor.id as int);
        assert(is_leaf(graph, tensor, shape.target_dim as int, longer, 1));
        assert(shape.target_dim * longer == longer * shape.target_dim && 0 <= longer
            * shape.target_dim) by (nonlinear_arith)
            requires
                0 <= longer,
        ;
        lemma_uploaded_rows(
            device,
            graph,
            with_channels,
            tensor,
            frames,
            "xasr_down_fr_pad"@,
            shape.target_dim as int,
            longer,
        );
    }
    if binding.tensors.channel_pad is Some {
        let tensor = binding.tensors.channel_pad->0;
        graph.lemma_leaf_value(tensor.id as int);
        assert(is_leaf(graph, tensor, wider, shape.frames as int, 1));
        assert(wider * shape.frames == shape.frames * wider && 0 <= shape.frames * wider)
            by (nonlinear_arith)
            requires
                0 <= wider,
        ;
        lemma_uploaded_rows(
            device,
            graph,
            pending,
            tensor,
            channels,
            "xasr_down_ch_pad"@,
            wider,
            shape.frames as int,
        );
    }
}

/// The uploaded paddings.
proof fn lemma_uploaded_paddings(
    device: Device,
    graph: GgmlCpuGraphBuilder,
    parts: PlanParts,
    pending: Seq<EffectView>,
    count: int,
)
    requires
        device.carried_out(graph, parts.downsamples_uploads(pending, count)),
        0 <= count <= parts.downsamples.len(),
        forall|k: int|
            0 <= k < count ==> downsample_bound(
                graph,
                #[trigger] parts.downsamples[k],
                parts.downsamples[k].shape,
            ) && parts.downsamples[k].shape.padded_frames() <= usize::MAX,
    ensures
        device.carried_out(graph, pending),
        forall|k: int|
            0 <= k < count ==> device.holds_padding(
                graph,
                (#[trigger] parts.downsamples[k]).tensors,
                parts.downsamples[k].shape,
            ),
    decreases count,
{
    if count > 0 {
        lemma_uploaded_padding(
            device,
            graph,
            parts.downsamples_uploads(pending, count - 1),
            parts.downsamples[count - 1],
        );
        lemma_uploaded_paddings(device, graph, parts, pending, count - 1);
    }
}

/// The scale with which a combiner joins its stack to the trunk.
pub open spec fn combiner_scale(
    weights: XasrEncoderWeights,
    entry: XasrOutCombinerGraphUpload,
) -> Seq<u32> {
    (weights.stacks@[entry.stack_index as int].out_combiner_bypass_scale->0)@
}

/// The uploaded scales of the combiners.
proof fn lemma_uploaded_combiners(
    device: Device,
    graph: GgmlCpuGraphBuilder,
    parts: PlanParts,
    weights: XasrEncoderWeights,
    pending: Seq<EffectView>,
    count: int,
)
    requires
        device.carried_out(graph, parts.combiners_uploads(pending, weights, count)),
        0 <= count <= parts.combiners.len(),
        forall|k: int|
            0 <= k < count ==> is_leaf(
                graph,
                (#[trigger] parts.combiners[k]).scale,
                combiner_scale(weights, parts.combiners[k]).len() as int,
                1,
                1,
            ),
    ensures
        device.carried_out(graph, pending),
        forall|k: int|
            0 <= k < count ==> device.holds_list(
                graph.value((#[trigger] parts.combiners[k]).scale),
                combiner_scale(weights, parts.combiners[k]),
            ),
    decreases count,
{
    if count > 0 {
        let entry = parts.combiners[count - 1];
        lemma_uploaded_list(
            device,
            graph,
            parts.combiners_uploads(pending, weights, count - 1),
            entry.scale,
            combiner_scale(weights, entry),
            "xasr_out_combiner_scale"@,
        );
        lemma_uploaded_combiners(device, graph, parts, weights, pending, count - 1);
    }
}

/// Entry `i` stands in the graph, and its weights are floats that fit its dimensions.
pub open spec fn entry_ready(
    graph: GgmlCpuGraphBuilder,
    parts: PlanParts,
    weights: XasrEncoderWeights,
    i: int,
) -> bool {
    let binding = parts.layers[i].binding;
    let layer = parts.layer_weights(weights, i);
    let head = binding.shape.layer_head;
    &&& layer_bound(graph, binding, layer)
    &&& layer_complete(layer, binding.shape)
    &&& layer_fits(layer, binding.shape)
    &&& cache_lengths_refusal(binding.shape) is None
    &&& head.left_context_len + head.frames * 2 <= usize::MAX
}

/// What the caches of entry `i` hold after their upload.
pub open spec fn entry_caches(
    parts: PlanParts,
    caches: Option<Seq<XasrEncoderLayerCache>>,
    i: int,
) -> KeptCaches {
    kept_caches(
        parts.layers[i].binding.shape,
        cache_at(caches, parts.layers[i].cache_index as int),
    )
}

/// The uploaded layers.
proof fn lemma_uploaded_layers(
    device: Device,
    graph: GgmlCpuGraphBuilder,
    parts: PlanParts,
    weights: XasrEncoderWeights,
    pending: Seq<EffectView>,
    caches: Option<Seq<XasrEncoderLayerCache>>,
    count: int,
)
    requires
        device.carried_out(
            graph,
            parts.layers_uploads(device.host, pending, weights, caches, count),
        ),
        0 <= count <= parts.layers.len(),
        forall|i: int| 0 <= i < count ==> #[trigger] entry_ready(graph, parts, weights, i),
        forall|i: int|
            0 <= i < count ==> caches_fit(
                parts.layers[i].binding.shape,
                #[trigger] entry_caches(parts, caches, i),
            ),
    ensures
        device.carried_out(graph, pending),
        forall|i: int|
            0 <= i < count ==> device.holds_layer(
                graph,
                (#[trigger] parts.layers[i]).binding.tensors,
                parts.layer_weights(weights, i),
                entry_caches(parts, caches, i),
                parts.layers[i].binding.shape,
                parts.layers[i].valid_left_context as int,
            ),
    decreases count,
{
    if count > 0 {
        let entry = parts.layers[count - 1];
        let layer = parts.layer_weights(weights, count - 1);
        let before = parts.layers_uploads(device.host, pending, weights, caches, count - 1);
        assert(entry_ready(graph, parts, weights, count - 1));
        assert(caches_fit(entry.binding.shape, entry_caches(parts, caches, count - 1)));
        lemma_bound_layer_leaves(graph, entry.binding, layer);
        law_uploaded_layer_is_held(
            device,
            graph,
            before,
            entry.binding,
            layer,
            entry.valid_left_context,
            cache_at(caches, entry.cache_index as int),
        );
        lemma_uploaded_layers(device, graph, parts, weights, pending, caches, count - 1);
    }
}

/// The weights of layer `k` of stack `s` are floats that fit its dimensions, and its
/// sizes can be counted.
pub open spec fn layer_ready(task: PlanTask, s: int, k: int) -> bool {
    let layer = task.stack(s).layers@[k];
    let site = task.site(s);
    let shape = task.shape_of(s, k);
    &&& layer_complete(layer, shape)
    &&& layer_fits(layer, shape)
    &&& cache_lengths_refusal(shape) is None
    &&& site.left_context_len + site.frames * 2 <= usize::MAX
}

/// The weights of an encoder are floats that fit its dimensions, and its sizes can be
/// counted.
pub open spec fn encoder_ready(task: PlanTask) -> bool {
    let n = task.stack_count();
    &&& task.covered()
    &&& task.dim == task.stack(0).dim
    &&& forall|s: int, k: int|
        0 <= s < n && 0 <= k < task.stack(s).layers@.len() ==> #[trigger] layer_ready(task, s, k)
    &&& forall|s: int|
        0 < s < n ==> {
            let stack = #[trigger] task.stack(s);
            &&& stack.downsample_bias is Some
            &&& (stack.downsample_bias->0)@.len() == stack.downsampling_factor
            &&& stack.out_combiner_bypass_scale is Some
            &&& (stack.out_combiner_bypass_scale->0)@.len() == stack.dim
        }
    &&& forall|s: int| 0 <= s <= n ==> 0 <= #[trigger] task.trunk_frames(s) <= usize::MAX
    &&& task.output_shape().padded_frames() <= usize::MAX
    &&& task.weights.downsample_output_bias@.len() <= usize::MAX
}

/// The stack to which a layer belongs.
pub proof fn lemma_owner(task: PlanTask, n: int, i: int) -> (s: int)
    requires
        0 <= n,
        0 <= i < task.layer_start(n),
    ensures
        0 <= s < n,
        task.layer_start(s) <= i < task.layer_start(s + 1),
    decreases n,
{
    if i < task.layer_start(n - 1) {
        lemma_owner(task, n - 1, i)
    } else {
        n - 1
    }
}

/// The layers of a plan are ready to be uploaded.
#[verifier::spinoff_prover]
pub proof fn lemma_entries_ready(
    graph: GgmlCpuGraphBuilder,
    task: PlanTask,
    plan: XasrFullEncoderGraphPlan,
    x: TensorValue,
    s: int,
    i: int,
)
    requires
        task.plan_built(graph, plan, x),
        encoder_ready(task),
        0 <= s < task.stack_count(),
        task.layer_start(s) <= i < task.layer_start(s + 1),
    ensures
        entry_ready(graph, plan.parts@, task.weights, i),
        plan.parts@.layer_weights(task.weights, i) == task.stack(s).layers@[i - task.layer_start(
            s,
        )],
        plan.parts@.layers[i].valid_left_context == task.site(s).valid_left_context,
        plan.parts@.layers[i].binding.shape == task.shape_of(s, i - task.layer_start(s)),
        plan.parts@.layers[i].cache_index == i,
        i < plan.parts@.layers.len(),
{
    let parts = plan.parts@;
    assert(task.stack_built(graph, parts, x, s));
    let trunk = task.trunk_value(graph, parts, x, s);
    assert(layer_built(
        graph,
        task.branch_input(graph, parts, s, trunk),
        task.stack(s),
        task.site(s),
        parts.layers,
        task.layer_start(s),
        i,
    ));
    let k = i - task.layer_start(s);
    assert(task.layer_start(s + 1) == task.layer_start(s) + task.stack(s).layers@.len());
    assert(layer_ready(task, s, k));
    assert(parts.layer_weights(task.weights, i) == task.stack(s).layers@[k]);
}

/// A device that has carried out the uploads of a plan holds every stack of it.
#[verifier::spinoff_prover]
#[verifier::rlimit(60)]
pub proof fn lemma_uploaded_stacks(
    device: Device,
    graph: GgmlCpuGraphBuilder,
    task: PlanTask,
    plan: XasrFullEncoderGraphPlan,
    x: TensorValue,
    pending: Seq<EffectView>,
    caches: Option<Seq<XasrEncoderLayerCache>>,
)
    requires
        task.plan_built(graph, plan, x),
        task.weighs(device.host, plan.parts@),
        encoder_ready(task),
        task.takes_caches(caches),
        device.carried_out(
            graph,
            plan.parts@.all_uploads(device.host, pending, task.weights, caches),
        ),
    ensures
        forall|s: int|
            0 <= s < task.stack_count() ==> #[trigger] device.holds_stack(
                task,
                graph,
                plan.parts@,
                caches,
                s,
            ),
        device.holds_padding(
            graph,
            plan.parts@.downsamples[task.stack_count() - 1].tensors,
            task.output_shape(),
        ),
        task.output_shape().positive(),
        device.carried_out(graph, pending),
{
    let m = device.host;
    let n = task.stack_count();
    let parts = plan.parts@;
    let weights = task.weights;
    let with_downsamples = parts.downsamples_uploads(pending, parts.downsamples.len() as int);
    let with_layers = parts.layers_uploads(
        m,
        with_downsamples,
        weights,
        caches,
        parts.layers.len() as int,
    );
    assert forall|k: int| 0 <= k < parts.combiners.len() implies is_leaf(
        graph,
        (#[trigger] parts.combiners[k]).scale,
        combiner_scale(weights, parts.combiners[k]).len() as int,
        1,
        1,
    ) by {
        assert(task.stack_built(graph, parts, x, k + 1));
        assert(task.stack(k + 1).out_combiner_bypass_scale is Some);
    }
    lemma_uploaded_combiners(
        device,
        graph,
        parts,
        weights,
        with_layers,
        parts.combiners.len() as int,
    );
    assert forall|i: int| 0 <= i < parts.layers.len() implies #[trigger] entry_ready(
        graph,
        parts,
        weights,
        i,
    ) by {
        let s = lemma_owner(task, n, i);
        lemma_entries_ready(graph, task, plan, x, s, i);
    }
    assert forall|i: int| 0 <= i < parts.layers.len() implies caches_fit(
        parts.layers[i].binding.shape,
        #[trigger] entry_caches(parts, caches, i),
    ) by {
        let s = lemma_owner(task, n, i);
        lemma_entries_ready(graph, task, plan, x, s, i);
        let k = i - task.layer_start(s);
        assert(caches_fit(task.shape_of(s, k), task.kept(caches, s, k)));
    }
    lemma_uploaded_layers(
        device,
        graph,
        parts,
        weights,
        with_downsamples,
        caches,
        parts.layers.len() as int,
    );
    assert forall|k: int| 0 <= k < parts.downsamples.len() implies downsample_bound(
        graph,
        #[trigger] parts.downsamples[k],
        parts.downsamples[k].shape,
    ) && parts.downsamples[k].shape.padded_frames() <= usize::MAX by {
        if k < n - 1 {
            assert(task.stack_built(graph, parts, x, k + 1));
            assert(task.trunk_frames(k + 1) <= usize::MAX);
            assert(task.trunk_frames(k + 2) <= usize::MAX);
        }
    }
    lemma_uploaded_paddings(
        device,
        graph,
        parts,
        pending,
        parts.downsamples.len() as int,
    );
    assert(device.holds_padding(graph, parts.downsamples[n - 1].tensors, task.output_shape()));
    assert forall|s: int| 0 <= s < n implies #[trigger] device.holds_stack(
        task,
        graph,
        parts,
        caches,
        s,
    ) by {
        assert(task.stack_built(graph, parts, x, s));
        assert(task.trunk_frames(s + 1) <= usize::MAX);
        assert forall|i: int|
            task.layer_start(s) <= i < task.layer_start(s + 1) implies
            #[trigger] device.holds_stack_layer(task, graph, parts, caches, s, i) by {
            reveal(Device::holds_stack_layer);
            lemma_entries_ready(graph, task, plan, x, s, i);
            task.lemma_layer_start_monotone(0, s);
            assert(entry_ready(graph, parts, weights, i));
            let entry = parts.layers[i];
            assert(device.holds_layer(
                graph,
                entry.binding.tensors,
                parts.layer_weights(weights, i),
                entry_caches(parts, caches, i),
                entry.binding.shape,
                entry.valid_left_context as int,
            ));
        }
        if s > 0 {
            assert(task.stack(s).downsample_bias is Some);
            assert(parts.downsamples[s - 1].shape == task.downsample_shape(s));
            assert(parts.combiners[s - 1].stack_index == s);
        }
    }
}

/// Where a chunk brings no caches, what the layers keep has the lengths they ask for.
proof fn lemma_no_caches_fit(task: PlanTask)
    requires
        encoder_ready(task),
    ensures
        task.takes_caches(None),
{
    assert forall|s: int, k: int|
        0 <= s < task.stack_count() && 0 <= k < task.stack(s).layers@.len() implies caches_fit(
        task.shape_of(s, k),
        #[trigger] task.kept(None, s, k),
    ) by {
        assert(layer_ready(task, s, k));
        lemma_fresh_is_kept(task.shape_of(s, k), task.layer_start(s) + k);
    }
}

proof fn lemma_accepted_caches(
    parts: PlanParts,
    caches: Option<Seq<XasrEncoderLayerCache>>,
    i: int,
    count: int,
)
    requires
        parts.caches_refusal(caches, count) is None,
        0 <= i < count,
    ensures
        caches_fit(parts.layers[i].binding.shape, entry_caches(parts, caches, i)),
    decreases count,
{
    if i < count - 1 {
        lemma_accepted_caches(parts, caches, i, count - 1);
    } else {
        let shape = parts.layers[i].binding.shape;
        let head = shape.layer_head;
        let tail = shape.layer_tail;
        assert(cache_lengths_refusal(shape) is None);
        assert(0 <= head.num_heads * head.query_head_dim) by (nonlinear_arith);
        assert(0 <= head.left_context_len * (head.num_heads * head.query_head_dim))
            by (nonlinear_arith)
            requires
                0 <= head.num_heads * head.query_head_dim,
        ;
        assert(0 <= head.left_context_len * head.nonlin_hidden_dim && 0 <= head.left_context_len
            * head.self1_value_dim && 0 <= head.left_context_len * shape.self2_value_dim && 0
            <= head.dim * head.conv1_cache_len && 0 <= tail.dim * tail.conv_cache_len)
            by (nonlinear_arith);
    }
}

/// Caches that the upload to a kept graph accepts have the lengths that the layers ask for.
pub proof fn law_accepted_caches_have_the_lengths_of_the_layers(
    graph: GgmlCpuGraphBuilder,
    task: PlanTask,
    plan: XasrFullEncoderGraphPlan,
    x: TensorValue,
    caches: Option<Seq<XasrEncoderLayerCache>>,
)
    requires
        task.plan_built(graph, plan, x),
        plan.parts@.caches_refusal(caches, plan.parts@.layers.len() as int) is None,
    ensures
        task.takes_caches(caches),
{
    let parts = plan.parts@;
    let n = task.stack_count();
    assert forall|s: int, k: int|
        0 <= s < n && 0 <= k < task.stack(s).layers@.len() implies caches_fit(
        task.shape_of(s, k),
        #[trigger] task.kept(caches, s, k),
    ) by {
        let i = task.layer_start(s) + k;
        assert(task.stack_built(graph, parts, x, s));
        assert(task.layer_start(s + 1) == task.layer_start(s) + task.stack(s).layers@.len());
        assert(layer_built(
            graph,
            task.branch_input(graph, parts, s, task.trunk_value(graph, parts, x, s)),
            task.stack(s),
            task.site(s),
            parts.layers,
            task.layer_start(s),
            i,
        ));
        task.lemma_layer_start_monotone(0, s);
        lemma_accepted_caches(parts, caches, i, parts.layers.len() as int);
    }
}

/// What the output tensors of a layer stand for.
pub open spec fn output_values(
    graph: GgmlCpuGraphBuilder,
    output: XasrZipformerLayerGraphOutput,
) -> LayerValues {
    LayerValues {
        rows: graph.value(output.rows),
        new_cached_key: graph.value(output.new_cached_key),
        new_cached_nonlin_attention: graph.value(output.new_cached_nonlin_attention),
        new_cached_val1: graph.value(output.new_cached_val1),
        new_cached_val2: graph.value(output.new_cached_val2),
        new_cached_conv1: graph.value(output.new_cached_conv1),
        new_cached_conv2: graph.value(output.new_cached_conv2),
    }
}

impl Device {
    /// The output tensors of a layer hold what the host computes: the rows, and what the
    /// layer keeps for the next chunk.
    pub open spec fn holds_outputs(
        self,
        graph: GgmlCpuGraphBuilder,
        output: XasrZipformerLayerGraphOutput,
        values: HostValues,
        shape: XasrZipformerLayerGraphShape,
    ) -> bool {
        self.holds_values(output_values(graph, output), values, shape)
    }
}

/// A chunk that was uploaded to a planned encoder gives what the host gives: the rows
/// that the device computes are those of the host with the same caches, where the
/// operations of the device are those of the host and the host does not fail; and so is
/// what each layer keeps for the next chunk.
pub proof fn law_uploaded_chunk_gives_what_the_host_gives(
    device: Device,
    graph: GgmlCpuGraphBuilder,
    task: PlanTask,
    plan: XasrFullEncoderGraphPlan,
    input: GgmlCpuTensor,
    rows: Seq<u32>,
    caches: Option<Seq<XasrEncoderLayerCache>>,
    pending: Seq<EffectView>,
)
    requires
        device.agrees_with_the_host(),
        device.averages_as_the_host(),
        encoder_ready(task),
        graph.value(input) == input_value(input, task.frames, task.dim),
        task.plan_built(graph, plan, input_value(input, task.frames, task.dim)),
        task.weighs(device.host, plan.parts@),
        rows.len() == task.frames * task.dim,
        task.takes_caches(caches),
        device.carried_out(
            graph,
            plan.parts@.all_uploads(
                device.host,
                pending.push(floats(input, rows, "xasr_full_input"@)),
                task.weights,
                caches,
            ),
        ),
    ensures
        ({
            let host = task.host_output(device.host, caches, rows);
            host is Some ==> device.holds(
                graph.value(plan.output.rows),
                host->0,
                plan.output.dim as int,
                plan.output.frames as int,
            )
        }),
        forall|s: int, k: int|
            0 <= s < task.stack_count() && 0 <= k < task.stack(s).layers@.len() && (
            #[trigger] task.host_values(device.host, caches, rows, s, k)) is Some
                ==> device.holds_outputs(
                graph,
                plan.parts@.layers[task.layer_start(s) + k].output,
                task.host_values(device.host, caches, rows, s, k)->0,
                task.shape_of(s, k),
            ),
{
    let x = input_value(input, task.frames, task.dim);
    let filled = pending.push(floats(input, rows, "xasr_full_input"@));
    let parts = plan.parts@;
    lemma_uploaded_stacks(device, graph, task, plan, x, filled, caches);
    lemma_uploaded_rows(
        device,
        graph,
        pending,
        input,
        rows,
        "xasr_full_input"@,
        task.dim as int,
        task.frames as int,
    );
    law_graph_encoder_is_the_host_encoder(device, task, graph, parts, caches, x, rows);
    assert forall|s: int, k: int|
        0 <= s < task.stack_count() && 0 <= k < task.stack(s).layers@.len() && (
        #[trigger] task.host_values(device.host, caches, rows, s, k)) is Some implies
        device.holds_outputs(
        graph,
        parts.layers[task.layer_start(s) + k].output,
        task.host_values(device.host, caches, rows, s, k)->0,
        task.shape_of(s, k),
    ) by {
        let i = task.layer_start(s) + k;
        law_graph_layer_values_are_those_of_the_host(
            device,
            task,
            graph,
            parts,
            caches,
            x,
            rows,
            s,
            k,
        );
        assert(task.layer_start(s + 1) == task.layer_start(s) + task.stack(s).layers@.len());
        assert(task.stack_built(graph, parts, x, s));
        assert(layer_built(
            graph,
            task.branch_input(graph, parts, s, task.trunk_value(graph, parts, x, s)),
            task.stack(s),
            task.site(s),
            parts.layers,
            task.layer_start(s),
            i,
        ));
    }
}

/// An encoder that was planned and uploaded without caches gives what the host gives:
/// the rows that the device computes are those of the host, where the operations of the
/// device are those of the host and the host does not fail.
pub proof fn law_uploaded_encoder_gives_what_the_host_gives(
    device: Device,
    graph: GgmlCpuGraphBuilder,
    task: PlanTask,
    plan: XasrFullEncoderGraphPlan,
    input: GgmlCpuTensor,
    rows: Seq<u32>,
    pending: Seq<EffectView>,
)
    requires
        device.agrees_with_the_host(),
        device.averages_as_the_host(),
        encoder_ready(task),
        graph.value(input) == input_value(input, task.frames, task.dim),
        task.plan_built(graph, plan, input_value(input, task.frames, task.dim)),
        task.weighs(device.host, plan.parts@),
        rows.len() == task.frames * task.dim,
        device.carried_out(
            graph,
            plan.parts@.all_uploads(
                device.host,
                pending.push(floats(input, rows, "xasr_full_input"@)),
                task.weights,
                None,
            ),
        ),
    ensures
        ({
            let first = layers_values(
                device.host,
                task.stack(0).layers@,
                rows,
                task.frames,
                task.dim,
                task.metadata.num_heads@[0],
                task.metadata.query_head_dims@[0],
                task.metadata.left_context_len@[0],
                task.valid_left_context,
                task.stack(0).layers@.len() as int,
            );
            let host = tail_values(
                device.host,
                task.metadata,
                task.weights,
                first->Ok_0,
                task.frames,
                task.dim,
                task.valid_left_context,
            );
            first is Ok && host is Ok ==> device.holds(
                graph.value(plan.output.rows),
                host->Ok_0,
                plan.output.dim as int,
                plan.output.frames as int,
            )
        }),
{
    lemma_no_caches_fit(task);
    assert forall|s: int, k: int|
        0 <= s < task.stack_count() && 0 <= k < task.stack(s).layers@.len() implies
        cache_lengths_refusal(#[trigger] task.shape_of(s, k)) is None by {
        assert(layer_ready(task, s, k));
    }
    law_without_caches_a_chunk_is_the_first(task, device.host, rows);
    law_uploaded_chunk_gives_what_the_host_gives(
        device,
        graph,
        task,
        plan,
        input,
        rows,
        None,
        pending,
    );
}

/// The first stack that was planned and uploaded gives what the host gives: the rows
/// that the device computes are those of the host, where the operations of the device
/// are those of the host and the host does not fail.
#[verifier::spinoff_prover]
#[verifier::rlimit(60)]
pub proof fn law_uploaded_stack0_gives_what_the_host_gives(
    device: Device,
    graph: GgmlCpuGraphBuilder,
    encoder: XasrZipformerEncoderGraph,
    rows: Seq<u32>,
    frames: usize,
    valid_left_context: usize,
    run: Stack0Run,
    pending: Seq<EffectView>,
)
    requires
        device.agrees_with_the_host(),
        encoder.stack0_planned(
            graph,
            frames,
            encoder.spec_weights().stacks@[0].dim,
            valid_left_context,
            run,
        ),
        forall|k: int|
            0 <= k < encoder.spec_weights().stacks@[0].layers@.len() ==> #[trigger] layer_ready(
                encoder.task(
                    frames,
                    encoder.spec_weights().stacks@[0].dim,
                    valid_left_context,
                    false,
                ),
                0,
                k,
            ),
        rows.len() == frames * encoder.spec_weights().stacks@[0].dim,
        device.carried_out(
            graph,
            run.parts@.layers_uploads(
                device.host,
                pending.push(floats(run.input, rows, "stack0_input"@)),
                encoder.spec_weights(),
                None,
                run.parts@.layers.len() as int,
            ),
        ),
    ensures
        ({
            let stack = encoder.spec_weights().stacks@[0];
            let host = layers_values(
                device.host,
                stack.layers@,
                rows,
                frames,
                stack.dim,
                encoder.spec_metadata().num_heads@[0],
                encoder.spec_metadata().query_head_dims@[0],
                encoder.spec_metadata().left_context_len@[0],
                valid_left_context,
                stack.layers@.len() as int,
            );
            host is Ok ==> device.holds(
                graph.value(run.output),
                host->Ok_0,
                stack.dim as int,
                frames as int,
            )
        }),
{
    let weights = encoder.spec_weights();
    let stack = weights.stacks@[0];
    let task = encoder.task(frames, stack.dim, valid_left_context, false);
    let parts = run.parts@;
    let filled = pending.push(floats(run.input, rows, "stack0_input"@));
    let x = input_value(run.input, frames, stack.dim);
    assert forall|i: int| 0 <= i < parts.layers.len() implies #[trigger] entry_ready(
        graph,
        parts,
        weights,
        i,
    ) by {
        assert(layer_built(
            graph,
            x,
            stack,
            encoder.stack0_site(frames, valid_left_context),
            parts.layers,
            0,
            i,
        ));
        assert(layer_ready(task, 0, i));
        assert(parts.layer_weights(weights, i) == stack.layers@[i]);
    }
    assert forall|i: int| 0 <= i < parts.layers.len() implies caches_fit(
        parts.layers[i].binding.shape,
        #[trigger] entry_caches(parts, None, i),
    ) by {
        assert(entry_ready(graph, parts, weights, i));
        lemma_fresh_is_kept(parts.layers[i].binding.shape, parts.layers[i].cache_index as int);
    }
    lemma_uploaded_layers(
        device,
        graph,
        parts,
        weights,
        filled,
        None,
        parts.layers.len() as int,
    );
    lemma_uploaded_rows(
        device,
        graph,
        pending,
        run.input,
        rows,
        "stack0_input"@,
        stack.dim as int,
        frames as int,
    );
    assert(task.layer_start(1) == task.layer_start(0) + stack.layers@.len());
    assert forall|i: int| task.layer_start(0) <= i < task.layer_start(1) implies
        #[trigger] device.holds_stack_layer(task, graph, parts, None, 0, i) by {
        reveal(Device::holds_stack_layer);
        assert(layer_built(
            graph,
            x,
            stack,
            encoder.stack0_site(frames, valid_left_context),
            parts.layers,
            0,
            i,
        ));
        assert(layer_ready(task, 0, i));
        let entry = parts.layers[i];
        assert(parts.layer_weights(weights, i) == stack.layers@[i]);
        assert(device.holds_layer(
            graph,
            entry.binding.tensors,
            parts.layer_weights(weights, i),
            entry_caches(parts, None, i),
            entry.binding.shape,
            entry.valid_left_context as int,
        ));
    }
    assert forall|k: int| 0 <= k < stack.layers@.len() implies cache_lengths_refusal(
        #[trigger] task.shape_of(0, k),
    ) is None by {
        assert(layer_ready(task, 0, k));
    }
    law_first_layers_without_caches(task, device.host, rows, stack.layers@.len() as int);
    law_graph_layers_are_the_host_layers(
        device,
        task,
        graph,
        parts,
        None,
        0,
        stack.layers@.len() as int,
        x,
        rows,
    );
}

} // verus!
