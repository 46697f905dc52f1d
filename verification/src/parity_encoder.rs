//! The encoder of a graph and the encoder of the host.

use vstd::prelude::*;
use crate::encoder_plan::{layers_value, PlanParts, PlanTask};
use crate::encoder_upload::XasrEncoderLayerCache;
use crate::graph::GgmlCpuGraphBuilder;
use crate::layer_values;
use crate::parity::{law_graph_bypass_is_the_host_bypass, Device};
use crate::parity_layer::{law_graph_layer_is_the_host_layer, layer_fits};
use crate::parity_scale::{
    law_graph_columns_are_the_host_columns, law_graph_downsampling_is_the_host_one,
    law_graph_rows_side_by_side_are_those_of_the_host, law_graph_upsampling_is_the_host_one,
};
use crate::reference_encoder::{output_rows, TrunkValues};
use crate::reference_layer::LayerValues as HostValues;
use crate::reference_scale::{law_groups_hold_all_rows, padded_rows, upsampled_rows};
use crate::softmax::softmax_row;
use crate::tensor_value::TensorValue;
use crate::zipformer_graph::{LayerValues, XasrZipformerLayerGraphShape};

verus! {

impl Device {
    /// Entry `i` is layer `i - from` of the stack: its tensors hold the layer, and what it
    /// keeps.
    #[verifier::opaque]
    pub open spec fn holds_stack_layer(
        self,
        task: PlanTask,
        graph: GgmlCpuGraphBuilder,
        parts: PlanParts,
        caches: Option<Seq<XasrEncoderLayerCache>>,
        s: int,
        i: int,
    ) -> bool {
        let binding = parts.layers[i].binding;
        let k = i - task.layer_start(s);
        let layer = task.stack(s).layers@[k];
        &&& binding.shape == task.shape_of(s, k)
        &&& layer_fits(layer, binding.shape)
        &&& self.holds_layer(
            graph,
            binding.tensors,
            layer,
            task.kept(caches, s, k),
            binding.shape,
            task.site(s).valid_left_context as int,
        )
    }

    /// The tensors hold what stack `s` has besides its layers.
    pub open spec fn holds_joints(
        self,
        task: PlanTask,
        graph: GgmlCpuGraphBuilder,
        parts: PlanParts,
        s: int,
    ) -> bool {
        let stack = task.stack(s);
        &&& task.trunk_frames(s + 1) <= usize::MAX
        &&& s > 0 ==> {
            &&& stack.downsample_bias is Some
            &&& (stack.downsample_bias->0)@.len() == stack.downsampling_factor
            &&& task.downsample_shape(s).positive()
            &&& self.holds_padding(
                graph,
                parts.downsamples[s - 1].tensors,
                task.downsample_shape(s),
            )
            &&& parts.downsamples[s - 1].weights@ == softmax_row(
                self.host,
                (stack.downsample_bias->0)@,
            )
            &&& stack.out_combiner_bypass_scale is Some
            &&& (stack.out_combiner_bypass_scale->0)@.len() == stack.dim
            &&& self.holds_list(
                graph.value(parts.combiners[s - 1].scale),
                (stack.out_combiner_bypass_scale->0)@,
            )
        }
    }

    /// The tensors hold stack `s`.
    pub open spec fn holds_stack(
        self,
        task: PlanTask,
        graph: GgmlCpuGraphBuilder,
        parts: PlanParts,
        caches: Option<Seq<XasrEncoderLayerCache>>,
        s: int,
    ) -> bool {
        &&& forall|i: int|
            task.layer_start(s) <= i < task.layer_start(s + 1)
                ==> #[trigger] self.holds_stack_layer(task, graph, parts, caches, s, i)
        &&& self.holds_joints(task, graph, parts, s)
    }

    /// What a layer gives is what the host computes: its rows, and what it keeps for the
    /// next chunk.
    pub open spec fn holds_values(
        self,
        y: LayerValues,
        values: HostValues,
        shape: XasrZipformerLayerGraphShape,
    ) -> bool {
        let sizes = shape.layer_head;
        let left = sizes.left_context_len as int;
        &&& self.holds(y.rows, values.rows, sizes.dim as int, sizes.frames as int)
        &&& self.holds(y.new_cached_key, values.key, sizes.attention().query_dim(), left)
        &&& self.holds(
            y.new_cached_nonlin_attention,
            values.nonlin_attention,
            sizes.nonlin_hidden_dim as int,
            left,
        )
        &&& self.holds(y.new_cached_val1, values.val1, sizes.self1_value_dim as int, left)
        &&& self.holds(y.new_cached_val2, values.val2, shape.self2_value_dim as int, left)
        &&& self.holds(
            y.new_cached_conv1,
            values.conv1,
            sizes.conv1_cache_len as int,
            sizes.dim as int,
        )
        &&& self.holds(
            y.new_cached_conv2,
            values.conv2,
            shape.layer_tail.conv_cache_len as int,
            sizes.dim as int,
        )
    }
}

/// One layer of a stack.
#[verifier::rlimit(60)]
#[verifier::spinoff_prover]
proof fn lemma_stack_layer(
    device: Device,
    task: PlanTask,
    graph: GgmlCpuGraphBuilder,
    parts: PlanParts,
    caches: Option<Seq<XasrEncoderLayerCache>>,
    s: int,
    i: int,
    x: TensorValue,
    held: Seq<u32>,
)
    requires
        device.agrees_with_the_host(),
        device.holds_stack_layer(task, graph, parts, caches, s, i),
        device.holds(x, held, task.stack(s).dim as int, task.site(s).frames as int),
    ensures
        ({
            let binding = parts.layers[i].binding;
            let k = i - task.layer_start(s);
            let host = task.host_layer(device.host, caches, s, k, held);
            &&& binding.shape == task.shape_of(s, k)
            &&& host is Ok ==> device.holds_values(
                binding.tensors.applied(graph, x, binding.shape),
                host->Ok_0,
                binding.shape,
            )
        }),
{
    reveal(Device::holds_stack_layer);
    reveal(PlanTask::host_layer);
    let binding = parts.layers[i].binding;
    let k = i - task.layer_start(s);
    law_graph_layer_is_the_host_layer(
        device,
        graph,
        binding.tensors,
        task.stack(s).layers@[k],
        task.kept(caches, s, k),
        binding.shape,
        task.site(s).valid_left_context,
        x,
        held,
    );
}

/// The layers of a stack of a graph are those of the host.
#[verifier::rlimit(60)]
#[verifier::spinoff_prover]
pub proof fn law_graph_layers_are_the_host_layers(
    device: Device,
    task: PlanTask,
    graph: GgmlCpuGraphBuilder,
    parts: PlanParts,
    caches: Option<Seq<XasrEncoderLayerCache>>,
    s: int,
    n: int,
    x: TensorValue,
    held: Seq<u32>,
)
    requires
        device.agrees_with_the_host(),
        forall|i: int|
            task.layer_start(s) <= i < task.layer_start(s + 1)
                ==> #[trigger] device.holds_stack_layer(task, graph, parts, caches, s, i),
        0 <= s,
        0 <= n <= task.stack(s).layers@.len(),
        device.holds(x, held, task.stack(s).dim as int, task.site(s).frames as int),
    ensures
        ({
            let from = task.layer_start(s);
            let host = task.host_layers(device.host, caches, s, held, n);
            host is Some ==> device.holds(
                layers_value(graph, x, parts.layers, from, from + n),
                host->0,
                task.stack(s).dim as int,
                task.site(s).frames as int,
            )
        }),
    decreases n,
{
    let from = task.layer_start(s);
    if n > 0 {
        law_graph_layers_are_the_host_layers(
            device,
            task,
            graph,
            parts,
            caches,
            s,
            n - 1,
            x,
            held,
        );
        let before = task.host_layers(device.host, caches, s, held, n - 1);
        if before is Some {
            let i = from + (n - 1);
            assert(task.layer_start(s + 1) == from + task.stack(s).layers@.len());
            assert(device.holds_stack_layer(task, graph, parts, caches, s, i));
            lemma_stack_layer(
                device,
                task,
                graph,
                parts,
                caches,
                s,
                i,
                layers_value(graph, x, parts.layers, from, i),
                before->0,
            );
        }
    }
}

/// The trunk of a graph after `count` stacks is that of the host.
pub open spec fn same_trunk(
    device: Device,
    task: PlanTask,
    graph: GgmlCpuGraphBuilder,
    parts: PlanParts,
    x: TensorValue,
    trunk: TrunkValues,
    count: int,
) -> bool {
    &&& device.holds(
        task.trunk_value(graph, parts, x, count),
        trunk.rows,
        task.trunk_dim(count) as int,
        task.trunk_frames(count),
    )
    &&& trunk.dim == task.trunk_dim(count)
    &&& trunk.frames == task.trunk_frames(count)
    &&& count <= 3 ==> trunk.tail3 is None
    &&& count <= 4 ==> trunk.tail4 is None
    &&& count > 3 ==> trunk.tail3 is Some && device.holds(
        task.tail_value(graph, parts, x, 3, 512, 768),
        trunk.tail3->0,
        256,
        task.trunk_frames(4),
    )
    &&& count > 4 ==> trunk.tail4 is Some && device.holds(
        task.tail_value(graph, parts, x, 4, 256, 512),
        trunk.tail4->0,
        256,
        task.trunk_frames(5),
    )
}

/// The rows that the layers of a stack get in a graph are those of the host.
proof fn lemma_branch(
    device: Device,
    task: PlanTask,
    graph: GgmlCpuGraphBuilder,
    parts: PlanParts,
    s: int,
    x: TensorValue,
    trunk: TrunkValues,
)
    requires
        device.agrees_with_the_host(),
        device.averages_as_the_host(),
        device.holds_joints(task, graph, parts, s),
        0 <= s < task.weights.stacks@.len(),
        task.dim == task.stack(0).dim,
        same_trunk(device, task, graph, parts, x, trunk, s),
    ensures
        ({
            let host = task.host_branch(device.host, s, trunk);
            let before = task.trunk_value(graph, parts, x, s);
            host is Some ==> {
                &&& device.holds(
                    task.branch_input(graph, parts, s, before),
                    host->0,
                    task.stack(s).dim as int,
                    task.site(s).frames as int,
                )
                &&& s > 0 ==> device.holds(
                    task.downsample_shape(s).padded_value(
                        graph,
                        before,
                        parts.downsamples[s - 1].tensors,
                    ),
                    padded_rows(
                        trunk.rows,
                        trunk.frames as int,
                        trunk.dim as int,
                        task.stack(s).dim as int,
                        task.stack(s).downsampling_factor as int,
                    ),
                    task.stack(s).dim as int,
                    task.trunk_frames(s + 1),
                )
            }
        }),
{
    if s > 0 && task.host_branch(device.host, s, trunk) is Some {
        let stack = task.stack(s);
        law_groups_hold_all_rows(trunk.frames as int, stack.downsampling_factor as int);
        law_graph_downsampling_is_the_host_one(
            device,
            graph,
            parts.downsamples[s - 1].tensors,
            task.downsample_shape(s),
            (stack.downsample_bias->0)@,
            parts.downsamples[s - 1].weights@,
            task.trunk_value(graph, parts, x, s),
            trunk.rows,
        );
    }
}

/// A stack of a graph is that of the host: downsampling, layers, upsampling, and
/// the blend with the rows before.
#[verifier::rlimit(60)]
#[verifier::spinoff_prover]
pub proof fn law_graph_stack_is_the_host_stack(
    device: Device,
    task: PlanTask,
    graph: GgmlCpuGraphBuilder,
    parts: PlanParts,
    caches: Option<Seq<XasrEncoderLayerCache>>,
    s: int,
    x: TensorValue,
    trunk: TrunkValues,
)
    requires
        device.agrees_with_the_host(),
        device.averages_as_the_host(),
        device.holds_stack(task, graph, parts, caches, s),
        0 <= s < task.weights.stacks@.len(),
        task.dim == task.stack(0).dim,
        same_trunk(device, task, graph, parts, x, trunk, s),
    ensures
        ({
            let host = task.host_stack(device.host, caches, s, trunk);
            host is Some ==> same_trunk(device, task, graph, parts, x, host->0, s + 1)
        }),
{
    reveal(PlanTask::host_stack);
    let m = device.host;
    let host = task.host_stack(m, caches, s, trunk);
    if host is Some {
        let stack = task.stack(s);
        let factor = stack.downsampling_factor as int;
        let before = task.trunk_value(graph, parts, x, s);
        let dim = stack.dim as int;
        lemma_branch(device, task, graph, parts, s, x, trunk);
        let down = task.host_branch(m, s, trunk)->0;
        let input = task.branch_input(graph, parts, s, before);
        assert(task.layer_start(s + 1) == task.layer_start(s) + stack.layers@.len());
        law_graph_layers_are_the_host_layers(
            device,
            task,
            graph,
            parts,
            caches,
            s,
            stack.layers@.len() as int,
            input,
            down,
        );
        let branch = task.host_layers(m, caches, s, down, stack.layers@.len() as int)->0;
        let branch_value = layers_value(
            graph,
            input,
            parts.layers,
            task.layer_start(s),
            task.layer_start(s + 1),
        );
        let after = task.trunk_value(graph, parts, x, s + 1);
        assert(after == task.stack_value(graph, parts, s, before));
        if s > 0 {
            let tensors = parts.downsamples[s - 1].tensors;
            let shape = task.downsample_shape(s);
            let groups = shape.out_frames();
            let target = task.trunk_frames(s + 1);
            law_groups_hold_all_rows(trunk.frames as int, factor);
            assert(target == groups * factor);
            assert(target > 0);
            law_graph_upsampling_is_the_host_one(
                device,
                branch_value,
                branch,
                dim,
                groups,
                factor,
                target,
            );
            law_graph_bypass_is_the_host_bypass(
                device,
                shape.padded_value(graph, before, tensors),
                layer_values::upsampled(branch_value, dim, factor, target),
                graph.value(parts.combiners[s - 1].scale),
                padded_rows(trunk.rows, trunk.frames as int, trunk.dim as int, dim, factor),
                upsampled_rows(branch, groups, dim, factor, target),
                (stack.out_combiner_bypass_scale->0)@,
                stack.dim,
                target as usize,
            );
            assert(device.holds(after, host->0.rows, dim, target));
            if s == 3 {
                law_graph_columns_are_the_host_columns(
                    device,
                    after,
                    host->0.rows,
                    dim,
                    target,
                    512,
                    768,
                );
            } else if s == 4 {
                law_graph_columns_are_the_host_columns(
                    device,
                    after,
                    host->0.rows,
                    dim,
                    target,
                    256,
                    512,
                );
            }
        }
    }
}

/// The trunk of a graph is that of the host.
pub proof fn law_graph_trunk_is_the_host_trunk(
    device: Device,
    task: PlanTask,
    graph: GgmlCpuGraphBuilder,
    parts: PlanParts,
    caches: Option<Seq<XasrEncoderLayerCache>>,
    x: TensorValue,
    held: Seq<u32>,
    count: int,
)
    requires
        device.agrees_with_the_host(),
        device.averages_as_the_host(),
        0 <= count <= task.weights.stacks@.len(),
        task.dim == task.stack(0).dim,
        forall|s: int|
            0 <= s < count ==> #[trigger] device.holds_stack(task, graph, parts, caches, s),
        device.holds(x, held, task.dim as int, task.frames as int),
    ensures
        ({
            let host = task.host_trunk(device.host, caches, held, count);
            host is Some ==> same_trunk(device, task, graph, parts, x, host->0, count)
        }),
    decreases count,
{
    if count > 0 {
        law_graph_trunk_is_the_host_trunk(
            device,
            task,
            graph,
            parts,
            caches,
            x,
            held,
            count - 1,
        );
        let before = task.host_trunk(device.host, caches, held, count - 1);
        if before is Some {
            assert(device.holds_stack(task, graph, parts, caches, count - 1));
            law_graph_stack_is_the_host_stack(
                device,
                task,
                graph,
                parts,
                caches,
                count - 1,
                x,
                before->0,
            );
        }
    }
}

/// The encoder of a graph is that of the host: the output of the graph is what the host
/// makes of the same rows with the same caches, stack by stack.  Where the host fails,
/// nothing is said.
pub proof fn law_graph_encoder_is_the_host_encoder(
    device: Device,
    task: PlanTask,
    graph: GgmlCpuGraphBuilder,
    parts: PlanParts,
    caches: Option<Seq<XasrEncoderLayerCache>>,
    x: TensorValue,
    held: Seq<u32>,
)
    requires
        device.agrees_with_the_host(),
        device.averages_as_the_host(),
        1 <= task.stack_count() <= task.weights.stacks@.len(),
        task.dim == task.stack(0).dim,
        forall|s: int|
            0 <= s < task.stack_count() ==> #[trigger] device.holds_stack(
                task,
                graph,
                parts,
                caches,
                s,
            ),
        device.holds_padding(
            graph,
            parts.downsamples[task.stack_count() - 1].tensors,
            task.output_shape(),
        ),
        parts.downsamples[task.stack_count() - 1].weights@ == softmax_row(
            device.host,
            task.weights.downsample_output_bias@,
        ),
        task.output_shape().positive(),
        task.weights.downsample_output_bias@.len() <= usize::MAX,
        device.holds(x, held, task.dim as int, task.frames as int),
    ensures
        ({
            let host = task.host_output(device.host, caches, held);
            host is Some ==> device.holds(
                task.output_shape().rows_value(
                    graph,
                    task.final_trunk(graph, parts, x),
                    parts.downsamples[task.stack_count() - 1].tensors,
                    parts.downsamples[task.stack_count() - 1].weights@,
                ),
                host->0,
                task.output_dim() as int,
                task.output_shape().out_frames(),
            )
        }),
{
    let m = device.host;
    let n = task.stack_count();
    let host = task.host_output(m, caches, held);
    if host is Some {
        law_graph_trunk_is_the_host_trunk(device, task, graph, parts, caches, x, held, n);
        let trunk = task.host_trunk(m, caches, held, n)->0;
        assert(same_trunk(device, task, graph, parts, x, trunk, n));
        let output = output_rows(trunk, task.output_dim())->Ok_0;
        let last = task.final_trunk(graph, parts, x);
        let shape = task.output_shape();
        assert(device.holds(last, output.0, shape.input_dim as int, shape.frames as int)) by {
            if task.widened() {
                law_graph_rows_side_by_side_are_those_of_the_host(
                    device,
                    task.trunk_value(graph, parts, x, n),
                    task.tail_value(graph, parts, x, 4, 256, 512),
                    task.tail_value(graph, parts, x, 3, 512, 768),
                    trunk.rows,
                    trunk.tail4->0,
                    trunk.tail3->0,
                    trunk.frames as int,
                );
            }
        }
        law_graph_downsampling_is_the_host_one(
            device,
            graph,
            parts.downsamples[n - 1].tensors,
            shape,
            task.weights.downsample_output_bias@,
            parts.downsamples[n - 1].weights@,
            last,
            output.0,
        );
    }
}

/// What a layer of a graph gives is what the host computes in that layer: its rows, and
/// what it keeps for the next chunk.
pub proof fn law_graph_layer_values_are_those_of_the_host(
    device: Device,
    task: PlanTask,
    graph: GgmlCpuGraphBuilder,
    parts: PlanParts,
    caches: Option<Seq<XasrEncoderLayerCache>>,
    x: TensorValue,
    held: Seq<u32>,
    s: int,
    k: int,
)
    requires
        device.agrees_with_the_host(),
        device.averages_as_the_host(),
        0 <= s < task.weights.stacks@.len(),
        0 <= k < task.stack(s).layers@.len(),
        task.dim == task.stack(0).dim,
        forall|i: int|
            0 <= i <= s ==> #[trigger] device.holds_stack(task, graph, parts, caches, i),
        device.holds(x, held, task.dim as int, task.frames as int),
    ensures
        ({
            let host = task.host_values(device.host, caches, held, s, k);
            let from = task.layer_start(s);
            let binding = parts.layers[from + k].binding;
            let input = task.branch_input(
                graph,
                parts,
                s,
                task.trunk_value(graph, parts, x, s),
            );
            host is Some ==> device.holds_values(
                binding.tensors.applied(
                    graph,
                    layers_value(graph, input, parts.layers, from, from + k),
                    binding.shape,
                ),
                host->0,
                task.shape_of(s, k),
            )
        }),
{
    let m = device.host;
    let host = task.host_values(m, caches, held, s, k);
    if host is Some {
        let from = task.layer_start(s);
        law_graph_trunk_is_the_host_trunk(device, task, graph, parts, caches, x, held, s);
        let trunk = task.host_trunk(m, caches, held, s)->0;
        assert(device.holds_stack(task, graph, parts, caches, s));
        lemma_branch(device, task, graph, parts, s, x, trunk);
        let down = task.host_branch(m, s, trunk)->0;
        let input = task.branch_input(graph, parts, s, task.trunk_value(graph, parts, x, s));
        law_graph_layers_are_the_host_layers(
            device,
            task,
            graph,
            parts,
            caches,
            s,
            k,
            input,
            down,
        );
        assert(task.layer_start(s + 1) == from + task.stack(s).layers@.len());
        assert(device.holds_stack_layer(task, graph, parts, caches, s, from + k));
        lemma_stack_layer(
            device,
            task,
            graph,
            parts,
            caches,
            s,
            from + k,
            layers_value(graph, input, parts.layers, from, from + k),
            task.host_layers(m, caches, s, down, k)->0,
        );
    }
}

} // verus!
