//! The graph of the whole encoder: stacks of layers at several frame rates.

use vstd::prelude::*;
use crate::embed_binding;
use crate::embed_binding::XasrDownsampleGraphBinding;
use crate::encoder_binding;
use crate::encoder_binding::{
    input_marks, layer_handles, layer_nodes, layer_shape, output_marks,
    XasrZipformerLayerGraphBinding,
};
use crate::encoder_error::{at_stage, map_ggml_stage, outcome, Refusal, XasrEncoderGraphError};
use crate::encoder_weights::{XasrEncoderLayerWeights, XasrEncoderStackWeights, XasrEncoderWeights};
use crate::float_ops;
use crate::float_ops::{FloatModel, FloatOps};
use crate::graph;
use crate::graph::{EffectView, GgmlCpuGraphBuilder, GgmlCpuTensor};
use crate::layer_graph;
use crate::layer_graph::{
    apply_downsample_graph, ceil_div, XasrDownsampleGraphOutput, XasrDownsampleGraphShape,
    XasrUpsampleGraphShape,
};
use crate::layer_values;
use crate::plan_spans::{downsample_span, inside, layer_span, layers_follow, pads_apart};
use crate::runtime_contract::XasrZipformerExecutionMetadata;
use crate::softmax::softmax_row;
use crate::tensor_value::{Shape4, TensorValue};
use crate::text::decimal;
use crate::zipformer_graph;
use crate::zipformer_graph::{apply_zipformer_layer_graph, XasrZipformerLayerGraphOutput};

verus! {

/// A layer of a graph and what is to be uploaded into it.
#[derive(Clone, Copy, Debug)]
pub struct XasrZipformerLayerGraphUpload {
    /// Position among the layers of all stacks.
    pub cache_index: usize,
    pub stack_index: usize,
    /// Position among the layers of the stack.
    pub layer_index: usize,
    pub valid_left_context: usize,
    pub binding: XasrZipformerLayerGraphBinding,
    pub output: XasrZipformerLayerGraphOutput,
}

/// Where the layers of a stack stand.
pub struct StackSite {
    pub stack_index: int,
    pub frames: usize,
    pub valid_left_context: usize,
    pub left_context_len: usize,
    pub num_heads: usize,
    pub query_head_dim: usize,
}

/// The tensors of a layer are the leaves allocated for it.
pub open spec fn layer_bound(
    graph: GgmlCpuGraphBuilder,
    binding: XasrZipformerLayerGraphBinding,
    layer: XasrEncoderLayerWeights,
) -> bool {
    let base = binding.tensors.layer_head.feed_forward1.in_proj_weight.id as int;
    &&& binding.tensors == layer_handles(base)
    &&& binding.tensors.within(graph)
    &&& base <= graph.recorded().len()
    &&& graph::nodes_extend(
        layer_nodes(graph.recorded().take(base), layer, binding.shape),
        graph.recorded(),
    )
}

/// What a sequence of layers makes of `x`.
pub open spec fn layers_value(
    graph: GgmlCpuGraphBuilder,
    x: TensorValue,
    layers: Seq<XasrZipformerLayerGraphUpload>,
    from: int,
    to: int,
) -> TensorValue
    decreases to - from,
{
    if to <= from {
        x
    } else {
        layers[to - 1].binding.tensors.applied(
            graph,
            layers_value(graph, x, layers, from, to - 1),
            layers[to - 1].binding.shape,
        ).rows
    }
}

/// Entry `index` is layer `index - from` of the stack, at its place in the
/// graph, and its outputs are what the layer makes of the rows before it.
pub open spec fn layer_built(
    graph: GgmlCpuGraphBuilder,
    x: TensorValue,
    stack: XasrEncoderStackWeights,
    site: StackSite,
    layers: Seq<XasrZipformerLayerGraphUpload>,
    from: int,
    index: int,
) -> bool {
    let entry = layers[index];
    let layer = stack.layers@[index - from];
    &&& entry.cache_index == index
    &&& entry.stack_index == site.stack_index
    &&& entry.layer_index == index - from
    &&& entry.valid_left_context == site.valid_left_context
    &&& entry.binding.shape == layer_shape(
        layer,
        stack.dim,
        site.frames,
        site.left_context_len,
        site.num_heads,
        site.query_head_dim,
    )
    &&& zipformer_graph::layer_refusal(entry.binding.shape) is None
    &&& layer_bound(graph, entry.binding, layer)
    &&& entry.output.yields(
        graph,
        entry.binding.tensors.applied(
            graph,
            layers_value(graph, x, layers, from, index),
            entry.binding.shape,
        ),
    )
}

/// The marks of layers `from..to`, appended.
pub open spec fn layer_marks(
    pending: Seq<EffectView>,
    layers: Seq<XasrZipformerLayerGraphUpload>,
    from: int,
    to: int,
    persistent: bool,
) -> Seq<EffectView>
    decreases to - from,
{
    if to <= from {
        pending
    } else {
        let before = layer_marks(pending, layers, from, to - 1, persistent);
        let binding = layers[to - 1].binding;
        if persistent {
            output_marks(input_marks(before, binding.inputs()), binding.static_inputs())
        } else {
            input_marks(before, binding.inputs())
        }
    }
}

/// Why one of the first `count` layers of a stack is refused.
pub open spec fn layers_refusal(
    stack: XasrEncoderStackWeights,
    site: StackSite,
    alloc_stage: Seq<char>,
    graph_stage: Seq<char>,
    count: int,
) -> Option<Refusal>
    decreases count,
{
    if count <= 0 {
        None
    } else {
        let earlier = layers_refusal(stack, site, alloc_stage, graph_stage, count - 1);
        let layer = stack.layers@[count - 1];
        let alloc = encoder_binding::layer_allocation_refusal(
            layer,
            site.frames,
            site.left_context_len,
            site.num_heads,
            site.query_head_dim,
        );
        if earlier is Some {
            earlier
        } else if alloc is Some {
            at_stage(alloc_stage, alloc)
        } else {
            at_stage(
                graph_stage,
                zipformer_graph::layer_refusal(
                    layer_shape(
                        layer,
                        stack.dim,
                        site.frames,
                        site.left_context_len,
                        site.num_heads,
                        site.query_head_dim,
                    ),
                ),
            )
        }
    }
}

/// A refused layer refuses every longer run of layers.
proof fn lemma_layers_refusal_monotone(
    stack: XasrEncoderStackWeights,
    site: StackSite,
    alloc_stage: Seq<char>,
    graph_stage: Seq<char>,
    count: int,
    longer: int,
)
    requires
        0 <= count <= longer,
        layers_refusal(stack, site, alloc_stage, graph_stage, count) is Some,
    ensures
        layers_refusal(stack, site, alloc_stage, graph_stage, longer) == layers_refusal(
            stack,
            site,
            alloc_stage,
            graph_stage,
            count,
        ),
    decreases longer,
{
    if count < longer {
        lemma_layers_refusal_monotone(stack, site, alloc_stage, graph_stage, count, longer - 1);
    }
}

/// Every layer of the stack has a norm scale.
pub open spec fn norms_present(stack: XasrEncoderStackWeights) -> bool {
    forall|i: int|
        0 <= i < stack.layers@.len() ==> (#[trigger] stack.layers@[i]).norm_log_scale@.len() > 0
}

/// What layers compute does not change while the graph and the list grow.
pub proof fn lemma_layers_in_grown(
    before: GgmlCpuGraphBuilder,
    after: GgmlCpuGraphBuilder,
    x: TensorValue,
    layers: Seq<XasrZipformerLayerGraphUpload>,
    longer: Seq<XasrZipformerLayerGraphUpload>,
    from: int,
    to: int,
)
    requires
        0 <= from,
        to <= layers.len() <= longer.len(),
        forall|i: int| from <= i < to ==> #[trigger] longer[i] == layers[i],
        forall|i: int|
            from <= i < to ==> (#[trigger] layers[i]).binding.tensors.within(before),
        after.builds_on(before),
    ensures
        layers_value(after, x, longer, from, to) == layers_value(before, x, layers, from, to),
        forall|i: int| from <= i < to ==> (#[trigger] longer[i]).binding.tensors.within(after),
    decreases to - from,
{
    if to > from {
        lemma_layers_in_grown(before, after, x, layers, longer, from, to - 1);
        assert(longer[to - 1] == layers[to - 1]);
        layers[to - 1].binding.tensors.lemma_applied_in_grown(
            before,
            after,
            layers_value(before, x, layers, from, to - 1),
            layers[to - 1].binding.shape,
        );
        assert forall|i: int| from <= i < to implies (
        #[trigger] longer[i]).binding.tensors.within(after) by {
            assert(longer[i] == layers[i]);
        }
    }
}

/// A built layer stays built while the graph and the list grow.
pub proof fn lemma_layer_built_in_grown(
    before: GgmlCpuGraphBuilder,
    after: GgmlCpuGraphBuilder,
    x: TensorValue,
    stack: XasrEncoderStackWeights,
    site: StackSite,
    layers: Seq<XasrZipformerLayerGraphUpload>,
    longer: Seq<XasrZipformerLayerGraphUpload>,
    from: int,
    index: int,
)
    requires
        0 <= from <= index < layers.len() <= longer.len(),
        forall|i: int| from <= i <= index ==> #[trigger] longer[i] == layers[i],
        forall|i: int|
            from <= i <= index ==> (#[trigger] layers[i]).binding.tensors.within(before),
        layer_built(before, x, stack, site, layers, from, index),
        after.builds_on(before),
    ensures
        layer_built(after, x, stack, site, longer, from, index),
{
    lemma_layers_in_grown(before, after, x, layers, longer, from, index);
    let entry = layers[index];
    assert(longer[index] == entry);
    let input = layers_value(before, x, layers, from, index);
    entry.binding.tensors.lemma_applied_in_grown(before, after, input, entry.binding.shape);
    let base = entry.binding.tensors.layer_head.feed_forward1.in_proj_weight.id as int;
    assert(after.recorded().take(base) =~= before.recorded().take(base));
    let nodes = layer_nodes(
        before.recorded().take(base),
        stack.layers@[index - from],
        entry.binding.shape,
    );
    assert forall|i: int| 0 <= i < nodes.len() implies #[trigger] after.recorded()[i]
        == nodes[i] by {
        assert(before.recorded()[i] == nodes[i]);
    }
}

/// Marks do not depend on later entries.
pub proof fn lemma_layer_marks_prefix(
    pending: Seq<EffectView>,
    layers: Seq<XasrZipformerLayerGraphUpload>,
    longer: Seq<XasrZipformerLayerGraphUpload>,
    from: int,
    to: int,
    persistent: bool,
)
    requires
        0 <= from,
        to <= layers.len() <= longer.len(),
        forall|i: int| from <= i < to ==> #[trigger] longer[i] == layers[i],
    ensures
        layer_marks(pending, longer, from, to, persistent) == layer_marks(
            pending,
            layers,
            from,
            to,
            persistent,
        ),
    decreases to - from,
{
    if to > from {
        lemma_layer_marks_prefix(pending, layers, longer, from, to - 1, persistent);
        assert(longer[to - 1] == layers[to - 1]);
    }
}

/// Adds the layers of a stack.
#[verifier::rlimit(60)]
pub fn build_layers(
    graph: &mut GgmlCpuGraphBuilder,
    stack: &XasrEncoderStackWeights,
    stack_index: usize,
    left_context_len: usize,
    num_heads: usize,
    query_head_dim: usize,
    rows: GgmlCpuTensor,
    frames: usize,
    valid_left_context: usize,
    persistent: bool,
    alloc_stage: &'static str,
    graph_stage: &'static str,
    layers: &mut Vec<XasrZipformerLayerGraphUpload>,
) -> (result: Result<GgmlCpuTensor, XasrEncoderGraphError>)
    requires
        old(graph).has_dense(rows),
        norms_present(*stack),
    ensures
        final(graph).builds_on(*old(graph)),
        graph::extends(old(graph)@, final(graph)@),
        ({
            let site = StackSite {
                stack_index: stack_index as int,
                frames,
                valid_left_context,
                left_context_len,
                num_heads,
                query_head_dim,
            };
            let from = old(layers)@.len() as int;
            let to = from + stack.layers@.len();
            &&& outcome(
                result,
                layers_refusal(
                    *stack,
                    site,
                    alloc_stage@,
                    graph_stage@,
                    stack.layers@.len() as int,
                ),
            )
            &&& result is Ok ==> {
                &&& final(layers)@.len() == to
                &&& forall|i: int| 0 <= i < from ==> #[trigger] final(layers)@[i] == old(layers)@[i]
                &&& layers_follow(
                    final(layers)@,
                    from,
                    old(graph)@.len() as int,
                    final(graph)@.len() as int,
                )
                &&& forall|i: int|
                    from <= i < to ==> #[trigger] layer_built(
                        *final(graph),
                        old(graph).value(rows),
                        *stack,
                        site,
                        final(layers)@,
                        from,
                        i,
                    )
                &&& final(graph).has_dense(result->Ok_0)
                &&& final(graph).value(result->Ok_0) == layers_value(
                    *final(graph),
                    old(graph).value(rows),
                    final(layers)@,
                    from,
                    to,
                )
                &&& final(graph).pending() == layer_marks(
                    old(graph).pending(),
                    final(layers)@,
                    from,
                    to,
                    persistent,
                )
            }
        }),
{
    let ghost site = StackSite {
        stack_index: stack_index as int,
        frames,
        valid_left_context,
        left_context_len,
        num_heads,
        query_head_dim,
    };
    let ghost from = layers@.len() as int;
    let ghost x = graph.value(rows);
    let mut state = rows;
    let mut layer_index: usize = 0;
    while layer_index < stack.layers.len()
        invariant
            layer_index <= stack.layers@.len(),
            norms_present(*stack),
            site == (StackSite {
                stack_index: stack_index as int,
                frames,
                valid_left_context,
                left_context_len,
                num_heads,
                query_head_dim,
            }),
            from == old(layers)@.len(),
            layers@.len() == from + layer_index,
            forall|i: int| 0 <= i < from ==> #[trigger] layers@[i] == old(layers)@[i],
            layers_follow(layers@, from, old(graph)@.len() as int, graph@.len() as int),
            x == old(graph).value(rows),
            graph.builds_on(*old(graph)),
            layers_refusal(*stack, site, alloc_stage@, graph_stage@, layer_index as int) is None,
            forall|i: int|
                from <= i < from + layer_index ==> #[trigger] layer_built(
                    *graph,
                    x,
                    *stack,
                    site,
                    layers@,
                    from,
                    i,
                ),
            graph.has_dense(state),
            graph.value(state) == layers_value(*graph, x, layers@, from, from + layer_index),
            graph.pending() == layer_marks(
                old(graph).pending(),
                layers@,
                from,
                from + layer_index,
                persistent,
            ),
        decreases stack.layers.len() - layer_index,
    {
        let layer = &stack.layers[layer_index];
        let ghost g0 = *graph;
        let ghost before = layers@;
        let ghost here = from + layer_index;
        proof {
            if layers_refusal(*stack, site, alloc_stage@, graph_stage@, layer_index + 1) is Some {
                lemma_layers_refusal_monotone(
                    *stack,
                    site,
                    alloc_stage@,
                    graph_stage@,
                    layer_index + 1,
                    stack.layers@.len() as int,
                );
            }
        }
        let allocated = XasrZipformerLayerGraphBinding::new(
            graph,
            layer,
            stack.dim,
            frames,
            left_context_len,
            num_heads,
            query_head_dim,
        );
        let binding = map_ggml_stage(alloc_stage, allocated)?;
        let ghost g1 = *graph;
        if persistent {
            binding.set_persistent_inputs(graph);
        } else {
            binding.set_inputs(graph);
        }
        let ghost g2 = *graph;
        proof {
            assert(g2.builds_on(g1));
            binding.tensors.lemma_applied_in_grown(g1, g2, x, binding.shape);
        }
        let applied = apply_zipformer_layer_graph(graph, state, binding.tensors(), binding.shape());
        let output = map_ggml_stage(graph_stage, applied)?;
        state = output.rows;
        layers.push(
            XasrZipformerLayerGraphUpload {
                cache_index: layers.len(),
                stack_index,
                layer_index,
                valid_left_context,
                binding,
                output,
            },
        );
        proof {
            let g3 = *graph;
            assert(g1.builds_on(g0));
            assert(g3.builds_on(g2));
            assert(g3.builds_on(g0));
            assert forall|i: int| from <= i < here implies (
            #[trigger] before[i]).binding.tensors.within(g0) by {
                assert(layer_built(g0, x, *stack, site, before, from, i));
            }
            lemma_layers_in_grown(g0, g3, x, before, layers@, from, here);
            assert(layer_span(layers@[here]) == (
                g0@.len() as int,
                g0@.len() + encoder_binding::LAYER_LEAF_COUNT,
            ));
            assert(layers_follow(layers@, from, old(graph)@.len() as int, g3@.len() as int)) by {
                assert forall|i: int| from <= i < here implies #[trigger] layers@[i]
                    == before[i] by {}
            }
            let input = layers_value(g3, x, layers@, from, here);
            binding.tensors.lemma_applied_in_grown(g2, g3, input, binding.shape);
            assert(layers@[here].binding == binding);
            assert(graph.value(state) == layers_value(g3, x, layers@, from, here + 1));
            lemma_layer_marks_prefix(
                old(graph).pending(),
                before,
                layers@,
                from,
                here,
                persistent,
            );
            assert forall|i: int| from <= i < here + 1 implies #[trigger] layer_built(
                g3,
                x,
                *stack,
                site,
                layers@,
                from,
                i,
            ) by {
                if i < here {
                    assert(layer_built(g0, x, *stack, site, before, from, i));
                    lemma_layer_built_in_grown(
                        g0,
                        g3,
                        x,
                        *stack,
                        site,
                        before,
                        layers@,
                        from,
                        i,
                    );
                } else {
                    let base = g0@.len() as int;
                    g0.lemma_view_len();
                    let nodes = layer_nodes(g0.recorded(), *layer, binding.shape);
                    assert(g3.recorded().take(base) =~= g0.recorded());
                    assert(g1.recorded() == nodes);
                    assert(binding.tensors.layer_head.feed_forward1.in_proj_weight.id == base);
                }
            }
        }
        layer_index = layer_index + 1;
    }
    Ok(state)
}

/// A learned mixing of a stack into the trunk.
#[derive(Clone, Copy, Debug)]
pub struct XasrOutCombinerGraphUpload {
    pub stack_index: usize,
    pub scale: GgmlCpuTensor,
}

/// The parts of an encoder graph by their contents.
pub struct PlanParts {
    pub layers: Seq<XasrZipformerLayerGraphUpload>,
    pub downsamples: Seq<XasrDownsampleGraphBinding>,
    pub combiners: Seq<XasrOutCombinerGraphUpload>,
}

/// `longer` starts with the parts of `parts`.
pub open spec fn parts_extend(parts: PlanParts, longer: PlanParts) -> bool {
    &&& parts.layers.len() <= longer.layers.len()
    &&& parts.downsamples.len() <= longer.downsamples.len()
    &&& parts.combiners.len() <= longer.combiners.len()
    &&& forall|i: int|
        0 <= i < parts.layers.len() ==> #[trigger] longer.layers[i] == parts.layers[i]
    &&& forall|i: int|
        0 <= i < parts.downsamples.len() ==> #[trigger] longer.downsamples[i]
            == parts.downsamples[i]
    &&& forall|i: int|
        0 <= i < parts.combiners.len() ==> #[trigger] longer.combiners[i] == parts.combiners[i]
}

/// An encoder, the input it gets and how its graph is used.
pub struct PlanTask {
    pub metadata: XasrZipformerExecutionMetadata,
    pub weights: XasrEncoderWeights,
    pub frames: usize,
    pub dim: usize,
    pub valid_left_context: usize,
    pub persistent: bool,
}

impl PlanTask {
    pub open spec fn stack(self, s: int) -> XasrEncoderStackWeights {
        self.weights.stacks@[s]
    }

    /// The lists of the metadata and the weights cover all stacks.
    pub open spec fn covered(self) -> bool {
        let n = self.metadata.num_stacks as int;
        &&& n > 0
        &&& self.metadata.left_context_len@.len() >= n
        &&& self.metadata.num_heads@.len() >= n
        &&& self.metadata.query_head_dims@.len() >= n
        &&& self.weights.stacks@.len() >= n
        &&& forall|s: int| 0 <= s < n ==> norms_present(#[trigger] self.weights.stacks@[s])
    }

    /// Frames of the trunk after `count` stacks: each stack but the first pads
    /// them to a multiple of its factor.
    pub open spec fn trunk_frames(self, count: int) -> int
        decreases count,
    {
        if count <= 1 {
            self.frames as int
        } else {
            ceil_div(
                self.trunk_frames(count - 1),
                self.stack(count - 1).downsampling_factor as int,
            ) * self.stack(count - 1).downsampling_factor
        }
    }

    /// Width of the trunk after `count` stacks.
    pub open spec fn trunk_dim(self, count: int) -> usize {
        if count <= 0 {
            self.dim
        } else {
            self.stack(count - 1).dim
        }
    }

    /// Frames that the layers of stack `s` see.
    pub open spec fn branch_frames(self, s: int) -> int {
        if s == 0 {
            self.frames as int
        } else {
            ceil_div(self.trunk_frames(s), self.stack(s).downsampling_factor as int)
        }
    }

    pub open spec fn downsample_shape(self, s: int) -> XasrDownsampleGraphShape {
        XasrDownsampleGraphShape {
            frames: self.trunk_frames(s) as usize,
            input_dim: self.trunk_dim(s),
            target_dim: self.stack(s).dim,
            factor: self.stack(s).downsampling_factor,
        }
    }

    pub open spec fn upsample_shape(self, s: int) -> XasrUpsampleGraphShape {
        XasrUpsampleGraphShape {
            frames: self.branch_frames(s) as usize,
            dim: self.stack(s).dim,
            factor: self.stack(s).downsampling_factor,
            target_frames: self.trunk_frames(s + 1) as usize,
        }
    }

    pub open spec fn site(self, s: int) -> StackSite {
        StackSite {
            stack_index: s,
            frames: self.branch_frames(s) as usize,
            valid_left_context: if s == 0 {
                self.valid_left_context
            } else {
                ceil_div(
                    self.valid_left_context as int,
                    self.stack(s).downsampling_factor as int,
                ) as usize
            },
            left_context_len: self.metadata.left_context_len@[s],
            num_heads: self.metadata.num_heads@[s],
            query_head_dim: self.metadata.query_head_dims@[s],
        }
    }

    /// Number of layers before stack `s`.
    pub open spec fn layer_start(self, s: int) -> int
        decreases s,
    {
        if s <= 0 {
            0
        } else {
            self.layer_start(s - 1) + self.stack(s - 1).layers@.len()
        }
    }

    /// What the layers of stack `s` get.
    pub open spec fn branch_input(
        self,
        graph: GgmlCpuGraphBuilder,
        parts: PlanParts,
        s: int,
        trunk: TensorValue,
    ) -> TensorValue {
        if s == 0 {
            trunk
        } else {
            self.downsample_shape(s).rows_value(
                graph,
                trunk,
                parts.downsamples[s - 1].tensors,
                parts.downsamples[s - 1].weights@,
            )
        }
    }

    /// The weights of the groups of rows of the stacks `1..count` are the
    /// softmax of their biases.
    pub open spec fn weighs_stacks(self, m: FloatModel, parts: PlanParts, count: int) -> bool {
        forall|k: int|
            0 <= k < count - 1 ==> (#[trigger] parts.downsamples[k]).weights@ == softmax_row(
                m,
                self.stack(k + 1).downsample_bias->0@,
            )
    }

    /// The weights of all groups of rows are the softmax of their biases.
    pub open spec fn weighs(self, m: FloatModel, parts: PlanParts) -> bool {
        let n = self.stack_count();
        &&& self.weighs_stacks(m, parts, n)
        &&& parts.downsamples[n - 1].weights@ == softmax_row(
            m,
            self.weights.downsample_output_bias@,
        )
    }

    /// What stack `s` makes of the trunk: its layers at their frame rate,
    /// repeated up to the frame rate of the trunk and mixed with it.
    pub open spec fn stack_value(
        self,
        graph: GgmlCpuGraphBuilder,
        parts: PlanParts,
        s: int,
        trunk: TensorValue,
    ) -> TensorValue {
        let branch = layers_value(
            graph,
            self.branch_input(graph, parts, s, trunk),
            parts.layers,
            self.layer_start(s),
            self.layer_start(s + 1),
        );
        if s == 0 {
            branch
        } else {
            layer_values::bypass(
                self.downsample_shape(s).padded_value(
                    graph,
                    trunk,
                    parts.downsamples[s - 1].tensors,
                ),
                layer_values::upsampled(
                    branch,
                    self.stack(s).dim as int,
                    self.stack(s).downsampling_factor as int,
                    self.trunk_frames(s + 1),
                ),
                graph.value(parts.combiners[s - 1].scale),
            )
        }
    }

    /// The trunk after `count` stacks.
    pub open spec fn trunk_value(
        self,
        graph: GgmlCpuGraphBuilder,
        parts: PlanParts,
        x: TensorValue,
        count: int,
    ) -> TensorValue
        decreases count,
    {
        if count <= 0 {
            x
        } else {
            self.stack_value(
                graph,
                parts,
                count - 1,
                self.trunk_value(graph, parts, x, count - 1),
            )
        }
    }

    /// Columns `start..end` of the trunk after stack `s`.
    pub open spec fn tail_value(
        self,
        graph: GgmlCpuGraphBuilder,
        parts: PlanParts,
        x: TensorValue,
        s: int,
        start: int,
        end: int,
    ) -> TensorValue {
        layer_values::columns(
            self.trunk_value(graph, parts, x, s + 1),
            self.stack(s).dim as int,
            self.trunk_frames(s + 1),
            start,
            end,
        )
    }

    /// Stack `s` stands in the graph.
    pub open spec fn stack_built(
        self,
        graph: GgmlCpuGraphBuilder,
        parts: PlanParts,
        x: TensorValue,
        s: int,
    ) -> bool {
        let from = self.layer_start(s);
        let to = self.layer_start(s + 1);
        let trunk = self.trunk_value(graph, parts, x, s);
        &&& from <= to <= parts.layers.len()
        &&& s <= parts.downsamples.len()
        &&& s <= parts.combiners.len()
        &&& s > 0 ==> {
            &&& downsample_bound(graph, parts.downsamples[s - 1], self.downsample_shape(s))
            &&& combiner_bound(graph, parts.combiners[s - 1], s, self.stack(s).dim)
        }
        &&& forall|i: int|
            from <= i < to ==> #[trigger] layer_built(
                graph,
                self.branch_input(graph, parts, s, trunk),
                self.stack(s),
                self.site(s),
                parts.layers,
                from,
                i,
            )
    }

    /// Why stack `s` is refused.
    pub open spec fn stack_refusal(self, s: int) -> Option<Refusal> {
        let stack = self.stack(s);
        let factor = stack.downsampling_factor;
        let shape = self.downsample_shape(s);
        let handles = embed_binding::downsample_handles(0, shape);
        let layers = layers_refusal(
            stack,
            self.site(s),
            "full_encoder_layer_alloc"@,
            "full_encoder_layer_graph"@,
            stack.layers@.len() as int,
        );
        let frames = self.trunk_frames(s + 1) as usize;
        if factor == 0 {
            Some(
                Refusal::Shape {
                    reason: "stack"@ + decimal(s as nat) + " downsampling factor must be > 0"@,
                },
            )
        } else if s == 0 && factor != 1 {
            Some(
                Refusal::Shape {
                    reason: "stack0 contract drift: downsampling_factor="@ + decimal(
                        factor as nat,
                    ),
                },
            )
        } else if s > 0 && stack.downsample_bias is None {
            Some(
                Refusal::Shape {
                    reason: "stack"@ + decimal(s as nat) + " missing downsample bias"@,
                },
            )
        } else if s > 0 && embed_binding::downsample_allocation_refusal(shape) is Some {
            at_stage(
                "full_encoder_downsample_alloc"@,
                embed_binding::downsample_allocation_refusal(shape),
            )
        } else if s > 0 && layer_graph::downsample_refusal(
            stack.downsample_bias->0@,
            handles,
            shape,
        ) is Some {
            at_stage(
                "full_encoder_downsample_graph"@,
                layer_graph::downsample_refusal(stack.downsample_bias->0@, handles, shape),
            )
        } else if layers is Some {
            layers
        } else if s > 0 && layer_graph::upsample_refusal(self.upsample_shape(s)) is Some {
            at_stage(
                "full_encoder_upsample_graph"@,
                layer_graph::upsample_refusal(self.upsample_shape(s)),
            )
        } else if s == 3 {
            at_stage(
                "full_encoder_stack3_tail_graph"@,
                layer_graph::slice_refusal(frames, stack.dim, 512, 768),
            )
        } else if s == 4 {
            at_stage(
                "full_encoder_stack4_tail_graph"@,
                layer_graph::slice_refusal(frames, stack.dim, 256, 512),
            )
        } else {
            None
        }
    }

    /// Why one of the first `count` stacks is refused.
    pub open spec fn stacks_refusal(self, count: int) -> Option<Refusal>
        decreases count,
    {
        if count <= 0 {
            None
        } else if self.stacks_refusal(count - 1) is Some {
            self.stacks_refusal(count - 1)
        } else {
            self.stack_refusal(count - 1)
        }
    }

    pub proof fn lemma_stacks_refusal_monotone(self, count: int, longer: int)
        requires
            0 <= count <= longer,
            self.stacks_refusal(count) is Some,
        ensures
            self.stacks_refusal(longer) == self.stacks_refusal(count),
        decreases longer,
    {
        if count < longer {
            self.lemma_stacks_refusal_monotone(count, longer - 1);
        }
    }

    /// The marks of stack `s`, appended.
    pub open spec fn stack_marks(self, pending: Seq<EffectView>, parts: PlanParts, s: int) -> Seq<
        EffectView,
    > {
        let from = self.layer_start(s);
        let to = self.layer_start(s + 1);
        if s == 0 {
            layer_marks(pending, parts.layers, from, to, self.persistent)
        } else {
            let with_layers = layer_marks(
                downsample_marks(pending, parts.downsamples[s - 1], self.persistent),
                parts.layers,
                from,
                to,
                self.persistent,
            );
            let scale = parts.combiners[s - 1].scale.id as int;
            let with_scale = with_layers.push((EffectView::SetInput { tensor: scale }));
            if self.persistent {
                with_scale.push((EffectView::SetOutput { tensor: scale }))
            } else {
                with_scale
            }
        }
    }

    /// The marks of the first `count` stacks, appended.
    pub open spec fn trunk_marks(
        self,
        pending: Seq<EffectView>,
        parts: PlanParts,
        count: int,
    ) -> Seq<
        EffectView,
    >
        decreases count,
    {
        if count <= 0 {
            pending
        } else {
            self.stack_marks(self.trunk_marks(pending, parts, count - 1), parts, count - 1)
        }
    }

    /// Layers are counted upwards.
    pub proof fn lemma_layer_start_monotone(self, s: int, t: int)
        requires
            0 <= s <= t,
        ensures
            0 <= self.layer_start(s) <= self.layer_start(t),
        decreases t,
    {
        if s < t {
            self.lemma_layer_start_monotone(s, t - 1);
        } else if s > 0 {
            self.lemma_layer_start_monotone(s - 1, s - 1);
        }
    }

    /// The trunk does not change while the graph and its parts grow.
    pub proof fn lemma_trunk_in_grown(
        self,
        before: GgmlCpuGraphBuilder,
        after: GgmlCpuGraphBuilder,
        parts: PlanParts,
        longer: PlanParts,
        x: TensorValue,
        count: int,
    )
        requires
            0 <= count,
            forall|s: int| 0 <= s < count ==> #[trigger] self.stack_built(before, parts, x, s),
            after.builds_on(before),
            parts_extend(parts, longer),
        ensures
            self.trunk_value(after, longer, x, count) == self.trunk_value(before, parts, x, count),
            forall|s: int| 0 <= s < count ==> #[trigger] self.stack_built(after, longer, x, s),
        decreases count,
    {
        if count > 0 {
            self.lemma_trunk_in_grown(before, after, parts, longer, x, count - 1);
            let s = count - 1;
            assert(self.stack_built(before, parts, x, s));
            let trunk = self.trunk_value(before, parts, x, s);
            let from = self.layer_start(s);
            let to = self.layer_start(s + 1);
            self.lemma_layer_start_monotone(0, s);
            if s > 0 {
                assert(longer.downsamples[s - 1] == parts.downsamples[s - 1]);
                assert(longer.combiners[s - 1] == parts.combiners[s - 1]);
                self.downsample_shape(s).lemma_values_in_grown(
                    before,
                    after,
                    trunk,
                    parts.downsamples[s - 1].tensors,
                    parts.downsamples[s - 1].weights@,
                );
                lemma_downsample_bound_in_grown(
                    before,
                    after,
                    parts.downsamples[s - 1],
                    self.downsample_shape(s),
                );
            }
            let input = self.branch_input(before, parts, s, trunk);
            assert(self.branch_input(after, longer, s, trunk) == input);
            assert forall|i: int| from <= i < to implies (
            #[trigger] parts.layers[i]).binding.tensors.within(before) by {
                assert(layer_built(
                    before,
                    input,
                    self.stack(s),
                    self.site(s),
                    parts.layers,
                    from,
                    i,
                ));
            }
            lemma_layers_in_grown(before, after, input, parts.layers, longer.layers, from, to);
            assert forall|i: int| from <= i < to implies #[trigger] layer_built(
                after,
                input,
                self.stack(s),
                self.site(s),
                longer.layers,
                from,
                i,
            ) by {
                assert(layer_built(
                    before,
                    input,
                    self.stack(s),
                    self.site(s),
                    parts.layers,
                    from,
                    i,
                ));
                lemma_layer_built_in_grown(
                    before,
                    after,
                    input,
                    self.stack(s),
                    self.site(s),
                    parts.layers,
                    longer.layers,
                    from,
                    i,
                );
            }
            assert(self.stack_built(after, longer, x, s));
        }
    }

    /// Marks do not depend on later parts.
    pub proof fn lemma_trunk_marks_prefix(
        self,
        pending: Seq<EffectView>,
        parts: PlanParts,
        longer: PlanParts,
        count: int,
    )
        requires
            0 <= count,
            self.layer_start(count) <= parts.layers.len(),
            count <= parts.downsamples.len() + 1,
            count <= parts.combiners.len() + 1,
            parts_extend(parts, longer),
        ensures
            self.trunk_marks(pending, longer, count) == self.trunk_marks(pending, parts, count),
        decreases count,
    {
        if count > 0 {
            let s = count - 1;
            self.lemma_layer_start_monotone(s, s + 1);
            self.lemma_trunk_marks_prefix(pending, parts, longer, s);
            let before = self.trunk_marks(pending, parts, s);
            if s == 0 {
                lemma_layer_marks_prefix(
                    before,
                    parts.layers,
                    longer.layers,
                    self.layer_start(s),
                    self.layer_start(s + 1),
                    self.persistent,
                );
            } else {
                assert(longer.downsamples[s - 1] == parts.downsamples[s - 1]);
                assert(longer.combiners[s - 1] == parts.combiners[s - 1]);
                lemma_layer_marks_prefix(
                    downsample_marks(before, parts.downsamples[s - 1], self.persistent),
                    parts.layers,
                    longer.layers,
                    self.layer_start(s),
                    self.layer_start(s + 1),
                    self.persistent,
                );
            }
        }
    }
}

/// The marks of a downsampling, appended.
pub open spec fn downsample_marks(
    pending: Seq<EffectView>,
    binding: XasrDownsampleGraphBinding,
    persistent: bool,
) -> Seq<EffectView> {
    if persistent {
        output_marks(input_marks(pending, binding.inputs()), binding.inputs())
    } else {
        input_marks(pending, binding.inputs())
    }
}

/// The padding tensors of a downsampling are leaves of the right dimensions.
pub open spec fn downsample_bound(
    graph: GgmlCpuGraphBuilder,
    binding: XasrDownsampleGraphBinding,
    shape: XasrDownsampleGraphShape,
) -> bool {
    &&& binding.shape == shape
    &&& shape.positive()
    &&& binding.tensors.within(graph)
    &&& shape.padding_present(binding.tensors)
    &&& binding.tensors.channel_pad is Some ==> {
        let id = (binding.tensors.channel_pad->0).id as int;
        &&& shape.target_dim > shape.input_dim
        &&& id < graph.recorded().len()
        &&& graph.recorded()[id] == encoder_binding::float_leaf(
            (shape.target_dim - shape.input_dim) as usize,
            shape.frames,
            1,
            1,
            "xasr_down_ch_pad",
        )
    }
    &&& binding.tensors.frame_pad is Some ==> {
        let id = (binding.tensors.frame_pad->0).id as int;
        &&& shape.padded_frames() > shape.frames
        &&& id < graph.recorded().len()
        &&& graph.recorded()[id] == encoder_binding::float_leaf(
            shape.target_dim,
            (shape.padded_frames() - shape.frames) as usize,
            1,
            1,
            "xasr_down_fr_pad",
        )
    }
}

pub proof fn lemma_downsample_bound_in_grown(
    before: GgmlCpuGraphBuilder,
    after: GgmlCpuGraphBuilder,
    binding: XasrDownsampleGraphBinding,
    shape: XasrDownsampleGraphShape,
)
    requires
        downsample_bound(before, binding, shape),
        after.builds_on(before),
    ensures
        downsample_bound(after, binding, shape),
{
}

/// The scale of a combiner is a leaf of the width of the stack.
pub open spec fn combiner_bound(
    graph: GgmlCpuGraphBuilder,
    combiner: XasrOutCombinerGraphUpload,
    s: int,
    dim: usize,
) -> bool {
    &&& combiner.stack_index == s
    &&& graph.has_dense(combiner.scale)
    &&& graph.value(combiner.scale) == TensorValue::leaf(
        combiner.scale.id as int,
        (Shape4 { ne0: dim, ne1: 1, ne2: 1, ne3: 1 }),
    )
    &&& combiner.scale.id < graph.recorded().len()
    &&& graph.recorded()[combiner.scale.id as int] == encoder_binding::float_leaf(
        dim,
        1,
        1,
        1,
        "xasr_out_combiner_scale",
    )
}

/// Allocates a downsampling, marks its tensors and adds it.
pub fn build_downsample<O: FloatOps>(
    ops: &O,
    graph: &mut GgmlCpuGraphBuilder,
    rows: GgmlCpuTensor,
    logits: &[u32],
    frames: usize,
    input_dim: usize,
    target_dim: usize,
    factor: usize,
    persistent: bool,
    alloc_stage: &'static str,
    graph_stage: &'static str,
) -> (result: Result<
    (XasrDownsampleGraphBinding, XasrDownsampleGraphOutput),
    XasrEncoderGraphError,
>)
    requires
        old(graph).has_dense(rows),
    ensures
        final(graph).builds_on(*old(graph)),
        ({
            let shape = XasrDownsampleGraphShape { frames, input_dim, target_dim, factor };
            let alloc = embed_binding::downsample_allocation_refusal(shape);
            let handles = embed_binding::downsample_handles(0, shape);
            &&& outcome(
                result,
                if alloc is Some {
                    at_stage(alloc_stage@, alloc)
                } else {
                    at_stage(
                        graph_stage@,
                        layer_graph::downsample_refusal(logits@, handles, shape),
                    )
                },
            )
            &&& result is Ok ==> {
                let binding = result->Ok_0.0;
                let output = result->Ok_0.1;
                &&& downsample_bound(*final(graph), binding, shape)
                &&& pads_apart(binding)
                &&& inside(
                    downsample_span(binding),
                    old(graph)@.len() as int,
                    final(graph)@.len() as int,
                )
                &&& final(graph).has_dense(output.padded_rows)
                &&& final(graph).has_dense(output.rows)
                &&& final(graph).value(output.padded_rows) == shape.padded_value(
                    *final(graph),
                    old(graph).value(rows),
                    binding.tensors,
                )
                &&& final(graph).value(output.rows) == shape.rows_value(
                    *final(graph),
                    old(graph).value(rows),
                    binding.tensors,
                    binding.weights@,
                )
                &&& float_ops::functional(ops) ==> binding.weights@ == softmax_row(
                    float_ops::model(ops),
                    logits@,
                )
                &&& output.frames == shape.out_frames()
                &&& shape.padded_frames() <= usize::MAX
                &&& output.dim == target_dim
                &&& final(graph).pending() == downsample_marks(
                    old(graph).pending(),
                    binding,
                    persistent,
                )
            }
        }),
{
    proof {
        reveal(layer_graph::downsample_refusal);
    }
    let ghost shape = XasrDownsampleGraphShape { frames, input_dim, target_dim, factor };
    let ghost g0 = *graph;
    proof {
        graph.lemma_view_len();
    }
    let allocated = XasrDownsampleGraphBinding::new(graph, frames, input_dim, target_dim, factor);
    let binding = map_ggml_stage(alloc_stage, allocated)?;
    let ghost g1 = *graph;
    proof {
        graph.lemma_view_len();
        assert(g1.recorded().len() <= g0.recorded().len() + 2);
    }
    if persistent {
        binding.set_persistent_inputs(graph);
    } else {
        binding.set_inputs(graph);
    }
    let ghost g2 = *graph;
    let applied = apply_downsample_graph(ops, graph, rows, logits, binding.tensors, binding.shape);
    let (output, weights) = map_ggml_stage(graph_stage, applied)?;
    proof {
        assert(g2.builds_on(g1));
        shape.lemma_values_in_grown(g2, *graph, g0.value(rows), binding.tensors, weights@);
        lemma_downsample_bound_in_grown(g1, *graph, binding, shape);
    }
    let weighed = XasrDownsampleGraphBinding {
        tensors: binding.tensors,
        shape: binding.shape,
        weights,
    };
    Ok((weighed, output))
}

} // verus!
