//! Equal chunks give equal results, whether the graph was kept between them or built anew.

use vstd::prelude::*;
use crate::alike::{
    group_alike, lemma_same_channels, lemma_same_list, lemma_same_rows, same_operations,
};
use crate::attention_graph::{AttentionBlockValues, XasrSelfAttentionWeightsGraphTensors};
use crate::embed_binding::{lemma_padded_frames_cover, XasrDownsampleGraphBinding};
use crate::encoder_plan::{downsample_bound, layer_built, layers_value, PlanParts, PlanTask};
use crate::encoder_session::input_value;
use crate::encoder_tables::{attention_mask, position_table, scale_table};
use crate::encoder_upload::{
    floats, SWOOSH_L_OFFSET, SWOOSH_L_SHIFT, SWOOSH_R_OFFSET, SWOOSH_R_SHIFT,
};
use crate::encoder_weights::{
    XasrConv1dWeights, XasrConvolutionModuleWeights, XasrEncoderLayerWeights, XasrEncoderWeights,
    XasrLinearPairWeights, XasrLinearWithBias, XasrSelfAttentionWeightsWeights,
};
use crate::graph::GgmlCpuTensor;
use crate::layer_graph::{
    XasrConvolutionModuleGraphShape, XasrConvolutionModuleGraphTensors, XasrFeedForwardGraphTensors,
};
use crate::parity::Device;
use crate::parity_chunks::{lemma_last_chunk_is_uploaded, KeptRun};
use crate::parity_layer::KeptCaches;
use crate::parity_layer_upload::{
    head_leaves, layer_complete, lemma_bound_layer_leaves, tail_leaves,
};
use crate::parity_plan_upload::{
    lemma_entries_ready, lemma_owner, lemma_uploaded_stacks, output_values,
};
use crate::parity_upload::{
    attention_leaves, block_leaves, feed_forward_leaves, is_leaf, lemma_uploaded_rows,
    linear_leaves, module_leaves,
};
use crate::rows::zero_seq;
use crate::runtime_contract::XasrZipformerExecutionMetadata;
use crate::same_layers::{
    law_same_layers_give_the_same, lemma_same_downsampling, lemma_same_upsampling, same_attention,
    same_block, same_feed_forward, same_layer, same_module, same_padding, same_values, OnDevice,
};
use crate::tensor_value::TensorValue;
use crate::zipformer_graph::{
    XasrLayerHeadGraphShape, XasrZipformerLayerGraphShape, XasrZipformerLayerGraphTensors,
};

verus! {

/// The devices have the same operations, and read zeros outside the leaves of their graphs.
pub open spec fn comparable(p: OnDevice, q: OnDevice) -> bool {
    &&& same_operations(p.device, q.device)
    &&& p.device.zero_outside(p.graph)
    &&& q.device.zero_outside(q.graph)
}

proof fn lemma_rows(
    p: OnDevice,
    s: GgmlCpuTensor,
    q: OnDevice,
    t: GgmlCpuTensor,
    rows: Seq<u32>,
    dim: int,
    frames: int,
)
    requires
        comparable(p, q),
        is_leaf(p.graph, s, dim, frames, 1),
        is_leaf(q.graph, t, dim, frames, 1),
        p.device.holds(p.graph.value(s), rows, dim, frames),
        q.device.holds(q.graph.value(t), rows, dim, frames),
    ensures
        p.same(p.graph.value(s), q, q.graph.value(t)),
{
    lemma_same_rows(p.device, p.graph, s, q.device, q.graph, t, rows, dim, frames);
}

proof fn lemma_list(
    p: OnDevice,
    s: GgmlCpuTensor,
    q: OnDevice,
    t: GgmlCpuTensor,
    entries: Seq<u32>,
)
    requires
        comparable(p, q),
        is_leaf(p.graph, s, entries.len() as int, 1, 1),
        is_leaf(q.graph, t, entries.len() as int, 1, 1),
        p.device.holds_list(p.graph.value(s), entries),
        q.device.holds_list(q.graph.value(t), entries),
    ensures
        p.same(p.graph.value(s), q, q.graph.value(t)),
{
    lemma_same_list(p.device, p.graph, s, q.device, q.graph, t, entries);
}

proof fn lemma_linear(
    p: OnDevice,
    weight: GgmlCpuTensor,
    bias: GgmlCpuTensor,
    q: OnDevice,
    other_weight: GgmlCpuTensor,
    other_bias: GgmlCpuTensor,
    linear: XasrLinearWithBias,
)
    requires
        comparable(p, q),
        linear_leaves(p.graph, weight, bias, linear),
        linear_leaves(q.graph, other_weight, other_bias, linear),
        p.device.holds_linear(p.graph.value(weight), p.graph.value(bias), linear),
        q.device.holds_linear(q.graph.value(other_weight), q.graph.value(other_bias), linear),
    ensures
        p.same(p.graph.value(weight), q, q.graph.value(other_weight)),
        p.same(p.graph.value(bias), q, q.graph.value(other_bias)),
{
    lemma_rows(
        p,
        weight,
        q,
        other_weight,
        linear.weight.values@,
        linear.weight.input_dim as int,
        linear.weight.output_dim as int,
    );
    lemma_list(p, bias, q, other_bias, linear.bias@);
}

proof fn lemma_feed_forward_held(
    p: OnDevice,
    s: XasrFeedForwardGraphTensors,
    q: OnDevice,
    t: XasrFeedForwardGraphTensors,
    weights: XasrLinearPairWeights,
)
    requires
        comparable(p, q),
        feed_forward_leaves(p.graph, s, weights),
        feed_forward_leaves(q.graph, t, weights),
        p.device.holds_feed_forward(p.graph, s, weights),
        q.device.holds_feed_forward(q.graph, t, weights),
    ensures
        same_feed_forward(p, s, q, t),
{
    lemma_linear(
        p,
        s.in_proj_weight,
        s.in_proj_bias,
        q,
        t.in_proj_weight,
        t.in_proj_bias,
        weights.in_proj,
    );
    lemma_linear(
        p,
        s.out_proj_weight,
        s.out_proj_bias,
        q,
        t.out_proj_weight,
        t.out_proj_bias,
        weights.out_proj,
    );
    lemma_list(p, s.swoosh_l_offset, q, t.swoosh_l_offset, seq![SWOOSH_L_OFFSET]);
    lemma_list(p, s.swoosh_l_shift, q, t.swoosh_l_shift, seq![SWOOSH_L_SHIFT]);
}

proof fn lemma_attention_held(
    p: OnDevice,
    s: XasrSelfAttentionWeightsGraphTensors,
    q: OnDevice,
    t: XasrSelfAttentionWeightsGraphTensors,
    weights: XasrSelfAttentionWeightsWeights,
    cache: Seq<u32>,
    shape: XasrLayerHeadGraphShape,
    valid: int,
)
    requires
        comparable(p, q),
        attention_leaves(p.graph, s, weights, shape),
        attention_leaves(q.graph, t, weights, shape),
        shape.pos_dim == weights.linear_pos.input_dim,
        shape.pos_output_dim == weights.linear_pos.output_dim,
        p.device.holds_attention(p.graph, s, weights, cache, shape.attention(), valid),
        q.device.holds_attention(q.graph, t, weights, cache, shape.attention(), valid),
    ensures
        same_attention(p, s, q, t),
{
    let sizes = shape.attention();
    let left = shape.left_context_len as int;
    let frames = shape.frames as int;
    lemma_linear(
        p,
        s.in_proj_weight,
        s.in_proj_bias,
        q,
        t.in_proj_weight,
        t.in_proj_bias,
        weights.in_proj,
    );
    lemma_rows(
        p,
        s.linear_pos_weight,
        q,
        t.linear_pos_weight,
        weights.linear_pos.values@,
        shape.pos_dim as int,
        shape.pos_output_dim as int,
    );
    lemma_rows(
        p,
        s.pos_embedding,
        q,
        t.pos_embedding,
        position_table(p.device.host, frames, left, shape.pos_dim as int),
        shape.pos_dim as int,
        sizes.rel_len(),
    );
    lemma_rows(
        p,
        s.mask,
        q,
        t.mask,
        attention_mask(left, frames, valid),
        sizes.k_len(),
        frames,
    );
    lemma_rows(p, s.cache, q, t.cache, cache, sizes.query_dim(), left);
}

/// The tensors of an attention block.
struct BlockTensors {
    cache: GgmlCpuTensor,
    in_weight: GgmlCpuTensor,
    in_bias: GgmlCpuTensor,
    out_weight: GgmlCpuTensor,
    out_bias: GgmlCpuTensor,
}

impl BlockTensors {
    spec fn values(self, p: OnDevice) -> AttentionBlockValues {
        AttentionBlockValues {
            cache: p.graph.value(self.cache),
            in_weight: p.graph.value(self.in_weight),
            in_bias: p.graph.value(self.in_bias),
            out_weight: p.graph.value(self.out_weight),
            out_bias: p.graph.value(self.out_bias),
        }
    }

    /// The tensors are leaves, and hold the block.
    spec fn held(
        self,
        p: OnDevice,
        in_proj: XasrLinearWithBias,
        out_proj: XasrLinearWithBias,
        cache: Seq<u32>,
        value_dim: int,
        left: int,
    ) -> bool {
        &&& block_leaves(
            p.graph,
            self.cache,
            self.in_weight,
            self.in_bias,
            self.out_weight,
            self.out_bias,
            in_proj,
            out_proj,
            value_dim,
            left,
        )
        &&& p.device.holds_block(self.values(p), in_proj, out_proj, cache, value_dim, left)
    }
}

proof fn lemma_block_held(
    p: OnDevice,
    s: BlockTensors,
    q: OnDevice,
    t: BlockTensors,
    in_proj: XasrLinearWithBias,
    out_proj: XasrLinearWithBias,
    cache: Seq<u32>,
    value_dim: int,
    left: int,
)
    requires
        comparable(p, q),
        s.held(p, in_proj, out_proj, cache, value_dim, left),
        t.held(q, in_proj, out_proj, cache, value_dim, left),
    ensures
        same_block(p, s.values(p), q, t.values(q)),
{
    lemma_linear(p, s.in_weight, s.in_bias, q, t.in_weight, t.in_bias, in_proj);
    lemma_linear(p, s.out_weight, s.out_bias, q, t.out_weight, t.out_bias, out_proj);
    lemma_rows(p, s.cache, q, t.cache, cache, value_dim, left);
}

proof fn lemma_kernel_held(
    p: OnDevice,
    kernel: GgmlCpuTensor,
    bias: GgmlCpuTensor,
    q: OnDevice,
    other_kernel: GgmlCpuTensor,
    other_bias: GgmlCpuTensor,
    weights: XasrConv1dWeights,
    channels: int,
)
    requires
        comparable(p, q),
        is_leaf(p.graph, kernel, weights.weight.dims@[0] as int, 1, channels),
        is_leaf(q.graph, other_kernel, weights.weight.dims@[0] as int, 1, channels),
        is_leaf(p.graph, bias, channels, 1, 1),
        is_leaf(q.graph, other_bias, channels, 1, 1),
        p.device.holds_kernel(p.graph.value(kernel), p.graph.value(bias), weights, channels),
        q.device.holds_kernel(
            q.graph.value(other_kernel),
            q.graph.value(other_bias),
            weights,
            channels,
        ),
    ensures
        p.same(p.graph.value(kernel), q, q.graph.value(other_kernel)),
        p.same(p.graph.value(bias), q, q.graph.value(other_bias)),
{
    lemma_same_channels(
        p.device,
        p.graph,
        kernel,
        q.device,
        q.graph,
        other_kernel,
        weights.weight.values@,
        weights.weight.dims@[0] as int,
        channels,
    );
    lemma_list(p, bias, q, other_bias, weights.bias@);
}

proof fn lemma_module_held(
    p: OnDevice,
    s: XasrConvolutionModuleGraphTensors,
    q: OnDevice,
    t: XasrConvolutionModuleGraphTensors,
    weights: XasrConvolutionModuleWeights,
    cache: Seq<u32>,
    shape: XasrConvolutionModuleGraphShape,
)
    requires
        comparable(p, q),
        module_leaves(p.graph, s, weights, shape),
        module_leaves(q.graph, t, weights, shape),
        p.device.holds_module(p.graph, s, weights, cache, shape),
        q.device.holds_module(q.graph, t, weights, cache, shape),
    ensures
        same_module(p, s, q, t),
{
    let dim = shape.dim as int;
    lemma_linear(
        p,
        s.in_proj_weight,
        s.in_proj_bias,
        q,
        t.in_proj_weight,
        t.in_proj_bias,
        weights.in_proj,
    );
    lemma_linear(
        p,
        s.out_proj_weight,
        s.out_proj_bias,
        q,
        t.out_proj_weight,
        t.out_proj_bias,
        weights.out_proj,
    );
    lemma_kernel_held(
        p,
        s.causal_kernel,
        s.causal_bias,
        q,
        t.causal_kernel,
        t.causal_bias,
        weights.depthwise_causal_conv,
        dim,
    );
    lemma_kernel_held(
        p,
        s.chunk_kernel,
        s.chunk_bias,
        q,
        t.chunk_kernel,
        t.chunk_bias,
        weights.depthwise_chunkwise_conv,
        dim,
    );
    lemma_rows(
        p,
        s.chunk_scale,
        q,
        t.chunk_scale,
        scale_table(p.device.host, weights, dim, shape.frames as int),
        shape.frames as int,
        dim,
    );
    lemma_rows(p, s.cache, q, t.cache, cache, shape.cache_len as int, dim);
    lemma_list(p, s.swoosh_r_offset, q, t.swoosh_r_offset, seq![SWOOSH_R_OFFSET]);
    lemma_list(p, s.swoosh_r_shift, q, t.swoosh_r_shift, seq![SWOOSH_R_SHIFT]);
}

/// The tensors are leaves, and hold the layer and its caches.
spec fn layer_held(
    p: OnDevice,
    s: XasrZipformerLayerGraphTensors,
    layer: XasrEncoderLayerWeights,
    kept: KeptCaches,
    shape: XasrZipformerLayerGraphShape,
    valid: int,
) -> bool {
    &&& head_leaves(p.graph, s, layer, shape)
    &&& tail_leaves(p.graph, s, layer, shape)
    &&& p.device.holds_layer(p.graph, s, layer, kept, shape, valid)
}

#[verifier::spinoff_prover]
#[verifier::rlimit(40)]
proof fn lemma_layer_held(
    p: OnDevice,
    s: XasrZipformerLayerGraphTensors,
    q: OnDevice,
    t: XasrZipformerLayerGraphTensors,
    layer: XasrEncoderLayerWeights,
    kept: KeptCaches,
    shape: XasrZipformerLayerGraphShape,
    valid: int,
)
    requires
        comparable(p, q),
        layer_complete(layer, shape),
        layer_held(p, s, layer, kept, shape, valid),
        layer_held(q, t, layer, kept, shape, valid),
    ensures
        same_layer(p, s, q, t),
{
    let sizes = shape.layer_head;
    let left = sizes.left_context_len as int;
    let a = s.layer_head;
    let b = t.layer_head;
    lemma_feed_forward_held(p, a.feed_forward1, q, b.feed_forward1, layer.feed_forward1);
    lemma_attention_held(
        p,
        a.attention_weights,
        q,
        b.attention_weights,
        layer.self_attn_weights,
        kept.key,
        sizes,
        valid,
    );
    lemma_block_held(
        p,
        BlockTensors {
            cache: a.nonlin_cache,
            in_weight: a.nonlin_in_proj_weight,
            in_bias: a.nonlin_in_proj_bias,
            out_weight: a.nonlin_out_proj_weight,
            out_bias: a.nonlin_out_proj_bias,
        },
        q,
        BlockTensors {
            cache: b.nonlin_cache,
            in_weight: b.nonlin_in_proj_weight,
            in_bias: b.nonlin_in_proj_bias,
            out_weight: b.nonlin_out_proj_weight,
            out_bias: b.nonlin_out_proj_bias,
        },
        layer.nonlin_attention.in_proj,
        layer.nonlin_attention.out_proj,
        kept.nonlin_attention,
        sizes.nonlin_hidden_dim as int,
        left,
    );
    lemma_block_held(
        p,
        BlockTensors {
            cache: a.self1_cache,
            in_weight: a.self1_in_proj_weight,
            in_bias: a.self1_in_proj_bias,
            out_weight: a.self1_out_proj_weight,
            out_bias: a.self1_out_proj_bias,
        },
        q,
        BlockTensors {
            cache: b.self1_cache,
            in_weight: b.self1_in_proj_weight,
            in_bias: b.self1_in_proj_bias,
            out_weight: b.self1_out_proj_weight,
            out_bias: b.self1_out_proj_bias,
        },
        layer.self_attn1.in_proj,
        layer.self_attn1.out_proj,
        kept.val1,
        sizes.self1_value_dim as int,
        left,
    );
    lemma_module_held(
        p,
        a.conv_module1,
        q,
        b.conv_module1,
        layer.conv_module1,
        kept.conv1,
        sizes.conv(),
    );
    lemma_feed_forward_held(p, a.feed_forward2, q, b.feed_forward2, layer.feed_forward2);
    lemma_list(p, a.bypass_mid_scale, q, b.bypass_mid_scale, layer.bypass_mid_scale@);
    lemma_block_held(
        p,
        BlockTensors {
            cache: s.self2_cache,
            in_weight: s.self2_in_proj_weight,
            in_bias: s.self2_in_proj_bias,
            out_weight: s.self2_out_proj_weight,
            out_bias: s.self2_out_proj_bias,
        },
        q,
        BlockTensors {
            cache: t.self2_cache,
            in_weight: t.self2_in_proj_weight,
            in_bias: t.self2_in_proj_bias,
            out_weight: t.self2_out_proj_weight,
            out_bias: t.self2_out_proj_bias,
        },
        layer.self_attn2.in_proj,
        layer.self_attn2.out_proj,
        kept.val2,
        shape.self2_value_dim as int,
        left,
    );
    lemma_module_held(
        p,
        s.layer_tail.conv_module2,
        q,
        t.layer_tail.conv_module2,
        layer.conv_module2,
        kept.conv2,
        shape.layer_tail.conv(),
    );
    lemma_feed_forward_held(
        p,
        s.layer_tail.feed_forward3,
        q,
        t.layer_tail.feed_forward3,
        layer.feed_forward3,
    );
    lemma_list(p, s.layer_tail.norm_bias, q, t.layer_tail.norm_bias, layer.norm_bias@);
    lemma_list(p, s.layer_tail.bypass_scale, q, t.layer_tail.bypass_scale, layer.bypass_scale@);
}

/// The padding of two downsamplings that was uploaded is alike.
proof fn lemma_padding_held(
    p: OnDevice,
    s: XasrDownsampleGraphBinding,
    q: OnDevice,
    t: XasrDownsampleGraphBinding,
)
    requires
        comparable(p, q),
        s.shape == t.shape,
        s.shape.padded_frames() <= usize::MAX,
        downsample_bound(p.graph, s, s.shape),
        downsample_bound(q.graph, t, t.shape),
        p.device.holds_padding(p.graph, s.tensors, s.shape),
        q.device.holds_padding(q.graph, t.tensors, t.shape),
    ensures
        same_padding(p, s.tensors, q, t.tensors, s.shape),
{
    let shape = s.shape;
    let wider = shape.target_dim - shape.input_dim;
    let longer = shape.padded_frames() - shape.frames;
    lemma_padded_frames_cover(shape);
    if wider > 0 {
        let x = s.tensors.channel_pad->0;
        let y = t.tensors.channel_pad->0;
        p.graph.lemma_leaf_value(x.id as int);
        q.graph.lemma_leaf_value(y.id as int);
        lemma_rows(
            p,
            x,
            q,
            y,
            zero_seq((shape.frames * wider) as nat),
            wider,
            shape.frames as int,
        );
    }
    if longer > 0 {
        let x = s.tensors.frame_pad->0;
        let y = t.tensors.frame_pad->0;
        p.graph.lemma_leaf_value(x.id as int);
        q.graph.lemma_leaf_value(y.id as int);
        lemma_rows(
            p,
            x,
            q,
            y,
            zero_seq((longer * shape.target_dim) as nat),
            shape.target_dim as int,
            longer,
        );
    }
}

/// Entry `i` of two plans is the same layer.
spec fn same_entry(p: OnDevice, a: PlanParts, q: OnDevice, b: PlanParts, i: int) -> bool {
    &&& same_layer(p, a.layers[i].binding.tensors, q, b.layers[i].binding.tensors)
    &&& a.layers[i].binding.shape == b.layers[i].binding.shape
}

/// Stack `s` of two plans is the same stack.
spec fn same_stack(
    task: PlanTask,
    p: OnDevice,
    a: PlanParts,
    q: OnDevice,
    b: PlanParts,
    s: int,
) -> bool {
    &&& forall|i: int|
        task.layer_start(s) <= i < task.layer_start(s + 1) ==> #[trigger] same_entry(p, a, q, b, i)
    &&& s > 0 ==> {
        &&& same_padding(
            p,
            a.downsamples[s - 1].tensors,
            q,
            b.downsamples[s - 1].tensors,
            task.downsample_shape(s),
        )
        &&& a.downsamples[s - 1].weights@ == b.downsamples[s - 1].weights@
        &&& p.same(
            p.graph.value(a.combiners[s - 1].scale),
            q,
            q.graph.value(b.combiners[s - 1].scale),
        )
    }
}

proof fn lemma_layers(
    p: OnDevice,
    a: PlanParts,
    x: TensorValue,
    q: OnDevice,
    b: PlanParts,
    y: TensorValue,
    from: int,
    to: int,
)
    requires
        p.same(x, q, y),
        forall|i: int| from <= i < to ==> #[trigger] same_entry(p, a, q, b, i),
    ensures
        p.same(
            layers_value(p.graph, x, a.layers, from, to),
            q,
            layers_value(q.graph, y, b.layers, from, to),
        ),
    decreases to - from,
{
    if from < to {
        lemma_layers(p, a, x, q, b, y, from, to - 1);
        assert(same_entry(p, a, q, b, to - 1));
        law_same_layers_give_the_same(
            p,
            a.layers[to - 1].binding.tensors,
            layers_value(p.graph, x, a.layers, from, to - 1),
            q,
            b.layers[to - 1].binding.tensors,
            layers_value(q.graph, y, b.layers, from, to - 1),
            a.layers[to - 1].binding.shape,
        );
    }
}

proof fn lemma_branch(
    task: PlanTask,
    p: OnDevice,
    a: PlanParts,
    x: TensorValue,
    q: OnDevice,
    b: PlanParts,
    y: TensorValue,
    s: int,
)
    requires
        same_stack(task, p, a, q, b, s),
        p.same(x, q, y),
        0 <= s,
    ensures
        p.same(task.branch_input(p.graph, a, s, x), q, task.branch_input(q.graph, b, s, y)),
        s > 0 ==> p.same(
            task.downsample_shape(s).padded_value(p.graph, x, a.downsamples[s - 1].tensors),
            q,
            task.downsample_shape(s).padded_value(q.graph, y, b.downsamples[s - 1].tensors),
        ),
{
    if s > 0 {
        lemma_same_downsampling(
            p,
            a.downsamples[s - 1].tensors,
            x,
            q,
            b.downsamples[s - 1].tensors,
            y,
            task.downsample_shape(s),
            a.downsamples[s - 1].weights@,
        );
    }
}

proof fn lemma_trunk(
    task: PlanTask,
    p: OnDevice,
    a: PlanParts,
    x: TensorValue,
    q: OnDevice,
    b: PlanParts,
    y: TensorValue,
    count: int,
)
    requires
        forall|s: int| 0 <= s < count ==> #[trigger] same_stack(task, p, a, q, b, s),
        p.same(x, q, y),
        0 <= count,
    ensures
        p.same(
            task.trunk_value(p.graph, a, x, count),
            q,
            task.trunk_value(q.graph, b, y, count),
        ),
    decreases count,
{
    if count > 0 {
        broadcast use group_alike;

        let s = count - 1;
        lemma_trunk(task, p, a, x, q, b, y, s);
        assert(same_stack(task, p, a, q, b, s));
        let before = task.trunk_value(p.graph, a, x, s);
        let other = task.trunk_value(q.graph, b, y, s);
        lemma_branch(task, p, a, before, q, b, other, s);
        let from = task.layer_start(s);
        let to = task.layer_start(s + 1);
        let input = task.branch_input(p.graph, a, s, before);
        let other_input = task.branch_input(q.graph, b, s, other);
        lemma_layers(p, a, input, q, b, other_input, from, to);
        if s > 0 {
            lemma_same_upsampling(
                p,
                layers_value(p.graph, input, a.layers, from, to),
                q,
                layers_value(q.graph, other_input, b.layers, from, to),
                task.stack(s).dim as int,
                task.stack(s).downsampling_factor as int,
                task.trunk_frames(s + 1),
            );
        }
        assert(p.same(
            task.stack_value(p.graph, a, s, before),
            q,
            task.stack_value(q.graph, b, s, other),
        ));
    }
}

impl KeptRun {
    /// The graph on its device.
    pub open spec fn placed(self) -> OnDevice {
        OnDevice { device: self.device, graph: self.fresh.graph }
    }
}

/// Two devices with the same operations, each with a graph of the encoder for chunks of one
/// shape, were given the same chunk last.
pub open spec fn runs_alike(
    first: KeptRun,
    second: KeptRun,
    metadata: XasrZipformerExecutionMetadata,
    weights: XasrEncoderWeights,
) -> bool {
    &&& first.ran(metadata, weights)
    &&& second.ran(metadata, weights)
    &&& comparable(first.placed(), second.placed())
    &&& second.fresh.fits_chunk(
        first.fresh.frames,
        first.fresh.dim,
        first.fresh.valid_left_context,
    )
    &&& first.chunks.last() == second.chunks.last()
    &&& first.fresh.task(metadata, weights).takes_caches(first.chunks.last().caches)
}

/// What a run left in the leaves of entry `i`.
proof fn lemma_run_layer(
    run: KeptRun,
    metadata: XasrZipformerExecutionMetadata,
    weights: XasrEncoderWeights,
    s: int,
    k: int,
)
    requires
        run.ran(metadata, weights),
        run.fresh.task(metadata, weights).takes_caches(run.chunks.last().caches),
        0 <= s < run.fresh.task(metadata, weights).stack_count(),
        0 <= k < run.fresh.task(metadata, weights).stack(s).layers@.len(),
    ensures
        ({
            let task = run.fresh.task(metadata, weights);
            let entry = run.fresh.plan.parts@.layers[task.layer_start(s) + k];
            &&& entry.binding.shape == task.shape_of(s, k)
            &&& layer_complete(task.stack(s).layers@[k], task.shape_of(s, k))
            &&& layer_held(
                run.placed(),
                entry.binding.tensors,
                task.stack(s).layers@[k],
                task.kept(run.chunks.last().caches, s, k),
                task.shape_of(s, k),
                task.site(s).valid_left_context as int,
            )
        }),
{
    let task = run.fresh.task(metadata, weights);
    let graph = run.fresh.graph;
    let plan = run.fresh.plan;
    let x = input_value(run.fresh.input, task.frames, task.dim);
    let i = task.layer_start(s) + k;
    let caches = run.chunks.last().caches;
    let filled = graph.pending().push(
        floats(run.fresh.input, run.chunks.last().rows, "xasr_full_input"@),
    );
    lemma_last_chunk_is_uploaded(run, metadata, weights);
    lemma_uploaded_stacks(run.device, graph, task, plan, x, filled, caches);
    assert(task.layer_start(s + 1) == task.layer_start(s) + task.stack(s).layers@.len());
    lemma_entries_ready(graph, task, plan, x, s, i);
    lemma_bound_layer_leaves(graph, plan.parts@.layers[i].binding, task.stack(s).layers@[k]);
    assert(run.device.holds_stack(task, graph, plan.parts@, caches, s));
    assert(run.device.holds_stack_layer(task, graph, plan.parts@, caches, s, i));
    reveal(Device::holds_stack_layer);
}

/// What a run left in the input.
proof fn lemma_run_input(
    run: KeptRun,
    metadata: XasrZipformerExecutionMetadata,
    weights: XasrEncoderWeights,
)
    requires
        run.ran(metadata, weights),
        run.fresh.task(metadata, weights).takes_caches(run.chunks.last().caches),
    ensures
        run.device.holds(
            run.fresh.graph.value(run.fresh.input),
            run.chunks.last().rows,
            run.fresh.dim as int,
            run.fresh.frames as int,
        ),
        is_leaf(
            run.fresh.graph,
            run.fresh.input,
            run.fresh.dim as int,
            run.fresh.frames as int,
            1,
        ),
{
    let task = run.fresh.task(metadata, weights);
    let graph = run.fresh.graph;
    let rows = run.chunks.last().rows;
    let x = input_value(run.fresh.input, task.frames, task.dim);
    let filled = graph.pending().push(floats(run.fresh.input, rows, "xasr_full_input"@));
    lemma_last_chunk_is_uploaded(run, metadata, weights);
    lemma_uploaded_stacks(
        run.device,
        graph,
        task,
        run.fresh.plan,
        x,
        filled,
        run.chunks.last().caches,
    );
    lemma_uploaded_rows(
        run.device,
        graph,
        graph.pending(),
        run.fresh.input,
        rows,
        "xasr_full_input"@,
        task.dim as int,
        task.frames as int,
    );
}

/// What a run left in the leaves of a stack besides its layers.
proof fn lemma_run_joints(
    run: KeptRun,
    metadata: XasrZipformerExecutionMetadata,
    weights: XasrEncoderWeights,
    s: int,
)
    requires
        run.ran(metadata, weights),
        run.fresh.task(metadata, weights).takes_caches(run.chunks.last().caches),
        0 < s < run.fresh.task(metadata, weights).stack_count(),
    ensures
        ({
            let task = run.fresh.task(metadata, weights);
            let parts = run.fresh.plan.parts@;
            let binding = parts.downsamples[s - 1];
            let scale = (task.stack(s).out_combiner_bypass_scale->0)@;
            &&& downsample_bound(run.fresh.graph, binding, task.downsample_shape(s))
            &&& task.downsample_shape(s).padded_frames() <= usize::MAX
            &&& run.device.holds_joints(task, run.fresh.graph, parts, s)
            &&& is_leaf(run.fresh.graph, parts.combiners[s - 1].scale, scale.len() as int, 1, 1)
        }),
{
    let task = run.fresh.task(metadata, weights);
    let graph = run.fresh.graph;
    let parts = run.fresh.plan.parts@;
    let caches = run.chunks.last().caches;
    let x = input_value(run.fresh.input, task.frames, task.dim);
    let filled = graph.pending().push(
        floats(run.fresh.input, run.chunks.last().rows, "xasr_full_input"@),
    );
    lemma_last_chunk_is_uploaded(run, metadata, weights);
    lemma_uploaded_stacks(run.device, graph, task, run.fresh.plan, x, filled, caches);
    assert(run.device.holds_stack(task, graph, parts, caches, s));
    assert(task.stack_built(graph, parts, x, s));
    assert(task.trunk_frames(s) <= usize::MAX);
    assert(task.trunk_frames(s + 1) <= usize::MAX);
    assert(task.stack(s).out_combiner_bypass_scale is Some);
}

/// What a run left in the leaves of the last downsampling.
proof fn lemma_run_output(
    run: KeptRun,
    metadata: XasrZipformerExecutionMetadata,
    weights: XasrEncoderWeights,
)
    requires
        run.ran(metadata, weights),
        run.fresh.task(metadata, weights).takes_caches(run.chunks.last().caches),
    ensures
        ({
            let task = run.fresh.task(metadata, weights);
            let binding = run.fresh.plan.parts@.downsamples[task.stack_count() - 1];
            &&& downsample_bound(run.fresh.graph, binding, task.output_shape())
            &&& task.output_shape().padded_frames() <= usize::MAX
            &&& run.device.holds_padding(run.fresh.graph, binding.tensors, task.output_shape())
        }),
{
    let task = run.fresh.task(metadata, weights);
    let graph = run.fresh.graph;
    let x = input_value(run.fresh.input, task.frames, task.dim);
    let filled = graph.pending().push(
        floats(run.fresh.input, run.chunks.last().rows, "xasr_full_input"@),
    );
    lemma_last_chunk_is_uploaded(run, metadata, weights);
    lemma_uploaded_stacks(
        run.device,
        graph,
        task,
        run.fresh.plan,
        x,
        filled,
        run.chunks.last().caches,
    );
}

/// The stacks that two runs left in their leaves are alike.
#[verifier::spinoff_prover]
#[verifier::rlimit(40)]
proof fn lemma_run_stack(
    first: KeptRun,
    second: KeptRun,
    metadata: XasrZipformerExecutionMetadata,
    weights: XasrEncoderWeights,
    s: int,
)
    requires
        runs_alike(first, second, metadata, weights),
        0 <= s < first.fresh.task(metadata, weights).stack_count(),
    ensures
        same_stack(
            first.fresh.task(metadata, weights),
            first.placed(),
            first.fresh.plan.parts@,
            second.placed(),
            second.fresh.plan.parts@,
            s,
        ),
{
    let task = first.fresh.task(metadata, weights);
    let p = first.placed();
    let q = second.placed();
    let a = first.fresh.plan.parts@;
    let b = second.fresh.plan.parts@;
    let caches = first.chunks.last().caches;
    assert(task.layer_start(s + 1) == task.layer_start(s) + task.stack(s).layers@.len());
    assert forall|i: int|
        task.layer_start(s) <= i < task.layer_start(s + 1) implies #[trigger] same_entry(
        p,
        a,
        q,
        b,
        i,
    ) by {
        let k = i - task.layer_start(s);
        lemma_run_layer(first, metadata, weights, s, k);
        lemma_run_layer(second, metadata, weights, s, k);
        lemma_layer_held(
            p,
            a.layers[i].binding.tensors,
            q,
            b.layers[i].binding.tensors,
            task.stack(s).layers@[k],
            task.kept(caches, s, k),
            task.shape_of(s, k),
            task.site(s).valid_left_context as int,
        );
    }
    if s > 0 {
        lemma_run_joints(first, metadata, weights, s);
        lemma_run_joints(second, metadata, weights, s);
        lemma_padding_held(p, a.downsamples[s - 1], q, b.downsamples[s - 1]);
        lemma_list(
            p,
            a.combiners[s - 1].scale,
            q,
            b.combiners[s - 1].scale,
            (task.stack(s).out_combiner_bypass_scale->0)@,
        );
    }
}

/// Equal chunks give equal results, whatever chunks came before them, and also where the
/// graph was built anew between them, as it is when chunks of another shape come: the
/// output, and what every layer keeps for the next chunk.
pub proof fn law_equal_chunks_give_equal_results(
    first: KeptRun,
    second: KeptRun,
    metadata: XasrZipformerExecutionMetadata,
    weights: XasrEncoderWeights,
)
    requires
        runs_alike(first, second, metadata, weights),
    ensures
        first.placed().same(
            first.fresh.graph.value(first.fresh.plan.output.rows),
            second.placed(),
            second.fresh.graph.value(second.fresh.plan.output.rows),
        ),
        first.fresh.plan.parts@.layers.len() == second.fresh.plan.parts@.layers.len(),
        forall|i: int|
            0 <= i < first.fresh.plan.parts@.layers.len() ==> same_values(
                first.placed(),
                output_values(
                    first.fresh.graph,
                    (#[trigger] first.fresh.plan.parts@.layers[i]).output,
                ),
                second.placed(),
                output_values(second.fresh.graph, second.fresh.plan.parts@.layers[i].output),
            ),
{
    let task = first.fresh.task(metadata, weights);
    assert(second.fresh.task(metadata, weights) == task);
    let n = task.stack_count();
    let p = first.placed();
    let q = second.placed();
    let a = first.fresh.plan.parts@;
    let b = second.fresh.plan.parts@;
    let x = input_value(first.fresh.input, task.frames, task.dim);
    let y = input_value(second.fresh.input, task.frames, task.dim);
    lemma_run_input(first, metadata, weights);
    lemma_run_input(second, metadata, weights);
    lemma_rows(
        p,
        first.fresh.input,
        q,
        second.fresh.input,
        first.chunks.last().rows,
        task.dim as int,
        task.frames as int,
    );
    assert forall|s: int| 0 <= s < n implies #[trigger] same_stack(task, p, a, q, b, s) by {
        lemma_run_stack(first, second, metadata, weights, s);
    }
    lemma_run_output(first, metadata, weights);
    lemma_run_output(second, metadata, weights);
    lemma_padding_held(p, a.downsamples[n - 1], q, b.downsamples[n - 1]);
    assert(p.same(task.final_trunk(p.graph, a, x), q, task.final_trunk(q.graph, b, y))) by {
        broadcast use group_alike;

        lemma_trunk(task, p, a, x, q, b, y, n);
        if task.widened() {
            assert(n > 4);
            lemma_trunk(task, p, a, x, q, b, y, 4);
            lemma_trunk(task, p, a, x, q, b, y, 5);
        }
    }
    lemma_same_downsampling(
        p,
        a.downsamples[n - 1].tensors,
        task.final_trunk(p.graph, a, x),
        q,
        b.downsamples[n - 1].tensors,
        task.final_trunk(q.graph, b, y),
        task.output_shape(),
        a.downsamples[n - 1].weights@,
    );
    assert forall|i: int| 0 <= i < a.layers.len() implies same_values(
        p,
        output_values(p.graph, (#[trigger] a.layers[i]).output),
        q,
        output_values(q.graph, b.layers[i].output),
    ) by {
        let s = lemma_owner(task, n, i);
        lemma_trunk(task, p, a, x, q, b, y, s);
        assert(same_stack(task, p, a, q, b, s));
        let before = task.trunk_value(p.graph, a, x, s);
        let other = task.trunk_value(q.graph, b, y, s);
        lemma_branch(task, p, a, before, q, b, other, s);
        let from = task.layer_start(s);
        let input = task.branch_input(p.graph, a, s, before);
        let other_input = task.branch_input(q.graph, b, s, other);
        lemma_layers(p, a, input, q, b, other_input, from, i);
        assert(same_entry(p, a, q, b, i));
        law_same_layers_give_the_same(
            p,
            a.layers[i].binding.tensors,
            layers_value(p.graph, input, a.layers, from, i),
            q,
            b.layers[i].binding.tensors,
            layers_value(q.graph, other_input, b.layers, from, i),
            a.layers[i].binding.shape,
        );
        assert(task.stack_built(p.graph, a, x, s));
        assert(task.stack_built(q.graph, b, y, s));
        assert(layer_built(p.graph, input, task.stack(s), task.site(s), a.layers, from, i));
        assert(layer_built(q.graph, other_input, task.stack(s), task.site(s), b.layers, from, i));
    }
}

} // verus!
