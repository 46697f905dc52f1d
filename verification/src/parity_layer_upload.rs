//! A device that has taken the uploads of a layer holds the layer.

use vstd::prelude::*;
use crate::attention_graph::XasrSelfAttentionWeightsGraphTensors;
use crate::encoder_binding::{
    attention_nodes, convolution_module_handles, convolution_module_nodes, feed_forward_handles,
    feed_forward_nodes, float_leaf, handle, layer_handles, layer_nodes, value_block_nodes,
    XasrZipformerLayerGraphBinding,
};
use crate::encoder_plan::layer_bound;
use crate::encoder_upload::{
    cache_contents, cache_lengths, convolution_uploads, feed_forward_uploads, floats,
    layer_head_uploads, layer_uploads, linear_uploads, attention_uploads, LayerCacheView,
};
use crate::encoder_weights::{
    XasrConvolutionModuleWeights, XasrEncoderLayerWeights, XasrLinearPairWeights,
    XasrLinearWithBias, XasrSelfAttentionWeightsWeights,
};
use crate::graph::{
    nodes_extend, EffectView, GgmlCpuGraphBuilder, GgmlCpuTensor, GraphNode,
};
use crate::layer_graph::XasrConvolutionModuleGraphShape;
use crate::parity::Device;
use crate::parity_layer::KeptCaches;
use crate::parity_upload::{
    attention_leaves, block_leaves, feed_forward_leaves, is_leaf, lemma_uploaded_attention,
    lemma_uploaded_block, lemma_uploaded_feed_forward, lemma_uploaded_list, lemma_uploaded_module,
    linear_complete, matrix_complete, module_complete, module_leaves,
};
use crate::tensor_value::Shape4;
use crate::zipformer_graph::{
    XasrLayerHeadGraphShape, XasrZipformerLayerGraphShape, XasrZipformerLayerGraphTensors,
};

verus! {

/// What the caches of a layer hold after their upload.
pub open spec fn kept_caches(
    shape: XasrZipformerLayerGraphShape,
    cache: LayerCacheView,
) -> KeptCaches {
    let lengths = cache_lengths(shape);
    KeptCaches {
        key: cache_contents(lengths.cached_key, cache.key),
        nonlin_attention: cache_contents(lengths.cached_nonlin_attention, cache.nonlin),
        val1: cache_contents(lengths.cached_val1, cache.val1),
        val2: cache_contents(lengths.cached_val2, cache.val2),
        conv1: cache_contents(lengths.cached_conv1, cache.conv1),
        conv2: cache_contents(lengths.cached_conv2, cache.conv2),
    }
}

/// The caches have the lengths that the dimensions ask for.
pub open spec fn caches_fit(shape: XasrZipformerLayerGraphShape, kept: KeptCaches) -> bool {
    let head = shape.layer_head;
    let left = head.left_context_len;
    &&& kept.key.len() == left * (head.num_heads * head.query_head_dim)
    &&& kept.nonlin_attention.len() == left * head.nonlin_hidden_dim
    &&& kept.val1.len() == left * head.self1_value_dim
    &&& kept.val2.len() == left * shape.self2_value_dim
    &&& kept.conv1.len() == head.dim * head.conv1_cache_len
    &&& kept.conv2.len() == shape.layer_tail.dim * shape.layer_tail.conv_cache_len
}

/// A pair of linear layers of floats, one feeding the other.
pub open spec fn pair_complete(pair: XasrLinearPairWeights) -> bool {
    &&& linear_complete(pair.in_proj)
    &&& linear_complete(pair.out_proj)
    &&& pair.out_proj.weight.input_dim == pair.in_proj.weight.output_dim
}

/// A layer of floats, with as many values as its dimensions say.
pub open spec fn layer_complete(
    layer: XasrEncoderLayerWeights,
    shape: XasrZipformerLayerGraphShape,
) -> bool {
    let head = shape.layer_head;
    let tail = shape.layer_tail;
    &&& pair_complete(layer.feed_forward1)
    &&& linear_complete(layer.self_attn_weights.in_proj)
    &&& matrix_complete(layer.self_attn_weights.linear_pos)
    &&& linear_complete(layer.nonlin_attention.in_proj)
    &&& linear_complete(layer.nonlin_attention.out_proj)
    &&& linear_complete(layer.self_attn1.in_proj)
    &&& linear_complete(layer.self_attn1.out_proj)
    &&& module_complete(layer.conv_module1, head.dim as int)
    &&& pair_complete(layer.feed_forward2)
    &&& layer.bypass_mid_scale@.len() == head.dim
    &&& linear_complete(layer.self_attn2.in_proj)
    &&& linear_complete(layer.self_attn2.out_proj)
    &&& module_complete(layer.conv_module2, tail.dim as int)
    &&& pair_complete(layer.feed_forward3)
    &&& layer.norm_bias@.len() == tail.dim
    &&& layer.bypass_scale@.len() == tail.dim
    &&& head.frames > 0
    &&& tail.frames > 0
    &&& head.pos_dim == layer.self_attn_weights.linear_pos.input_dim
    &&& head.pos_output_dim == layer.self_attn_weights.linear_pos.output_dim
}

/// The tensors are leaves for the first half of a layer.
pub open spec fn head_leaves(
    graph: GgmlCpuGraphBuilder,
    tensors: XasrZipformerLayerGraphTensors,
    layer: XasrEncoderLayerWeights,
    shape: XasrZipformerLayerGraphShape,
) -> bool {
    let head = tensors.layer_head;
    let sizes = shape.layer_head;
    &&& feed_forward_leaves(graph, head.feed_forward1, layer.feed_forward1)
    &&& attention_leaves(graph, head.attention_weights, layer.self_attn_weights, sizes)
    &&& block_leaves(
        graph,
        head.nonlin_cache,
        head.nonlin_in_proj_weight,
        head.nonlin_in_proj_bias,
        head.nonlin_out_proj_weight,
        head.nonlin_out_proj_bias,
        layer.nonlin_attention.in_proj,
        layer.nonlin_attention.out_proj,
        sizes.nonlin_hidden_dim as int,
        sizes.left_context_len as int,
    )
    &&& block_leaves(
        graph,
        head.self1_cache,
        head.self1_in_proj_weight,
        head.self1_in_proj_bias,
        head.self1_out_proj_weight,
        head.self1_out_proj_bias,
        layer.self_attn1.in_proj,
        layer.self_attn1.out_proj,
        sizes.self1_value_dim as int,
        sizes.left_context_len as int,
    )
    &&& module_leaves(graph, head.conv_module1, layer.conv_module1, sizes.conv())
    &&& feed_forward_leaves(graph, head.feed_forward2, layer.feed_forward2)
    &&& is_leaf(graph, head.bypass_mid_scale, sizes.dim as int, 1, 1)
}

/// The tensors are leaves for the second half of a layer.
pub open spec fn tail_leaves(
    graph: GgmlCpuGraphBuilder,
    tensors: XasrZipformerLayerGraphTensors,
    layer: XasrEncoderLayerWeights,
    shape: XasrZipformerLayerGraphShape,
) -> bool {
    let tail = tensors.layer_tail;
    &&& block_leaves(
        graph,
        tensors.self2_cache,
        tensors.self2_in_proj_weight,
        tensors.self2_in_proj_bias,
        tensors.self2_out_proj_weight,
        tensors.self2_out_proj_bias,
        layer.self_attn2.in_proj,
        layer.self_attn2.out_proj,
        shape.self2_value_dim as int,
        shape.layer_head.left_context_len as int,
    )
    &&& module_leaves(graph, tail.conv_module2, layer.conv_module2, shape.layer_tail.conv())
    &&& feed_forward_leaves(graph, tail.feed_forward3, layer.feed_forward3)
    &&& is_leaf(graph, tail.norm_bias, shape.layer_tail.dim as int, 1, 1)
    &&& is_leaf(graph, tail.bypass_scale, shape.layer_tail.dim as int, 1, 1)
}

/// The uploaded first half of a layer.
#[verifier::spinoff_prover]
#[verifier::rlimit(40)]
proof fn lemma_uploaded_head(
    device: Device,
    graph: GgmlCpuGraphBuilder,
    pending: Seq<EffectView>,
    binding: XasrZipformerLayerGraphBinding,
    layer: XasrEncoderLayerWeights,
    valid: usize,
    cache: LayerCacheView,
)
    requires
        device.carried_out(
            graph,
            layer_head_uploads(device.host, pending, binding, layer, valid, cache),
        ),
        head_leaves(graph, binding.tensors, layer, binding.shape),
        layer_complete(layer, binding.shape),
        caches_fit(binding.shape, kept_caches(binding.shape, cache)),
    ensures
        device.carried_out(graph, pending),
        device.holds_head(
            graph,
            binding.tensors.layer_head,
            layer,
            kept_caches(binding.shape, cache),
            binding.shape.layer_head,
            valid as int,
        ),
{
    reveal(layer_head_uploads);
    let m = device.host;
    let head = binding.tensors.layer_head;
    let shape = binding.shape.layer_head;
    let kept = kept_caches(binding.shape, cache);
    let with_feed_forward = feed_forward_uploads(pending, head.feed_forward1, layer.feed_forward1);
    let with_attention = attention_uploads(
        m,
        with_feed_forward,
        head.attention_weights,
        layer.self_attn_weights,
        shape,
        valid,
        cache.key,
    );
    let with_nonlin = linear_uploads(
        linear_uploads(
            with_attention.push(
                floats(head.nonlin_cache, kept.nonlin_attention, "xasr_stack0_nonlin_cache"@),
            ),
            head.nonlin_in_proj_weight,
            head.nonlin_in_proj_bias,
            layer.nonlin_attention.in_proj,
        ),
        head.nonlin_out_proj_weight,
        head.nonlin_out_proj_bias,
        layer.nonlin_attention.out_proj,
    );
    let with_self1 = linear_uploads(
        linear_uploads(
            with_nonlin.push(floats(head.self1_cache, kept.val1, "xasr_stack0_self1_cache"@)),
            head.self1_in_proj_weight,
            head.self1_in_proj_bias,
            layer.self_attn1.in_proj,
        ),
        head.self1_out_proj_weight,
        head.self1_out_proj_bias,
        layer.self_attn1.out_proj,
    );
    let with_conv1 = convolution_uploads(
        m,
        with_self1,
        head.conv_module1,
        layer.conv_module1,
        shape.dim,
        shape.frames,
        shape.conv1_cache_len,
        cache.conv1,
    );
    let with_fed = feed_forward_uploads(with_conv1, head.feed_forward2, layer.feed_forward2);
    lemma_uploaded_list(
        device,
        graph,
        with_fed,
        head.bypass_mid_scale,
        layer.bypass_mid_scale@,
        "xasr_stack0_bypass_mid_scale"@,
    );
    lemma_uploaded_feed_forward(
        device,
        graph,
        with_conv1,
        head.feed_forward2,
        layer.feed_forward2,
    );
    lemma_uploaded_module(
        device,
        graph,
        with_self1,
        head.conv_module1,
        layer.conv_module1,
        shape.conv(),
        cache.conv1,
        kept.conv1,
    );
    lemma_uploaded_block(
        device,
        graph,
        with_nonlin,
        head.self1_cache,
        head.self1_in_proj_weight,
        head.self1_in_proj_bias,
        head.self1_out_proj_weight,
        head.self1_out_proj_bias,
        layer.self_attn1.in_proj,
        layer.self_attn1.out_proj,
        kept.val1,
        "xasr_stack0_self1_cache"@,
        shape.self1_value_dim as int,
        shape.left_context_len as int,
    );
    lemma_uploaded_block(
        device,
        graph,
        with_attention,
        head.nonlin_cache,
        head.nonlin_in_proj_weight,
        head.nonlin_in_proj_bias,
        head.nonlin_out_proj_weight,
        head.nonlin_out_proj_bias,
        layer.nonlin_attention.in_proj,
        layer.nonlin_attention.out_proj,
        kept.nonlin_attention,
        "xasr_stack0_nonlin_cache"@,
        shape.nonlin_hidden_dim as int,
        shape.left_context_len as int,
    );
    lemma_uploaded_attention(
        device,
        graph,
        with_feed_forward,
        head.attention_weights,
        layer.self_attn_weights,
        shape,
        valid,
        cache.key,
        kept.key,
    );
    lemma_uploaded_feed_forward(device, graph, pending, head.feed_forward1, layer.feed_forward1);
}

/// A device that has taken the uploads of a layer holds the layer and its caches.
#[verifier::spinoff_prover]
#[verifier::rlimit(40)]
pub proof fn law_uploaded_layer_is_held(
    device: Device,
    graph: GgmlCpuGraphBuilder,
    pending: Seq<EffectView>,
    binding: XasrZipformerLayerGraphBinding,
    layer: XasrEncoderLayerWeights,
    valid: usize,
    cache: LayerCacheView,
)
    requires
        device.carried_out(
            graph,
            layer_uploads(device.host, pending, binding, layer, valid, cache),
        ),
        head_leaves(graph, binding.tensors, layer, binding.shape),
        tail_leaves(graph, binding.tensors, layer, binding.shape),
        layer_complete(layer, binding.shape),
        caches_fit(binding.shape, kept_caches(binding.shape, cache)),
    ensures
        device.carried_out(graph, pending),
        device.holds_layer(
            graph,
            binding.tensors,
            layer,
            kept_caches(binding.shape, cache),
            binding.shape,
            valid as int,
        ),
{
    let m = device.host;
    let tensors = binding.tensors;
    let tail = tensors.layer_tail;
    let shape = binding.shape.layer_tail;
    let kept = kept_caches(binding.shape, cache);
    let with_head = layer_head_uploads(m, pending, binding, layer, valid, cache);
    let with_self2 = linear_uploads(
        linear_uploads(
            with_head.push(floats(tensors.self2_cache, kept.val2, "xasr_stack0_self2_cache"@)),
            tensors.self2_in_proj_weight,
            tensors.self2_in_proj_bias,
            layer.self_attn2.in_proj,
        ),
        tensors.self2_out_proj_weight,
        tensors.self2_out_proj_bias,
        layer.self_attn2.out_proj,
    );
    let with_conv2 = convolution_uploads(
        m,
        with_self2,
        tail.conv_module2,
        layer.conv_module2,
        shape.dim,
        shape.frames,
        shape.conv_cache_len,
        cache.conv2,
    );
    let with_fed = feed_forward_uploads(with_conv2, tail.feed_forward3, layer.feed_forward3);
    let with_norm = with_fed.push(
        floats(tail.norm_bias, layer.norm_bias@, "xasr_stack0_norm_bias"@),
    );
    lemma_uploaded_list(
        device,
        graph,
        with_norm,
        tail.bypass_scale,
        layer.bypass_scale@,
        "xasr_stack0_bypass_scale"@,
    );
    lemma_uploaded_list(
        device,
        graph,
        with_fed,
        tail.norm_bias,
        layer.norm_bias@,
        "xasr_stack0_norm_bias"@,
    );
    lemma_uploaded_feed_forward(
        device,
        graph,
        with_conv2,
        tail.feed_forward3,
        layer.feed_forward3,
    );
    lemma_uploaded_module(
        device,
        graph,
        with_self2,
        tail.conv_module2,
        layer.conv_module2,
        shape.conv(),
        cache.conv2,
        kept.conv2,
    );
    lemma_uploaded_block(
        device,
        graph,
        with_head,
        tensors.self2_cache,
        tensors.self2_in_proj_weight,
        tensors.self2_in_proj_bias,
        tensors.self2_out_proj_weight,
        tensors.self2_out_proj_bias,
        layer.self_attn2.in_proj,
        layer.self_attn2.out_proj,
        kept.val2,
        "xasr_stack0_self2_cache"@,
        binding.shape.self2_value_dim as int,
        binding.shape.layer_head.left_context_len as int,
    );
    lemma_uploaded_head(device, graph, pending, binding, layer, valid, cache);
}

/// A recorded leaf.
proof fn lemma_recorded_leaf(
    graph: GgmlCpuGraphBuilder,
    nodes: Seq<GraphNode>,
    tensor: GgmlCpuTensor,
    id: int,
    ne0: int,
    ne1: int,
    ne2: int,
)
    requires
        nodes_extend(nodes, graph.recorded()),
        0 <= id < nodes.len(),
        tensor.id == id,
        nodes[id] matches GraphNode::Leaf { shape, .. } && shape == (Shape4 {
            ne0: ne0 as usize,
            ne1: ne1 as usize,
            ne2: ne2 as usize,
            ne3: 1,
        }),
        0 <= ne0 <= usize::MAX,
        0 <= ne1 <= usize::MAX,
        0 <= ne2 <= usize::MAX,
    ensures
        is_leaf(graph, tensor, ne0, ne1, ne2),
{
    graph.lemma_leaf_value(id);
    assert(graph.recorded()[id] == nodes[id]);
}

/// Operations behind further operations.
proof fn lemma_extends(a: Seq<GraphNode>, b: Seq<GraphNode>, c: Seq<GraphNode>)
    requires
        nodes_extend(a, b),
        nodes_extend(b, c),
    ensures
        nodes_extend(a, c),
{
    assert forall|i: int| 0 <= i < a.len() implies #[trigger] c[i] == a[i] by {
        assert(b[i] == a[i]);
    }
}

/// A recorded feed-forward module.
proof fn lemma_feed_forward_leaves(
    graph: GgmlCpuGraphBuilder,
    nodes: Seq<GraphNode>,
    weights: XasrLinearPairWeights,
)
    requires
        nodes_extend(feed_forward_nodes(nodes, weights), graph.recorded()),
    ensures
        nodes_extend(nodes, graph.recorded()),
        feed_forward_leaves(graph, feed_forward_handles(nodes.len() as int), weights),
        feed_forward_nodes(nodes, weights).len() == nodes.len() + 6,
{
    let all = feed_forward_nodes(nodes, weights);
    let base = nodes.len() as int;
    let tensors = feed_forward_handles(base);
    graph.lemma_view_len();
    assert(nodes_extend(nodes, all));
    lemma_extends(nodes, all, graph.recorded());
    let first = weights.in_proj;
    let second = weights.out_proj;
    lemma_recorded_leaf(
        graph,
        all,
        tensors.in_proj_weight,
        base,
        first.weight.input_dim as int,
        first.weight.output_dim as int,
        1,
    );
    lemma_recorded_leaf(
        graph,
        all,
        tensors.in_proj_bias,
        base + 1,
        first.bias@.len() as int,
        1,
        1,
    );
    lemma_recorded_leaf(
        graph,
        all,
        tensors.out_proj_weight,
        base + 2,
        second.weight.input_dim as int,
        second.weight.output_dim as int,
        1,
    );
    lemma_recorded_leaf(
        graph,
        all,
        tensors.out_proj_bias,
        base + 3,
        second.bias@.len() as int,
        1,
        1,
    );
    lemma_recorded_leaf(graph, all, tensors.swoosh_l_offset, base + 4, 1, 1, 1);
    lemma_recorded_leaf(graph, all, tensors.swoosh_l_shift, base + 5, 1, 1, 1);
}

/// A recorded attention.
proof fn lemma_attention_leaves(
    graph: GgmlCpuGraphBuilder,
    nodes: Seq<GraphNode>,
    weights: XasrSelfAttentionWeightsWeights,
    shape: XasrLayerHeadGraphShape,
)
    requires
        nodes_extend(attention_nodes(nodes, weights, shape), graph.recorded()),
        shape.frames > 0,
        shape.num_heads * shape.query_head_dim <= usize::MAX,
        shape.left_context_len + shape.frames * 2 <= usize::MAX,
        shape.pos_dim == weights.linear_pos.input_dim,
    ensures
        nodes_extend(nodes, graph.recorded()),
        attention_leaves(
            graph,
            (XasrSelfAttentionWeightsGraphTensors {
                cache: handle(nodes.len() as int, 0),
                mask: handle(nodes.len() as int, 1),
                pos_embedding: handle(nodes.len() as int, 2),
                in_proj_weight: handle(nodes.len() as int, 3),
                in_proj_bias: handle(nodes.len() as int, 4),
                linear_pos_weight: handle(nodes.len() as int, 5),
            }),
            weights,
            shape,
        ),
        attention_nodes(nodes, weights, shape).len() == nodes.len() + 6,
{
    let all = attention_nodes(nodes, weights, shape);
    let base = nodes.len() as int;
    let left = shape.left_context_len as int;
    graph.lemma_view_len();
    assert(nodes_extend(nodes, all));
    lemma_extends(nodes, all, graph.recorded());
    assert(0 <= shape.num_heads * shape.query_head_dim) by (nonlinear_arith);
    lemma_recorded_leaf(
        graph,
        all,
        handle(base, 0),
        base,
        shape.num_heads * shape.query_head_dim,
        left,
        1,
    );
    lemma_recorded_leaf(
        graph,
        all,
        handle(base, 1),
        base + 1,
        left + shape.frames,
        shape.frames as int,
        1,
    );
    lemma_recorded_leaf(
        graph,
        all,
        handle(base, 2),
        base + 2,
        shape.pos_dim as int,
        left + shape.frames * 2 - 1,
        1,
    );
    lemma_recorded_leaf(
        graph,
        all,
        handle(base, 3),
        base + 3,
        weights.in_proj.weight.input_dim as int,
        weights.in_proj.weight.output_dim as int,
        1,
    );
    lemma_recorded_leaf(
        graph,
        all,
        handle(base, 4),
        base + 4,
        weights.in_proj.bias@.len() as int,
        1,
        1,
    );
    lemma_recorded_leaf(
        graph,
        all,
        handle(base, 5),
        base + 5,
        weights.linear_pos.input_dim as int,
        weights.linear_pos.output_dim as int,
        1,
    );
}

/// A recorded cache of values and two linear layers.
proof fn lemma_block_leaves(
    graph: GgmlCpuGraphBuilder,
    nodes: Seq<GraphNode>,
    value_dim: usize,
    left_context_len: usize,
    in_proj: XasrLinearWithBias,
    out_proj: XasrLinearWithBias,
    cache_name: &'static str,
    in_weight_name: &'static str,
    in_bias_name: &'static str,
    out_weight_name: &'static str,
    out_bias_name: &'static str,
)
    requires
        nodes_extend(
            value_block_nodes(
                nodes,
                value_dim,
                left_context_len,
                in_proj,
                out_proj,
                cache_name,
                in_weight_name,
                in_bias_name,
                out_weight_name,
                out_bias_name,
            ),
            graph.recorded(),
        ),
    ensures
        nodes_extend(nodes, graph.recorded()),
        block_leaves(
            graph,
            handle(nodes.len() as int, 0),
            handle(nodes.len() as int, 1),
            handle(nodes.len() as int, 2),
            handle(nodes.len() as int, 3),
            handle(nodes.len() as int, 4),
            in_proj,
            out_proj,
            value_dim as int,
            left_context_len as int,
        ),
        value_block_nodes(
            nodes,
            value_dim,
            left_context_len,
            in_proj,
            out_proj,
            cache_name,
            in_weight_name,
            in_bias_name,
            out_weight_name,
            out_bias_name,
        ).len() == nodes.len() + 5,
{
    let all = value_block_nodes(
        nodes,
        value_dim,
        left_context_len,
        in_proj,
        out_proj,
        cache_name,
        in_weight_name,
        in_bias_name,
        out_weight_name,
        out_bias_name,
    );
    let base = nodes.len() as int;
    graph.lemma_view_len();
    assert(nodes_extend(nodes, all));
    lemma_extends(nodes, all, graph.recorded());
    lemma_recorded_leaf(
        graph,
        all,
        handle(base, 0),
        base,
        value_dim as int,
        left_context_len as int,
        1,
    );
    lemma_recorded_leaf(
        graph,
        all,
        handle(base, 1),
        base + 1,
        in_proj.weight.input_dim as int,
        in_proj.weight.output_dim as int,
        1,
    );
    lemma_recorded_leaf(
        graph,
        all,
        handle(base, 2),
        base + 2,
        in_proj.bias@.len() as int,
        1,
        1,
    );
    lemma_recorded_leaf(
        graph,
        all,
        handle(base, 3),
        base + 3,
        out_proj.weight.input_dim as int,
        out_proj.weight.output_dim as int,
        1,
    );
    lemma_recorded_leaf(
        graph,
        all,
        handle(base, 4),
        base + 4,
        out_proj.bias@.len() as int,
        1,
        1,
    );
}

/// A recorded convolution module.
proof fn lemma_module_leaves(
    graph: GgmlCpuGraphBuilder,
    nodes: Seq<GraphNode>,
    weights: XasrConvolutionModuleWeights,
    shape: XasrConvolutionModuleGraphShape,
)
    requires
        nodes_extend(
            convolution_module_nodes(nodes, weights, shape.dim, shape.frames, shape.cache_len),
            graph.recorded(),
        ),
    ensures
        nodes_extend(nodes, graph.recorded()),
        module_leaves(graph, convolution_module_handles(nodes.len() as int), weights, shape),
        convolution_module_nodes(
            nodes,
            weights,
            shape.dim,
            shape.frames,
            shape.cache_len,
        ).len() == nodes.len() + 12,
{
    let all = convolution_module_nodes(
        nodes,
        weights,
        shape.dim,
        shape.frames,
        shape.cache_len,
    );
    let base = nodes.len() as int;
    let dim = shape.dim as int;
    graph.lemma_view_len();
    assert(nodes_extend(nodes, all));
    lemma_extends(nodes, all, graph.recorded());
    lemma_recorded_leaf(graph, all, handle(base, 0), base, shape.cache_len as int, dim, 1);
    lemma_recorded_leaf(
        graph,
        all,
        handle(base, 1),
        base + 1,
        weights.in_proj.weight.input_dim as int,
        weights.in_proj.weight.output_dim as int,
        1,
    );
    lemma_recorded_leaf(
        graph,
        all,
        handle(base, 2),
        base + 2,
        weights.in_proj.bias@.len() as int,
        1,
        1,
    );
    lemma_recorded_leaf(
        graph,
        all,
        handle(base, 3),
        base + 3,
        weights.depthwise_causal_conv.weight.dims@[0] as int,
        1,
        dim,
    );
    lemma_recorded_leaf(graph, all, handle(base, 4), base + 4, dim, 1, 1);
    lemma_recorded_leaf(
        graph,
        all,
        handle(base, 5),
        base + 5,
        weights.depthwise_chunkwise_conv.weight.dims@[0] as int,
        1,
        dim,
    );
    lemma_recorded_leaf(graph, all, handle(base, 6), base + 6, dim, 1, 1);
    lemma_recorded_leaf(graph, all, handle(base, 7), base + 7, shape.frames as int, dim, 1);
    lemma_recorded_leaf(
        graph,
        all,
        handle(base, 8),
        base + 8,
        weights.out_proj.weight.input_dim as int,
        weights.out_proj.weight.output_dim as int,
        1,
    );
    lemma_recorded_leaf(
        graph,
        all,
        handle(base, 9),
        base + 9,
        weights.out_proj.bias@.len() as int,
        1,
        1,
    );
    lemma_recorded_leaf(graph, all, handle(base, 10), base + 10, 1, 1, 1);
    lemma_recorded_leaf(graph, all, handle(base, 11), base + 11, 1, 1, 1);
}

/// The operations before the last one.
proof fn lemma_before_last(
    graph: GgmlCpuGraphBuilder,
    nodes: Seq<GraphNode>,
    node: GraphNode,
    ne0: int,
)
    requires
        nodes_extend(nodes.push(node), graph.recorded()),
        node matches GraphNode::Leaf { shape, .. } && shape == (Shape4 {
            ne0: ne0 as usize,
            ne1: 1,
            ne2: 1,
            ne3: 1,
        }),
        0 <= ne0 <= usize::MAX,
    ensures
        nodes_extend(nodes, graph.recorded()),
        is_leaf(graph, handle(nodes.len() as int, 0), ne0, 1, 1),
{
    graph.lemma_view_len();
    assert(nodes_extend(nodes, nodes.push(node)));
    lemma_extends(nodes, nodes.push(node), graph.recorded());
    lemma_recorded_leaf(
        graph,
        nodes.push(node),
        handle(nodes.len() as int, 0),
        nodes.len() as int,
        ne0,
        1,
        1,
    );
}

/// The tensors of a layer that stands in a graph are its leaves.
#[verifier::spinoff_prover]
#[verifier::rlimit(60)]
pub proof fn lemma_bound_layer_leaves(
    graph: GgmlCpuGraphBuilder,
    binding: XasrZipformerLayerGraphBinding,
    layer: XasrEncoderLayerWeights,
)
    requires
        layer_bound(graph, binding, layer),
        binding.shape.layer_head.frames > 0,
        binding.shape.layer_head.num_heads * binding.shape.layer_head.query_head_dim <= usize::MAX,
        binding.shape.layer_head.left_context_len + binding.shape.layer_head.frames * 2
            <= usize::MAX,
        binding.shape.layer_head.pos_dim == layer.self_attn_weights.linear_pos.input_dim,
    ensures
        head_leaves(graph, binding.tensors, layer, binding.shape),
        tail_leaves(graph, binding.tensors, layer, binding.shape),
{
    reveal(layer_nodes);
    reveal(layer_handles);
    let base = binding.tensors.layer_head.feed_forward1.in_proj_weight.id as int;
    let shape = binding.shape;
    let head = shape.layer_head;
    let tail = shape.layer_tail;
    let n0 = graph.recorded().take(base);
    let n1 = feed_forward_nodes(n0, layer.feed_forward1);
    let n2 = attention_nodes(n1, layer.self_attn_weights, head);
    let n3 = value_block_nodes(
        n2,
        head.nonlin_hidden_dim,
        head.left_context_len,
        layer.nonlin_attention.in_proj,
        layer.nonlin_attention.out_proj,
        "xasr_stack0_nonlin_cache",
        "xasr_stack0_nonlin_in_w",
        "xasr_stack0_nonlin_in_b",
        "xasr_stack0_nonlin_out_w",
        "xasr_stack0_nonlin_out_b",
    );
    let n4 = value_block_nodes(
        n3,
        head.self1_value_dim,
        head.left_context_len,
        layer.self_attn1.in_proj,
        layer.self_attn1.out_proj,
        "xasr_stack0_self1_cache",
        "xasr_stack0_self1_in_w",
        "xasr_stack0_self1_in_b",
        "xasr_stack0_self1_out_w",
        "xasr_stack0_self1_out_b",
    );
    let n5 = convolution_module_nodes(
        n4,
        layer.conv_module1,
        head.dim,
        head.frames,
        head.conv1_cache_len,
    );
    let n6 = feed_forward_nodes(n5, layer.feed_forward2);
    let mid = float_leaf(head.dim, 1, 1, 1, "xasr_stack0_bypass_mid_scale");
    let n7 = n6.push(mid);
    let n8 = value_block_nodes(
        n7,
        shape.self2_value_dim,
        head.left_context_len,
        layer.self_attn2.in_proj,
        layer.self_attn2.out_proj,
        "xasr_stack0_self2_cache",
        "xasr_stack0_self2_in_w",
        "xasr_stack0_self2_in_b",
        "xasr_stack0_self2_out_w",
        "xasr_stack0_self2_out_b",
    );
    let n9 = convolution_module_nodes(
        n8,
        layer.conv_module2,
        tail.dim,
        tail.frames,
        tail.conv_cache_len,
    );
    let n10 = feed_forward_nodes(n9, layer.feed_forward3);
    let norm = float_leaf(tail.dim, 1, 1, 1, "xasr_stack0_norm_bias");
    let scale = float_leaf(tail.dim, 1, 1, 1, "xasr_stack0_bypass_scale");
    let n11 = n10.push(norm);
    assert(layer_nodes(n0, layer, shape) == n11.push(scale));
    lemma_before_last(graph, n11, scale, tail.dim as int);
    lemma_before_last(graph, n10, norm, tail.dim as int);
    lemma_feed_forward_leaves(graph, n9, layer.feed_forward3);
    lemma_module_leaves(graph, n8, layer.conv_module2, tail.conv());
    lemma_block_leaves(
        graph,
        n7,
        shape.self2_value_dim,
        head.left_context_len,
        layer.self_attn2.in_proj,
        layer.self_attn2.out_proj,
        "xasr_stack0_self2_cache",
        "xasr_stack0_self2_in_w",
        "xasr_stack0_self2_in_b",
        "xasr_stack0_self2_out_w",
        "xasr_stack0_self2_out_b",
    );
    lemma_before_last(graph, n6, mid, head.dim as int);
    lemma_feed_forward_leaves(graph, n5, layer.feed_forward2);
    lemma_module_leaves(graph, n4, layer.conv_module1, head.conv());
    lemma_block_leaves(
        graph,
        n3,
        head.self1_value_dim,
        head.left_context_len,
        layer.self_attn1.in_proj,
        layer.self_attn1.out_proj,
        "xasr_stack0_self1_cache",
        "xasr_stack0_self1_in_w",
        "xasr_stack0_self1_in_b",
        "xasr_stack0_self1_out_w",
        "xasr_stack0_self1_out_b",
    );
    lemma_block_leaves(
        graph,
        n2,
        head.nonlin_hidden_dim,
        head.left_context_len,
        layer.nonlin_attention.in_proj,
        layer.nonlin_attention.out_proj,
        "xasr_stack0_nonlin_cache",
        "xasr_stack0_nonlin_in_w",
        "xasr_stack0_nonlin_in_b",
        "xasr_stack0_nonlin_out_w",
        "xasr_stack0_nonlin_out_b",
    );
    lemma_attention_leaves(graph, n1, layer.self_attn_weights, head);
    lemma_feed_forward_leaves(graph, n0, layer.feed_forward1);
    assert(n0.len() == base);
    assert(n1.len() == base + 6 && n2.len() == base + 12 && n3.len() == base + 17 && n4.len()
        == base + 22 && n5.len() == base + 34 && n6.len() == base + 40 && n7.len() == base + 41
        && n8.len() == base + 46 && n9.len() == base + 58 && n10.len() == base + 64 && n11.len()
        == base + 65);
    assert(binding.tensors == layer_handles(base));
}

} // verus!
