//! Leaf tensors of the encoder graphs: their allocation and their contents.

use vstd::prelude::*;
use crate::attention_graph::XasrSelfAttentionWeightsGraphTensors;
use crate::encoder_weights::{
    NamedTensor, StoredLinear, XasrConv2dWeights, XasrConvolutionModuleWeights,
    XasrEncoderLayerWeights, XasrLinearPairWeights, XasrLinearWithBias,
    XasrSelfAttentionWeightsWeights,
};
use crate::graph;
use crate::graph::{
    EffectView, GgmlCpuGraphBuilder, GgmlCpuGraphError, GgmlCpuTensor, GraphNode, LeafType,
};
use crate::layer_graph;
use crate::layer_graph::{
    product_or, sum_or, XasrConvolutionModuleGraphTensors, XasrFeedForwardGraphTensors,
};
use crate::tensor_value::Shape4;
use crate::zipformer_graph::{
    XasrLayerHeadGraphShape, XasrLayerHeadGraphTensors, XasrLayerTailGraphShape,
    XasrLayerTailGraphTensors, XasrZipformerLayerGraphShape, XasrZipformerLayerGraphTensors,
};

verus! {

/// A leaf with float elements.
pub open spec fn float_leaf(
    ne0: usize,
    ne1: usize,
    ne2: usize,
    ne3: usize,
    name: &'static str,
) -> GraphNode {
    GraphNode::Leaf {
        shape: Shape4 { ne0, ne1, ne2, ne3 },
        leaf_type: LeafType::Float,
        name,
    }
}

/// The leaf of a weight matrix: of its stored type where it has one.
pub open spec fn weight_leaf(weight: StoredLinear, name: &'static str) -> GraphNode {
    GraphNode::Leaf {
        shape: Shape4 { ne0: weight.input_dim, ne1: weight.output_dim, ne2: 1, ne3: 1 },
        leaf_type: match weight.native {
            Some(payload) => LeafType::Stored { ggml_type: payload.ggml_type },
            None => LeafType::Float,
        },
        name,
    }
}

/// `tensor` is the leaf that comes `offset` operations after the first `base`.
pub open spec fn handle(base: int, offset: int) -> GgmlCpuTensor {
    GgmlCpuTensor { id: (base + offset) as usize }
}

/// What is promised of an allocation: the given operations are recorded and
/// nothing else changes.
pub open spec fn allocated(
    before: GgmlCpuGraphBuilder,
    after: GgmlCpuGraphBuilder,
    nodes: Seq<GraphNode>,
) -> bool {
    &&& after.recorded() == nodes
    &&& after.grew_from(before)
}

/// The matrix operand of a linear layer.
pub fn allocate_stored_linear_weight_tensor(
    graph: &mut GgmlCpuGraphBuilder,
    weight: &StoredLinear,
    name: &'static str,
) -> (tensor: GgmlCpuTensor)
    ensures
        allocated(*old(graph), *final(graph), old(graph).recorded().push(weight_leaf(*weight, name))),
        tensor.id == old(graph)@.len(),
        final(graph).has_dense(tensor),
        final(graph)@.len() == old(graph)@.len() + 1,
{
    match &weight.native {
        Some(payload) => graph.new_matmul_weight_2d_typed(
            weight.input_dim,
            weight.output_dim,
            payload.ggml_type,
            name,
        ),
        None => graph.new_tensor_2d_f32(weight.input_dim, weight.output_dim, name),
    }
}

/// The matrix operand of a linear layer with bias.
pub fn allocate_linear_weight_tensor(
    graph: &mut GgmlCpuGraphBuilder,
    weights: &XasrLinearWithBias,
    name: &'static str,
) -> (tensor: GgmlCpuTensor)
    ensures
        allocated(
            *old(graph),
            *final(graph),
            old(graph).recorded().push(weight_leaf(weights.weight, name)),
        ),
        tensor.id == old(graph)@.len(),
        final(graph).has_dense(tensor),
        final(graph)@.len() == old(graph)@.len() + 1,
{
    allocate_stored_linear_weight_tensor(graph, &weights.weight, name)
}

/// The bias of a linear layer.
pub fn allocate_linear_bias_tensor(
    graph: &mut GgmlCpuGraphBuilder,
    weights: &XasrLinearWithBias,
    name: &'static str,
) -> (tensor: GgmlCpuTensor)
    ensures
        allocated(
            *old(graph),
            *final(graph),
            old(graph).recorded().push(float_leaf(weights.bias.len(), 1, 1, 1, name)),
        ),
        tensor.id == old(graph)@.len(),
        final(graph).has_dense(tensor),
        final(graph)@.len() == old(graph)@.len() + 1,
{
    graph.new_tensor_1d_f32(weights.bias.len(), name)
}

/// Why a convolution kernel is refused.
pub open spec fn conv2d_rank_refusal(weights: XasrConv2dWeights) -> Option<&'static str> {
    if weights.weight.dims@.len() != 4 {
        Some("xasr conv2d weight must have rank 4")
    } else {
        None
    }
}

/// The leaf of a convolution kernel.
pub open spec fn conv2d_leaf(weights: XasrConv2dWeights, name: &'static str) -> GraphNode {
    let dims = weights.weight.dims@;
    float_leaf(dims[0], dims[1], dims[2], dims[3], name)
}

/// The kernel of a two-dimensional convolution.
pub fn allocate_conv2d_weight_tensor(
    graph: &mut GgmlCpuGraphBuilder,
    weights: &XasrConv2dWeights,
    name: &'static str,
) -> (result: Result<GgmlCpuTensor, GgmlCpuGraphError>)
    ensures
        match conv2d_rank_refusal(*weights) {
            Some(reason) => {
                &&& result == Err::<GgmlCpuTensor, GgmlCpuGraphError>(
                    layer_graph::refusal_error(reason),
                )
                &&& *final(graph) == *old(graph)
            },
            None => {
                &&& result is Ok
                &&& allocated(
                    *old(graph),
                    *final(graph),
                    old(graph).recorded().push(conv2d_leaf(*weights, name)),
                )
                &&& result->Ok_0.id == old(graph)@.len()
                &&& final(graph).has_dense(result->Ok_0)
                &&& final(graph)@.len() == old(graph)@.len() + 1
            },
        },
{
    let dims = &weights.weight.dims;
    if dims.len() != 4 {
        return Err(
            GgmlCpuGraphError::UnsupportedInputs { reason: "xasr conv2d weight must have rank 4" },
        );
    }
    Ok(graph.new_tensor_4d_f32(dims[0], dims[1], dims[2], dims[3], name))
}

/// Width, height, input and output channels of a convolution kernel.
pub fn conv2d_dims(weights: &XasrConv2dWeights) -> (result: Result<
    (usize, usize, usize, usize),
    GgmlCpuGraphError,
>)
    ensures
        match conv2d_rank_refusal(*weights) {
            Some(reason) => result == Err::<(usize, usize, usize, usize), GgmlCpuGraphError>(
                layer_graph::refusal_error(reason),
            ),
            None => result == Ok::<(usize, usize, usize, usize), GgmlCpuGraphError>(
                (
                    weights.weight.dims@[0],
                    weights.weight.dims@[1],
                    weights.weight.dims@[2],
                    weights.weight.dims@[3],
                ),
            ),
        },
{
    let dims = &weights.weight.dims;
    if dims.len() != 4 {
        return Err(
            GgmlCpuGraphError::UnsupportedInputs { reason: "xasr conv2d weight must have rank 4" },
        );
    }
    Ok((dims[0], dims[1], dims[2], dims[3]))
}

/// Why a convolution along one axis is refused.
pub open spec fn conv2d_axis_refusal(
    input: usize,
    kernel: usize,
    stride: usize,
    pad_before: usize,
    pad_after: usize,
) -> Option<&'static str> {
    if input == 0 || kernel == 0 || stride == 0 {
        Some("xasr conv2d dimensions must be positive")
    } else if input + pad_before + pad_after > usize::MAX {
        Some("xasr conv2d padded dimension overflows")
    } else if input + pad_before + pad_after < kernel {
        Some("xasr conv2d kernel exceeds padded input")
    } else {
        None
    }
}

/// Number of positions of a kernel along a padded axis.
pub open spec fn conv2d_axis_len(
    input: int,
    kernel: int,
    stride: int,
    pad_before: int,
    pad_after: int,
) -> int {
    (input + pad_before + pad_after - kernel) / stride + 1
}

/// Length of an axis after a convolution.
pub fn conv2d_output_dim(
    input: usize,
    kernel: usize,
    stride: usize,
    pad_before: usize,
    pad_after: usize,
) -> (result: Result<usize, GgmlCpuGraphError>)
    ensures
        match conv2d_axis_refusal(input, kernel, stride, pad_before, pad_after) {
            Some(reason) => result == Err::<usize, GgmlCpuGraphError>(
                layer_graph::refusal_error(reason),
            ),
            None => result is Ok && result->Ok_0 == conv2d_axis_len(
                input as int,
                kernel as int,
                stride as int,
                pad_before as int,
                pad_after as int,
            ) && result->Ok_0 >= 1,
        },
{
    if input == 0 || kernel == 0 || stride == 0 {
        return Err(
            GgmlCpuGraphError::UnsupportedInputs {
                reason: "xasr conv2d dimensions must be positive",
            },
        );
    }
    let padded_before = sum_or(input, pad_before, "xasr conv2d padded dimension overflows")?;
    let padded = sum_or(padded_before, pad_after, "xasr conv2d padded dimension overflows")?;
    if padded < kernel {
        return Err(
            GgmlCpuGraphError::UnsupportedInputs {
                reason: "xasr conv2d kernel exceeds padded input",
            },
        );
    }
    let span = padded - kernel;
    proof {
        vstd::arithmetic::div_mod::lemma_div_pos_is_pos(span as int, stride as int);
        vstd::arithmetic::div_mod::lemma_div_is_ordered_by_denominator(
            span as int,
            1,
            stride as int,
        );
    }
    Ok(span / stride + 1)
}

/// The kernel length of a one-dimensional convolution, if it has one.
pub open spec fn kernel_refusal(weight: NamedTensor, reason: &'static str) -> Option<&'static str> {
    if weight.dims@.len() == 0 {
        Some(reason)
    } else {
        None
    }
}

pub open spec fn causal_kernel_refusal(
    weights: XasrConvolutionModuleWeights,
) -> Option<&'static str> {
    kernel_refusal(
        weights.depthwise_causal_conv.weight,
        "xasr convolution causal kernel must have rank >= 1",
    )
}

pub open spec fn chunk_kernel_refusal(
    weights: XasrConvolutionModuleWeights,
) -> Option<&'static str> {
    kernel_refusal(
        weights.depthwise_chunkwise_conv.weight,
        "xasr convolution chunk kernel must have rank >= 1",
    )
}

/// Length of the causal kernel.
pub fn conv1d_kernel_len(weights: &XasrConvolutionModuleWeights) -> (result: Result<
    usize,
    GgmlCpuGraphError,
>)
    ensures
        match causal_kernel_refusal(*weights) {
            Some(reason) => result == Err::<usize, GgmlCpuGraphError>(
                layer_graph::refusal_error(reason),
            ),
            None => result == Ok::<usize, GgmlCpuGraphError>(
                weights.depthwise_causal_conv.weight.dims@[0],
            ),
        },
{
    if weights.depthwise_causal_conv.weight.dims.len() == 0 {
        return Err(
            GgmlCpuGraphError::UnsupportedInputs {
                reason: "xasr convolution causal kernel must have rank >= 1",
            },
        );
    }
    Ok(weights.depthwise_causal_conv.weight.dims[0])
}

/// Length of the chunkwise kernel.
pub fn chunk_conv1d_kernel_len(weights: &XasrConvolutionModuleWeights) -> (result: Result<
    usize,
    GgmlCpuGraphError,
>)
    ensures
        match chunk_kernel_refusal(*weights) {
            Some(reason) => result == Err::<usize, GgmlCpuGraphError>(
                layer_graph::refusal_error(reason),
            ),
            None => result == Ok::<usize, GgmlCpuGraphError>(
                weights.depthwise_chunkwise_conv.weight.dims@[0],
            ),
        },
{
    if weights.depthwise_chunkwise_conv.weight.dims.len() == 0 {
        return Err(
            GgmlCpuGraphError::UnsupportedInputs {
                reason: "xasr convolution chunk kernel must have rank >= 1",
            },
        );
    }
    Ok(weights.depthwise_chunkwise_conv.weight.dims[0])
}

/// The operations that allocate a feed-forward block.
pub open spec fn feed_forward_nodes(
    nodes: Seq<GraphNode>,
    weights: XasrLinearPairWeights,
) -> Seq<GraphNode> {
    nodes.push(weight_leaf(weights.in_proj.weight, "xasr_ff_in_w")).push(
        float_leaf(weights.in_proj.bias.len(), 1, 1, 1, "xasr_ff_in_b"),
    ).push(weight_leaf(weights.out_proj.weight, "xasr_ff_out_w")).push(
        float_leaf(weights.out_proj.bias.len(), 1, 1, 1, "xasr_ff_out_b"),
    ).push(float_leaf(1, 1, 1, 1, "xasr_ff_swoosh_l_offset")).push(
        float_leaf(1, 1, 1, 1, "xasr_ff_swoosh_l_shift"),
    )
}

/// The handles of a feed-forward block allocated from `base` on.
pub open spec fn feed_forward_handles(base: int) -> XasrFeedForwardGraphTensors {
    XasrFeedForwardGraphTensors {
        in_proj_weight: handle(base, 0),
        in_proj_bias: handle(base, 1),
        out_proj_weight: handle(base, 2),
        out_proj_bias: handle(base, 3),
        swoosh_l_offset: handle(base, 4),
        swoosh_l_shift: handle(base, 5),
    }
}

/// Allocates a feed-forward block.
pub fn allocate_feed_forward_tensors(
    graph: &mut GgmlCpuGraphBuilder,
    weights: &XasrLinearPairWeights,
) -> (tensors: XasrFeedForwardGraphTensors)
    ensures
        allocated(
            *old(graph),
            *final(graph),
            feed_forward_nodes(old(graph).recorded(), *weights),
        ),
        tensors == feed_forward_handles(old(graph)@.len() as int),
        tensors.within(*final(graph)),
        final(graph)@.len() == old(graph)@.len() + 6,
{
    let in_proj_weight = allocate_linear_weight_tensor(graph, &weights.in_proj, "xasr_ff_in_w");
    let in_proj_bias = allocate_linear_bias_tensor(graph, &weights.in_proj, "xasr_ff_in_b");
    let out_proj_weight = allocate_linear_weight_tensor(graph, &weights.out_proj, "xasr_ff_out_w");
    let out_proj_bias = allocate_linear_bias_tensor(graph, &weights.out_proj, "xasr_ff_out_b");
    let swoosh_l_offset = graph.new_tensor_1d_f32(1, "xasr_ff_swoosh_l_offset");
    let swoosh_l_shift = graph.new_tensor_1d_f32(1, "xasr_ff_swoosh_l_shift");
    XasrFeedForwardGraphTensors {
        in_proj_weight,
        in_proj_bias,
        out_proj_weight,
        out_proj_bias,
        swoosh_l_offset,
        swoosh_l_shift,
    }
}

/// The operations that allocate a convolution module.
pub open spec fn convolution_module_nodes(
    nodes: Seq<GraphNode>,
    weights: XasrConvolutionModuleWeights,
    dim: usize,
    frames: usize,
    cache_len: usize,
) -> Seq<GraphNode> {
    nodes.push(float_leaf(cache_len, dim, 1, 1, "xasr_conv_cache")).push(
        weight_leaf(weights.in_proj.weight, "xasr_conv_in_w"),
    ).push(float_leaf(weights.in_proj.bias.len(), 1, 1, 1, "xasr_conv_in_b")).push(
        float_leaf(weights.depthwise_causal_conv.weight.dims@[0], 1, dim, 1, "xasr_conv_causal_w"),
    ).push(float_leaf(dim, 1, 1, 1, "xasr_conv_causal_b")).push(
        float_leaf(weights.depthwise_chunkwise_conv.weight.dims@[0], 1, dim, 1, "xasr_conv_chunk_w"),
    ).push(float_leaf(dim, 1, 1, 1, "xasr_conv_chunk_b")).push(
        float_leaf(frames, dim, 1, 1, "xasr_conv_chunk_scale"),
    ).push(weight_leaf(weights.out_proj.weight, "xasr_conv_out_w")).push(
        float_leaf(weights.out_proj.bias.len(), 1, 1, 1, "xasr_conv_out_b"),
    ).push(float_leaf(1, 1, 1, 1, "xasr_conv_swoosh_r_offset")).push(
        float_leaf(1, 1, 1, 1, "xasr_conv_swoosh_r_shift"),
    )
}

/// The handles of a convolution module allocated from `base` on.
pub open spec fn convolution_module_handles(base: int) -> XasrConvolutionModuleGraphTensors {
    XasrConvolutionModuleGraphTensors {
        cache: handle(base, 0),
        in_proj_weight: handle(base, 1),
        in_proj_bias: handle(base, 2),
        causal_kernel: handle(base, 3),
        causal_bias: handle(base, 4),
        chunk_kernel: handle(base, 5),
        chunk_bias: handle(base, 6),
        chunk_scale: handle(base, 7),
        out_proj_weight: handle(base, 8),
        out_proj_bias: handle(base, 9),
        swoosh_r_offset: handle(base, 10),
        swoosh_r_shift: handle(base, 11),
    }
}

/// Why the allocation of a convolution module is refused.
pub open spec fn convolution_kernels_refusal(
    weights: XasrConvolutionModuleWeights,
) -> Option<&'static str> {
    if causal_kernel_refusal(weights) is Some {
        causal_kernel_refusal(weights)
    } else {
        chunk_kernel_refusal(weights)
    }
}

/// Allocates a convolution module.
pub fn allocate_convolution_module_tensors(
    graph: &mut GgmlCpuGraphBuilder,
    weights: &XasrConvolutionModuleWeights,
    dim: usize,
    frames: usize,
    cache_len: usize,
) -> (result: Result<XasrConvolutionModuleGraphTensors, GgmlCpuGraphError>)
    ensures
        final(graph).grew_from(*old(graph)),
        match convolution_kernels_refusal(*weights) {
            Some(reason) => result == Err::<XasrConvolutionModuleGraphTensors, GgmlCpuGraphError>(
                layer_graph::refusal_error(reason),
            ),
            None => {
                &&& result is Ok
                &&& allocated(
                    *old(graph),
                    *final(graph),
                    convolution_module_nodes(
                        old(graph).recorded(),
                        *weights,
                        dim,
                        frames,
                        cache_len,
                    ),
                )
                &&& result->Ok_0 == convolution_module_handles(old(graph)@.len() as int)
                &&& result->Ok_0.within(*final(graph))
                &&& final(graph)@.len() == old(graph)@.len() + 12
            },
        },
{
    let cache = graph.new_tensor_2d_f32(cache_len, dim, "xasr_conv_cache");
    let in_proj_weight = allocate_linear_weight_tensor(graph, &weights.in_proj, "xasr_conv_in_w");
    let in_proj_bias = allocate_linear_bias_tensor(graph, &weights.in_proj, "xasr_conv_in_b");
    let causal_kernel_len = conv1d_kernel_len(weights)?;
    let causal_kernel = graph.new_tensor_3d_f32(causal_kernel_len, 1, dim, "xasr_conv_causal_w");
    let causal_bias = graph.new_tensor_1d_f32(dim, "xasr_conv_causal_b");
    let chunk_kernel_len = chunk_conv1d_kernel_len(weights)?;
    let chunk_kernel = graph.new_tensor_3d_f32(chunk_kernel_len, 1, dim, "xasr_conv_chunk_w");
    let chunk_bias = graph.new_tensor_1d_f32(dim, "xasr_conv_chunk_b");
    let chunk_scale = graph.new_tensor_2d_f32(frames, dim, "xasr_conv_chunk_scale");
    let out_proj_weight = allocate_linear_weight_tensor(graph, &weights.out_proj, "xasr_conv_out_w");
    let out_proj_bias = allocate_linear_bias_tensor(graph, &weights.out_proj, "xasr_conv_out_b");
    let swoosh_r_offset = graph.new_tensor_1d_f32(1, "xasr_conv_swoosh_r_offset");
    let swoosh_r_shift = graph.new_tensor_1d_f32(1, "xasr_conv_swoosh_r_shift");
    Ok(
        XasrConvolutionModuleGraphTensors {
            cache,
            in_proj_weight,
            in_proj_bias,
            causal_kernel,
            causal_bias,
            chunk_kernel,
            chunk_bias,
            chunk_scale,
            out_proj_weight,
            out_proj_bias,
            swoosh_r_offset,
            swoosh_r_shift,
        },
    )
}

/// The tensors of one layer and their dimensions.
#[derive(Clone, Copy, Debug)]
pub struct XasrZipformerLayerGraphBinding {
    pub tensors: XasrZipformerLayerGraphTensors,
    pub shape: XasrZipformerLayerGraphShape,
}

/// Number of leaf tensors of a layer.
pub const LAYER_LEAF_COUNT: usize = 66;

/// The dimensions of a layer over `frames` frames.
pub open spec fn layer_shape(
    layer: XasrEncoderLayerWeights,
    dim: usize,
    frames: usize,
    left_context_len: usize,
    num_heads: usize,
    query_head_dim: usize,
) -> XasrZipformerLayerGraphShape {
    let conv1_chunk = layer.conv_module1.depthwise_chunkwise_conv.weight.dims@[0];
    let conv2_chunk = layer.conv_module2.depthwise_chunkwise_conv.weight.dims@[0];
    XasrZipformerLayerGraphShape {
        layer_head: XasrLayerHeadGraphShape {
            dim,
            frames,
            left_context_len,
            num_heads,
            query_head_dim,
            pos_dim: layer.self_attn_weights.linear_pos.input_dim,
            pos_output_dim: layer.self_attn_weights.linear_pos.output_dim,
            nonlin_hidden_dim: layer.nonlin_attention.out_proj.weight.input_dim,
            self1_value_dim: layer.self_attn1.in_proj.weight.output_dim,
            conv1_cache_len: (conv1_chunk / 2) as usize,
            conv1_causal_kernel_len: layer.conv_module1.depthwise_causal_conv.weight.dims@[0],
            conv1_chunk_kernel_len: conv1_chunk,
        },
        self2_value_dim: layer.self_attn2.in_proj.weight.output_dim,
        layer_tail: XasrLayerTailGraphShape {
            dim,
            frames,
            conv_cache_len: (conv2_chunk / 2) as usize,
            conv_causal_kernel_len: layer.conv_module2.depthwise_causal_conv.weight.dims@[0],
            conv_chunk_kernel_len: conv2_chunk,
            norm_log_scale: layer.norm_log_scale@[0],
        },
    }
}

/// The operations that allocate the attention weights of a layer.
pub open spec fn attention_nodes(
    nodes: Seq<GraphNode>,
    weights: XasrSelfAttentionWeightsWeights,
    shape: XasrLayerHeadGraphShape,
) -> Seq<GraphNode> {
    nodes.push(
        float_leaf(
            (shape.num_heads * shape.query_head_dim) as usize,
            shape.left_context_len,
            1,
            1,
            "xasr_stack0_attn_cache",
        ),
    ).push(
        float_leaf(
            (shape.left_context_len + shape.frames) as usize,
            shape.frames,
            1,
            1,
            "xasr_stack0_attn_mask",
        ),
    ).push(
        float_leaf(
            shape.pos_dim,
            (shape.left_context_len + shape.frames * 2 - 1) as usize,
            1,
            1,
            "xasr_stack0_attn_pos",
        ),
    ).push(weight_leaf(weights.in_proj.weight, "xasr_stack0_attn_in_w")).push(
        float_leaf(weights.in_proj.bias.len(), 1, 1, 1, "xasr_stack0_attn_in_b"),
    ).push(weight_leaf(weights.linear_pos, "xasr_stack0_attn_pos_w"))
}

/// The operations that allocate a cache and two linear layers.
pub open spec fn value_block_nodes(
    nodes: Seq<GraphNode>,
    value_dim: usize,
    left_context_len: usize,
    in_proj: XasrLinearWithBias,
    out_proj: XasrLinearWithBias,
    cache_name: &'static str,
    in_weight_name: &'static str,
    in_bias_name: &'static str,
    out_weight_name: &'static str,
    out_bias_name: &'static str,
) -> Seq<GraphNode> {
    nodes.push(float_leaf(value_dim, left_context_len, 1, 1, cache_name)).push(
        weight_leaf(in_proj.weight, in_weight_name),
    ).push(float_leaf(in_proj.bias.len(), 1, 1, 1, in_bias_name)).push(
        weight_leaf(out_proj.weight, out_weight_name),
    ).push(float_leaf(out_proj.bias.len(), 1, 1, 1, out_bias_name))
}

/// The operations that allocate a layer.
#[verifier::opaque]
pub open spec fn layer_nodes(
    nodes: Seq<GraphNode>,
    layer: XasrEncoderLayerWeights,
    shape: XasrZipformerLayerGraphShape,
) -> Seq<GraphNode> {
    let head = shape.layer_head;
    let tail = shape.layer_tail;
    let with_attention = attention_nodes(
        feed_forward_nodes(nodes, layer.feed_forward1),
        layer.self_attn_weights,
        head,
    );
    let with_nonlin = value_block_nodes(
        with_attention,
        head.nonlin_hidden_dim,
        head.left_context_len,
        layer.nonlin_attention.in_proj,
        layer.nonlin_attention.out_proj,
        "xasr_stack0_nonlin_cache",
        "xasr_stack0_nonlin_in_w",
        "xasr_stack0_nonlin_in_b",
        "xasr_stack0_nonlin_out_w",
        "xasr_stack0_nonlin_out_b",
    );
    let with_self1 = value_block_nodes(
        with_nonlin,
        head.self1_value_dim,
        head.left_context_len,
        layer.self_attn1.in_proj,
        layer.self_attn1.out_proj,
        "xasr_stack0_self1_cache",
        "xasr_stack0_self1_in_w",
        "xasr_stack0_self1_in_b",
        "xasr_stack0_self1_out_w",
        "xasr_stack0_self1_out_b",
    );
    let with_conv1 = convolution_module_nodes(
        with_self1,
        layer.conv_module1,
        head.dim,
        head.frames,
        head.conv1_cache_len,
    );
    let with_head = feed_forward_nodes(with_conv1, layer.feed_forward2).push(
        float_leaf(head.dim, 1, 1, 1, "xasr_stack0_bypass_mid_scale"),
    );
    let with_self2 = value_block_nodes(
        with_head,
        shape.self2_value_dim,
        head.left_context_len,
        layer.self_attn2.in_proj,
        layer.self_attn2.out_proj,
        "xasr_stack0_self2_cache",
        "xasr_stack0_self2_in_w",
        "xasr_stack0_self2_in_b",
        "xasr_stack0_self2_out_w",
        "xasr_stack0_self2_out_b",
    );
    let with_conv2 = convolution_module_nodes(
        with_self2,
        layer.conv_module2,
        tail.dim,
        tail.frames,
        tail.conv_cache_len,
    );
    feed_forward_nodes(with_conv2, layer.feed_forward3).push(
        float_leaf(tail.dim, 1, 1, 1, "xasr_stack0_norm_bias"),
    ).push(float_leaf(tail.dim, 1, 1, 1, "xasr_stack0_bypass_scale"))
}

/// The handles of a layer allocated from `base` on.
#[verifier::opaque]
pub open spec fn layer_handles(base: int) -> XasrZipformerLayerGraphTensors {
    XasrZipformerLayerGraphTensors {
        layer_head: XasrLayerHeadGraphTensors {
            feed_forward1: feed_forward_handles(base),
            attention_weights: XasrSelfAttentionWeightsGraphTensors {
                cache: handle(base, 6),
                mask: handle(base, 7),
                pos_embedding: handle(base, 8),
                in_proj_weight: handle(base, 9),
                in_proj_bias: handle(base, 10),
                linear_pos_weight: handle(base, 11),
            },
            nonlin_cache: handle(base, 12),
            nonlin_in_proj_weight: handle(base, 13),
            nonlin_in_proj_bias: handle(base, 14),
            nonlin_out_proj_weight: handle(base, 15),
            nonlin_out_proj_bias: handle(base, 16),
            self1_cache: handle(base, 17),
            self1_in_proj_weight: handle(base, 18),
            self1_in_proj_bias: handle(base, 19),
            self1_out_proj_weight: handle(base, 20),
            self1_out_proj_bias: handle(base, 21),
            conv_module1: convolution_module_handles(base + 22),
            feed_forward2: feed_forward_handles(base + 34),
            bypass_mid_scale: handle(base, 40),
        },
        self2_cache: handle(base, 41),
        self2_in_proj_weight: handle(base, 42),
        self2_in_proj_bias: handle(base, 43),
        self2_out_proj_weight: handle(base, 44),
        self2_out_proj_bias: handle(base, 45),
        layer_tail: XasrLayerTailGraphTensors {
            conv_module2: convolution_module_handles(base + 46),
            feed_forward3: feed_forward_handles(base + 58),
            norm_bias: handle(base, 64),
            bypass_scale: handle(base, 65),
        },
    }
}

/// Why the allocation of a layer is refused.
pub open spec fn layer_allocation_refusal(
    layer: XasrEncoderLayerWeights,
    frames: usize,
    left_context_len: usize,
    num_heads: usize,
    query_head_dim: usize,
) -> Option<&'static str> {
    if num_heads * query_head_dim > usize::MAX {
        Some("xasr stack0 query dimension overflows")
    } else if left_context_len + frames > usize::MAX {
        Some("xasr stack0 key length overflows")
    } else if left_context_len + frames * 2 > usize::MAX || left_context_len + frames * 2 == 0 {
        Some("xasr stack0 relative position length overflows")
    } else if convolution_kernels_refusal(layer.conv_module1) is Some {
        convolution_kernels_refusal(layer.conv_module1)
    } else {
        convolution_kernels_refusal(layer.conv_module2)
    }
}

/// The marks that make tensors graph inputs, appended.
pub open spec fn input_marks(
    pending: Seq<EffectView>,
    tensors: Seq<GgmlCpuTensor>,
) -> Seq<EffectView> {
    pending + tensors.map_values(|t: GgmlCpuTensor| EffectView::SetInput { tensor: t.id as int })
}

/// The marks that keep tensors alive, appended.
pub open spec fn output_marks(
    pending: Seq<EffectView>,
    tensors: Seq<GgmlCpuTensor>,
) -> Seq<EffectView> {
    pending + tensors.map_values(|t: GgmlCpuTensor| EffectView::SetOutput { tensor: t.id as int })
}

/// What is promised of a function that only marks or uploads: the operations
/// stay, and the given effects are pending.
pub open spec fn noted(
    before: GgmlCpuGraphBuilder,
    after: GgmlCpuGraphBuilder,
    pending: Seq<EffectView>,
) -> bool {
    &&& after@ == before@
    &&& after.recorded() == before.recorded()
    &&& after.pending() == pending
}

/// What holds after a failed upload: the operations stay, and earlier effects
/// are still pending.
pub open spec fn partly_noted(before: GgmlCpuGraphBuilder, after: GgmlCpuGraphBuilder) -> bool {
    &&& after@ == before@
    &&& after.recorded() == before.recorded()
    &&& before.pending().len() <= after.pending().len()
    &&& after.pending().take(before.pending().len() as int) == before.pending()
}

/// Marks each of the tensors as a graph input.
pub fn mark_inputs(graph: &mut GgmlCpuGraphBuilder, tensors: &Vec<GgmlCpuTensor>)
    requires
        forall|i: int| 0 <= i < tensors@.len() ==> old(graph).has(#[trigger] tensors@[i]),
    ensures
        noted(*old(graph), *final(graph), input_marks(old(graph).pending(), tensors@)),
{
    let mut i: usize = 0;
    proof {
        assert(input_marks(graph.pending(), tensors@.take(0)) =~= graph.pending());
    }
    while i < tensors.len()
        invariant
            i <= tensors@.len(),
            forall|j: int| 0 <= j < tensors@.len() ==> old(graph).has(#[trigger] tensors@[j]),
            noted(
                *old(graph),
                *graph,
                input_marks(old(graph).pending(), tensors@.take(i as int)),
            ),
        decreases tensors.len() - i,
    {
        graph.set_input(tensors[i]);
        i = i + 1;
        assert(input_marks(old(graph).pending(), tensors@.take(i as int)) =~= input_marks(
            old(graph).pending(),
            tensors@.take(i - 1),
        ).push((EffectView::SetInput { tensor: tensors@[i - 1].id as int })));
    }
    assert(tensors@.take(i as int) =~= tensors@);
}

/// Keeps each of the tensors alive.
pub fn mark_outputs(graph: &mut GgmlCpuGraphBuilder, tensors: &Vec<GgmlCpuTensor>)
    requires
        forall|i: int| 0 <= i < tensors@.len() ==> old(graph).has(#[trigger] tensors@[i]),
    ensures
        noted(*old(graph), *final(graph), output_marks(old(graph).pending(), tensors@)),
{
    let mut i: usize = 0;
    proof {
        assert(output_marks(graph.pending(), tensors@.take(0)) =~= graph.pending());
    }
    while i < tensors.len()
        invariant
            i <= tensors@.len(),
            forall|j: int| 0 <= j < tensors@.len() ==> old(graph).has(#[trigger] tensors@[j]),
            noted(
                *old(graph),
                *graph,
                output_marks(old(graph).pending(), tensors@.take(i as int)),
            ),
        decreases tensors.len() - i,
    {
        graph.set_output(tensors[i]);
        i = i + 1;
        assert(output_marks(old(graph).pending(), tensors@.take(i as int)) =~= output_marks(
            old(graph).pending(),
            tensors@.take(i - 1),
        ).push((EffectView::SetOutput { tensor: tensors@[i - 1].id as int })));
    }
    assert(tensors@.take(i as int) =~= tensors@);
}

impl XasrZipformerLayerGraphBinding {
    /// All leaf tensors of the layer.
    #[verifier::opaque]
    pub open spec fn inputs(self) -> Seq<GgmlCpuTensor> {
        let tensors = self.tensors;
        let head = tensors.layer_head;
        let attn = head.attention_weights;
        let conv1 = head.conv_module1;
        let tail = tensors.layer_tail;
        let conv2 = tail.conv_module2;
        seq![
            head.feed_forward1.in_proj_weight,
            head.feed_forward1.in_proj_bias,
            head.feed_forward1.out_proj_weight,
            head.feed_forward1.out_proj_bias,
            head.feed_forward1.swoosh_l_offset,
            head.feed_forward1.swoosh_l_shift,
            attn.cache,
            attn.mask,
            attn.pos_embedding,
            attn.in_proj_weight,
            attn.in_proj_bias,
            attn.linear_pos_weight,
            head.nonlin_cache,
            head.nonlin_in_proj_weight,
            head.nonlin_in_proj_bias,
            head.nonlin_out_proj_weight,
            head.nonlin_out_proj_bias,
            head.self1_cache,
            head.self1_in_proj_weight,
            head.self1_in_proj_bias,
            head.self1_out_proj_weight,
            head.self1_out_proj_bias,
            conv1.cache,
            conv1.in_proj_weight,
            conv1.in_proj_bias,
            conv1.causal_kernel,
            conv1.causal_bias,
            conv1.chunk_kernel,
            conv1.chunk_bias,
            conv1.chunk_scale,
            conv1.out_proj_weight,
            conv1.out_proj_bias,
            conv1.swoosh_r_offset,
            conv1.swoosh_r_shift,
            head.feed_forward2.in_proj_weight,
            head.feed_forward2.in_proj_bias,
            head.feed_forward2.out_proj_weight,
            head.feed_forward2.out_proj_bias,
            head.feed_forward2.swoosh_l_offset,
            head.feed_forward2.swoosh_l_shift,
            head.bypass_mid_scale,
            tensors.self2_cache,
            tensors.self2_in_proj_weight,
            tensors.self2_in_proj_bias,
            tensors.self2_out_proj_weight,
            tensors.self2_out_proj_bias,
            conv2.cache,
            conv2.in_proj_weight,
            conv2.in_proj_bias,
            conv2.causal_kernel,
            conv2.causal_bias,
            conv2.chunk_kernel,
            conv2.chunk_bias,
            conv2.chunk_scale,
            conv2.out_proj_weight,
            conv2.out_proj_bias,
            conv2.swoosh_r_offset,
            conv2.swoosh_r_shift,
            tail.feed_forward3.in_proj_weight,
            tail.feed_forward3.in_proj_bias,
            tail.feed_forward3.out_proj_weight,
            tail.feed_forward3.out_proj_bias,
            tail.feed_forward3.swoosh_l_offset,
            tail.feed_forward3.swoosh_l_shift,
            tail.norm_bias,
            tail.bypass_scale,
        ]
    }

    /// The leaf tensors whose contents stay from chunk to chunk.
    #[verifier::opaque]
    pub open spec fn static_inputs(self) -> Seq<GgmlCpuTensor> {
        let tensors = self.tensors;
        let head = tensors.layer_head;
        let attn = head.attention_weights;
        let conv1 = head.conv_module1;
        let tail = tensors.layer_tail;
        let conv2 = tail.conv_module2;
        seq![
            head.feed_forward1.in_proj_weight,
            head.feed_forward1.in_proj_bias,
            head.feed_forward1.out_proj_weight,
            head.feed_forward1.out_proj_bias,
            head.feed_forward1.swoosh_l_offset,
            head.feed_forward1.swoosh_l_shift,
            attn.mask,
            attn.pos_embedding,
            attn.in_proj_weight,
            attn.in_proj_bias,
            attn.linear_pos_weight,
            head.nonlin_in_proj_weight,
            head.nonlin_in_proj_bias,
            head.nonlin_out_proj_weight,
            head.nonlin_out_proj_bias,
            head.self1_in_proj_weight,
            head.self1_in_proj_bias,
            head.self1_out_proj_weight,
            head.self1_out_proj_bias,
            conv1.in_proj_weight,
            conv1.in_proj_bias,
            conv1.causal_kernel,
            conv1.causal_bias,
            conv1.chunk_kernel,
            conv1.chunk_bias,
            conv1.chunk_scale,
            conv1.out_proj_weight,
            conv1.out_proj_bias,
            conv1.swoosh_r_offset,
            conv1.swoosh_r_shift,
            head.feed_forward2.in_proj_weight,
            head.feed_forward2.in_proj_bias,
            head.feed_forward2.out_proj_weight,
            head.feed_forward2.out_proj_bias,
            head.feed_forward2.swoosh_l_offset,
            head.feed_forward2.swoosh_l_shift,
            head.bypass_mid_scale,
            tensors.self2_in_proj_weight,
            tensors.self2_in_proj_bias,
            tensors.self2_out_proj_weight,
            tensors.self2_out_proj_bias,
            conv2.in_proj_weight,
            conv2.in_proj_bias,
            conv2.causal_kernel,
            conv2.causal_bias,
            conv2.chunk_kernel,
            conv2.chunk_bias,
            conv2.chunk_scale,
            conv2.out_proj_weight,
            conv2.out_proj_bias,
            conv2.swoosh_r_offset,
            conv2.swoosh_r_shift,
            tail.feed_forward3.in_proj_weight,
            tail.feed_forward3.in_proj_bias,
            tail.feed_forward3.out_proj_weight,
            tail.feed_forward3.out_proj_bias,
            tail.feed_forward3.swoosh_l_offset,
            tail.feed_forward3.swoosh_l_shift,
            tail.norm_bias,
            tail.bypass_scale,
        ]
    }

    /// The leaf tensors that hold the streaming caches.
    pub open spec fn caches(self) -> Seq<GgmlCpuTensor> {
        let tensors = self.tensors;
        let head = tensors.layer_head;
        let attn = head.attention_weights;
        let conv1 = head.conv_module1;
        let tail = tensors.layer_tail;
        let conv2 = tail.conv_module2;
        seq![
            attn.cache,
            head.nonlin_cache,
            head.self1_cache,
            conv1.cache,
            tensors.self2_cache,
            conv2.cache,
        ]
    }

    /// Allocates the leaf tensors of a layer.
    #[verifier::rlimit(60)]
    pub fn new(
        graph: &mut GgmlCpuGraphBuilder,
        layer: &XasrEncoderLayerWeights,
        dim: usize,
        frames: usize,
        left_context_len: usize,
        num_heads: usize,
        query_head_dim: usize,
    ) -> (result: Result<Self, GgmlCpuGraphError>)
        requires
            layer.norm_log_scale@.len() > 0,
        ensures
            final(graph).grew_from(*old(graph)),
            match layer_allocation_refusal(
                *layer,
                frames,
                left_context_len,
                num_heads,
                query_head_dim,
            ) {
                Some(reason) => result == Err::<Self, GgmlCpuGraphError>(
                    layer_graph::refusal_error(reason),
                ),
                None => {
                    let shape = layer_shape(
                        *layer,
                        dim,
                        frames,
                        left_context_len,
                        num_heads,
                        query_head_dim,
                    );
                    &&& result is Ok
                    &&& result->Ok_0.shape == shape
                    &&& result->Ok_0.tensors == layer_handles(old(graph)@.len() as int)
                    &&& result->Ok_0.tensors.layer_head.feed_forward1.in_proj_weight.id == old(
                        graph,
                    )@.len()
                    &&& result->Ok_0.tensors.within(*final(graph))
                    &&& allocated(
                        *old(graph),
                        *final(graph),
                        layer_nodes(old(graph).recorded(), *layer, shape),
                    )
                    &&& final(graph)@.len() == old(graph)@.len() + LAYER_LEAF_COUNT
                },
            },
    {
        proof {
            reveal(XasrZipformerLayerGraphTensors::within);
            reveal(layer_handles);
            reveal(layer_nodes);
            graph.lemma_view_len();
        }
        let query_dim = product_or(
            num_heads,
            query_head_dim,
            "xasr stack0 query dimension overflows",
        )?;
        let k_len = sum_or(left_context_len, frames, "xasr stack0 key length overflows")?;
        let attn = &layer.self_attn_weights;
        let pos_dim = attn.linear_pos.input_dim;
        let pos_output_dim = attn.linear_pos.output_dim;
        let doubled_frames = product_or(
            frames,
            2,
            "xasr stack0 relative position length overflows",
        )?;
        let rel_end = sum_or(
            left_context_len,
            doubled_frames,
            "xasr stack0 relative position length overflows",
        )?;
        if rel_end == 0 {
            return Err(
                GgmlCpuGraphError::UnsupportedInputs {
                    reason: "xasr stack0 relative position length overflows",
                },
            );
        }
        let rel_len = rel_end - 1;
        let nonlin_hidden_dim = layer.nonlin_attention.out_proj.weight.input_dim;
        let self1_value_dim = layer.self_attn1.in_proj.weight.output_dim;
        let self2_value_dim = layer.self_attn2.in_proj.weight.output_dim;
        let conv1_causal_kernel_len = conv1d_kernel_len(&layer.conv_module1)?;
        let conv1_chunk_kernel_len = chunk_conv1d_kernel_len(&layer.conv_module1)?;
        let conv1_cache_len = conv1_chunk_kernel_len / 2;
        let conv2_causal_kernel_len = conv1d_kernel_len(&layer.conv_module2)?;
        let conv2_chunk_kernel_len = chunk_conv1d_kernel_len(&layer.conv_module2)?;
        let conv2_cache_len = conv2_chunk_kernel_len / 2;
        let feed_forward1 = allocate_feed_forward_tensors(graph, &layer.feed_forward1);
        let attention_weights = XasrSelfAttentionWeightsGraphTensors {
            cache: graph.new_tensor_2d_f32(query_dim, left_context_len, "xasr_stack0_attn_cache"),
            mask: graph.new_tensor_2d_f32(k_len, frames, "xasr_stack0_attn_mask"),
            pos_embedding: graph.new_tensor_2d_f32(pos_dim, rel_len, "xasr_stack0_attn_pos"),
            in_proj_weight: allocate_linear_weight_tensor(
                graph,
                &attn.in_proj,
                "xasr_stack0_attn_in_w",
            ),
            in_proj_bias: allocate_linear_bias_tensor(
                graph,
                &attn.in_proj,
                "xasr_stack0_attn_in_b",
            ),
            linear_pos_weight: allocate_stored_linear_weight_tensor(
                graph,
                &attn.linear_pos,
                "xasr_stack0_attn_pos_w",
            ),
        };
        let nonlin_cache = graph.new_tensor_2d_f32(
            nonlin_hidden_dim,
            left_context_len,
            "xasr_stack0_nonlin_cache",
        );
        let nonlin_in_proj_weight = allocate_linear_weight_tensor(
            graph,
            &layer.nonlin_attention.in_proj,
            "xasr_stack0_nonlin_in_w",
        );
        let nonlin_in_proj_bias = allocate_linear_bias_tensor(
            graph,
            &layer.nonlin_attention.in_proj,
            "xasr_stack0_nonlin_in_b",
        );
        let nonlin_out_proj_weight = allocate_linear_weight_tensor(
            graph,
            &layer.nonlin_attention.out_proj,
            "xasr_stack0_nonlin_out_w",
        );
        let nonlin_out_proj_bias = allocate_linear_bias_tensor(
            graph,
            &layer.nonlin_attention.out_proj,
            "xasr_stack0_nonlin_out_b",
        );
        let self1_cache = graph.new_tensor_2d_f32(
            self1_value_dim,
            left_context_len,
            "xasr_stack0_self1_cache",
        );
        let self1_in_proj_weight = allocate_linear_weight_tensor(
            graph,
            &layer.self_attn1.in_proj,
            "xasr_stack0_self1_in_w",
        );
        let self1_in_proj_bias = allocate_linear_bias_tensor(
            graph,
            &layer.self_attn1.in_proj,
            "xasr_stack0_self1_in_b",
        );
        let self1_out_proj_weight = allocate_linear_weight_tensor(
            graph,
            &layer.self_attn1.out_proj,
            "xasr_stack0_self1_out_w",
        );
        let self1_out_proj_bias = allocate_linear_bias_tensor(
            graph,
            &layer.self_attn1.out_proj,
            "xasr_stack0_self1_out_b",
        );
        let conv_module1 = allocate_convolution_module_tensors(
            graph,
            &layer.conv_module1,
            dim,
            frames,
            conv1_cache_len,
        )?;
        let feed_forward2 = allocate_feed_forward_tensors(graph, &layer.feed_forward2);
        let bypass_mid_scale = graph.new_tensor_1d_f32(dim, "xasr_stack0_bypass_mid_scale");
        let self2_cache = graph.new_tensor_2d_f32(
            self2_value_dim,
            left_context_len,
            "xasr_stack0_self2_cache",
        );
        let self2_in_proj_weight = allocate_linear_weight_tensor(
            graph,
            &layer.self_attn2.in_proj,
            "xasr_stack0_self2_in_w",
        );
        let self2_in_proj_bias = allocate_linear_bias_tensor(
            graph,
            &layer.self_attn2.in_proj,
            "xasr_stack0_self2_in_b",
        );
        let self2_out_proj_weight = allocate_linear_weight_tensor(
            graph,
            &layer.self_attn2.out_proj,
            "xasr_stack0_self2_out_w",
        );
        let self2_out_proj_bias = allocate_linear_bias_tensor(
            graph,
            &layer.self_attn2.out_proj,
            "xasr_stack0_self2_out_b",
        );
        let conv_module2 = allocate_convolution_module_tensors(
            graph,
            &layer.conv_module2,
            dim,
            frames,
            conv2_cache_len,
        )?;
        let feed_forward3 = allocate_feed_forward_tensors(graph, &layer.feed_forward3);
        let norm_bias = graph.new_tensor_1d_f32(dim, "xasr_stack0_norm_bias");
        let bypass_scale = graph.new_tensor_1d_f32(dim, "xasr_stack0_bypass_scale");
        let tensors = XasrZipformerLayerGraphTensors {
            layer_head: XasrLayerHeadGraphTensors {
                feed_forward1,
                attention_weights,
                nonlin_cache,
                nonlin_in_proj_weight,
                nonlin_in_proj_bias,
                nonlin_out_proj_weight,
                nonlin_out_proj_bias,
                self1_cache,
                self1_in_proj_weight,
                self1_in_proj_bias,
                self1_out_proj_weight,
                self1_out_proj_bias,
                conv_module1,
                feed_forward2,
                bypass_mid_scale,
            },
            self2_cache,
            self2_in_proj_weight,
            self2_in_proj_bias,
            self2_out_proj_weight,
            self2_out_proj_bias,
            layer_tail: XasrLayerTailGraphTensors {
                conv_module2,
                feed_forward3,
                norm_bias,
                bypass_scale,
            },
        };
        let shape = XasrZipformerLayerGraphShape {
            layer_head: XasrLayerHeadGraphShape {
                dim,
                frames,
                left_context_len,
                num_heads,
                query_head_dim,
                pos_dim,
                pos_output_dim,
                nonlin_hidden_dim,
                self1_value_dim,
                conv1_cache_len,
                conv1_causal_kernel_len,
                conv1_chunk_kernel_len,
            },
            self2_value_dim,
            layer_tail: XasrLayerTailGraphShape {
                dim,
                frames,
                conv_cache_len: conv2_cache_len,
                conv_causal_kernel_len: conv2_causal_kernel_len,
                conv_chunk_kernel_len: conv2_chunk_kernel_len,
                norm_log_scale: layer.norm_log_scale[0],
            },
        };
        Ok(XasrZipformerLayerGraphBinding { tensors, shape })
    }

    /// The tensors of the layer.
    pub fn tensors(&self) -> (tensors: XasrZipformerLayerGraphTensors)
        ensures
            tensors == self.tensors,
    {
        self.tensors
    }

    /// The dimensions of the layer.
    pub fn shape(&self) -> (shape: XasrZipformerLayerGraphShape)
        ensures
            shape == self.shape,
    {
        self.shape
    }

    /// All leaf tensors of the layer.
    #[verifier::rlimit(40)]
    pub fn input_tensors(&self) -> (list: Vec<GgmlCpuTensor>)
        ensures
            list@ == self.inputs(),
    {
        proof {
            reveal(XasrZipformerLayerGraphBinding::inputs);
        }
        let tensors = self.tensors;
        let head = tensors.layer_head;
        let attn = head.attention_weights;
        let conv1 = head.conv_module1;
        let tail = tensors.layer_tail;
        let conv2 = tail.conv_module2;
        let list = vec![
            head.feed_forward1.in_proj_weight,
            head.feed_forward1.in_proj_bias,
            head.feed_forward1.out_proj_weight,
            head.feed_forward1.out_proj_bias,
            head.feed_forward1.swoosh_l_offset,
            head.feed_forward1.swoosh_l_shift,
            attn.cache,
            attn.mask,
            attn.pos_embedding,
            attn.in_proj_weight,
            attn.in_proj_bias,
            attn.linear_pos_weight,
            head.nonlin_cache,
            head.nonlin_in_proj_weight,
            head.nonlin_in_proj_bias,
            head.nonlin_out_proj_weight,
            head.nonlin_out_proj_bias,
            head.self1_cache,
            head.self1_in_proj_weight,
            head.self1_in_proj_bias,
            head.self1_out_proj_weight,
            head.self1_out_proj_bias,
            conv1.cache,
            conv1.in_proj_weight,
            conv1.in_proj_bias,
            conv1.causal_kernel,
            conv1.causal_bias,
            conv1.chunk_kernel,
            conv1.chunk_bias,
            conv1.chunk_scale,
            conv1.out_proj_weight,
            conv1.out_proj_bias,
            conv1.swoosh_r_offset,
            conv1.swoosh_r_shift,
            head.feed_forward2.in_proj_weight,
            head.feed_forward2.in_proj_bias,
            head.feed_forward2.out_proj_weight,
            head.feed_forward2.out_proj_bias,
            head.feed_forward2.swoosh_l_offset,
            head.feed_forward2.swoosh_l_shift,
            head.bypass_mid_scale,
            tensors.self2_cache,
            tensors.self2_in_proj_weight,
            tensors.self2_in_proj_bias,
            tensors.self2_out_proj_weight,
            tensors.self2_out_proj_bias,
            conv2.cache,
            conv2.in_proj_weight,
            conv2.in_proj_bias,
            conv2.causal_kernel,
            conv2.causal_bias,
            conv2.chunk_kernel,
            conv2.chunk_bias,
            conv2.chunk_scale,
            conv2.out_proj_weight,
            conv2.out_proj_bias,
            conv2.swoosh_r_offset,
            conv2.swoosh_r_shift,
            tail.feed_forward3.in_proj_weight,
            tail.feed_forward3.in_proj_bias,
            tail.feed_forward3.out_proj_weight,
            tail.feed_forward3.out_proj_bias,
            tail.feed_forward3.swoosh_l_offset,
            tail.feed_forward3.swoosh_l_shift,
            tail.norm_bias,
            tail.bypass_scale,
        ];
        list
    }

    /// The leaf tensors whose contents stay from chunk to chunk.
    #[verifier::rlimit(40)]
    pub fn static_input_tensors(&self) -> (list: Vec<GgmlCpuTensor>)
        ensures
            list@ == self.static_inputs(),
    {
        proof {
            reveal(XasrZipformerLayerGraphBinding::static_inputs);
        }
        let tensors = self.tensors;
        let head = tensors.layer_head;
        let attn = head.attention_weights;
        let conv1 = head.conv_module1;
        let tail = tensors.layer_tail;
        let conv2 = tail.conv_module2;
        let list = vec![
            head.feed_forward1.in_proj_weight,
            head.feed_forward1.in_proj_bias,
            head.feed_forward1.out_proj_weight,
            head.feed_forward1.out_proj_bias,
            head.feed_forward1.swoosh_l_offset,
            head.feed_forward1.swoosh_l_shift,
            attn.mask,
            attn.pos_embedding,
            attn.in_proj_weight,
            attn.in_proj_bias,
            attn.linear_pos_weight,
            head.nonlin_in_proj_weight,
            head.nonlin_in_proj_bias,
            head.nonlin_out_proj_weight,
            head.nonlin_out_proj_bias,
            head.self1_in_proj_weight,
            head.self1_in_proj_bias,
            head.self1_out_proj_weight,
            head.self1_out_proj_bias,
            conv1.in_proj_weight,
            conv1.in_proj_bias,
            conv1.causal_kernel,
            conv1.causal_bias,
            conv1.chunk_kernel,
            conv1.chunk_bias,
            conv1.chunk_scale,
            conv1.out_proj_weight,
            conv1.out_proj_bias,
            conv1.swoosh_r_offset,
            conv1.swoosh_r_shift,
            head.feed_forward2.in_proj_weight,
            head.feed_forward2.in_proj_bias,
            head.feed_forward2.out_proj_weight,
            head.feed_forward2.out_proj_bias,
            head.feed_forward2.swoosh_l_offset,
            head.feed_forward2.swoosh_l_shift,
            head.bypass_mid_scale,
            tensors.self2_in_proj_weight,
            tensors.self2_in_proj_bias,
            tensors.self2_out_proj_weight,
            tensors.self2_out_proj_bias,
            conv2.in_proj_weight,
            conv2.in_proj_bias,
            conv2.causal_kernel,
            conv2.causal_bias,
            conv2.chunk_kernel,
            conv2.chunk_bias,
            conv2.chunk_scale,
            conv2.out_proj_weight,
            conv2.out_proj_bias,
            conv2.swoosh_r_offset,
            conv2.swoosh_r_shift,
            tail.feed_forward3.in_proj_weight,
            tail.feed_forward3.in_proj_bias,
            tail.feed_forward3.out_proj_weight,
            tail.feed_forward3.out_proj_bias,
            tail.feed_forward3.swoosh_l_offset,
            tail.feed_forward3.swoosh_l_shift,
            tail.norm_bias,
            tail.bypass_scale,
        ];
        list
    }

    /// Marks the leaf tensors as graph inputs.
    pub fn set_inputs(&self, graph: &mut GgmlCpuGraphBuilder)
        requires
            self.tensors.within(*old(graph)),
        ensures
            noted(*old(graph), *final(graph), input_marks(old(graph).pending(), self.inputs())),
    {
        proof {
            reveal(XasrZipformerLayerGraphTensors::within);
            reveal(XasrZipformerLayerGraphBinding::inputs);
        }
        let list = self.input_tensors();
        mark_inputs(graph, &list);
    }

    /// Marks the leaf tensors as graph inputs and keeps those alive whose
    /// contents stay from chunk to chunk.
    pub fn set_persistent_inputs(&self, graph: &mut GgmlCpuGraphBuilder)
        requires
            self.tensors.within(*old(graph)),
        ensures
            noted(
                *old(graph),
                *final(graph),
                output_marks(
                    input_marks(old(graph).pending(), self.inputs()),
                    self.static_inputs(),
                ),
            ),
    {
        proof {
            reveal(XasrZipformerLayerGraphTensors::within);
            reveal(XasrZipformerLayerGraphBinding::static_inputs);
        }
        self.set_inputs(graph);
        let list = self.static_input_tensors();
        mark_outputs(graph, &list);
    }
}

/// The inputs of a fresh layer are its allocated leaf tensors, in order.
pub proof fn law_layer_inputs_are_the_allocated_leaves(
    base: int,
    shape: XasrZipformerLayerGraphShape,
)
    ensures
        (XasrZipformerLayerGraphBinding { tensors: layer_handles(base), shape }).inputs()
            =~= Seq::new(LAYER_LEAF_COUNT as nat, |i: int| handle(base, i)),
{
    reveal(XasrZipformerLayerGraphBinding::inputs);
    reveal(layer_handles);
}

} // verus!
