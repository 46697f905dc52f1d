//! A device that has taken the uploads of a graph holds its weights.

use vstd::prelude::*;
use crate::attention_graph::{AttentionBlockValues, XasrSelfAttentionWeightsGraphTensors};
use crate::encoder_tables::{
    attention_mask, mask_row, position_row, position_table, scale_dims_fit, scale_table,
    scale_value,
};
use crate::encoder_upload::{
    attention_uploads, cache_contents, convolution_uploads, feed_forward_uploads, floats,
    linear_uploads, SWOOSH_L_OFFSET, SWOOSH_L_SHIFT, SWOOSH_R_OFFSET, SWOOSH_R_SHIFT,
};
use crate::encoder_weights::{
    StoredLinear, XasrConv1dWeights, XasrConvolutionModuleWeights, XasrLinearPairWeights,
    XasrLinearWithBias, XasrSelfAttentionWeightsWeights,
};
use crate::graph::{EffectView, GgmlCpuGraphBuilder, GgmlCpuTensor};
use crate::layer_graph::{
    XasrConvolutionModuleGraphShape, XasrConvolutionModuleGraphTensors,
    XasrFeedForwardGraphTensors,
};
use crate::parity::Device;
use crate::rows;
use crate::tensor_value::{Shape4, TensorValue};
use crate::zipformer_graph::XasrLayerHeadGraphShape;

verus! {

/// The row-major position of an element.
pub open spec fn place_in(x: TensorValue, i0: int, i1: int, i2: int, i3: int) -> int {
    ((i3 * x.ne2 + i2) * x.ne1 + i1) * x.ne0 + i0
}

impl Device {
    /// The leaf holds what was uploaded into it.
    pub open spec fn carries_out(self, graph: GgmlCpuGraphBuilder, effect: EffectView) -> bool {
        match effect {
            EffectView::UploadFloats { tensor, values, .. } => {
                let x = graph@[tensor];
                forall|i0: int, i1: int, i2: int, i3: int|
                    0 <= i0 < x.ne0 && 0 <= i1 < x.ne1 && 0 <= i2 < x.ne2 && 0 <= i3 < x.ne3
                        ==> #[trigger] (self.leaves)(tensor, i0, i1, i2, i3) == values[place_in(
                        x,
                        i0,
                        i1,
                        i2,
                        i3,
                    )]
            },
            _ => true,
        }
    }

    /// All uploads have been carried out.
    pub open spec fn carried_out(
        self,
        graph: GgmlCpuGraphBuilder,
        effects: Seq<EffectView>,
    ) -> bool {
        forall|j: int|
            0 <= j < effects.len() ==> self.carries_out(graph, #[trigger] effects[j])
    }
}

/// The tensor is a leaf of these dimensions.
pub open spec fn is_leaf(
    graph: GgmlCpuGraphBuilder,
    tensor: GgmlCpuTensor,
    ne0: int,
    ne1: int,
    ne2: int,
) -> bool {
    let x = graph.value(tensor);
    &&& x.has_shape(ne0, ne1, ne2, 1)
    &&& x == TensorValue::leaf(
        tensor.id as int,
        (Shape4 { ne0: ne0 as usize, ne1: ne1 as usize, ne2: ne2 as usize, ne3: 1 }),
    )
}

/// The last of several uploads.
pub proof fn lemma_last_upload(
    device: Device,
    graph: GgmlCpuGraphBuilder,
    pending: Seq<EffectView>,
    effect: EffectView,
)
    requires
        device.carried_out(graph, pending.push(effect)),
    ensures
        device.carried_out(graph, pending),
        device.carries_out(graph, effect),
{
    let all = pending.push(effect);
    assert(all[pending.len() as int] == effect);
    assert forall|j: int| 0 <= j < pending.len() implies device.carries_out(
        graph,
        #[trigger] pending[j],
    ) by {
        assert(all[j] == pending[j]);
    }
}

/// An element of an uploaded leaf.
proof fn lemma_uploaded_at(
    device: Device,
    graph: GgmlCpuGraphBuilder,
    tensor: GgmlCpuTensor,
    values: Seq<u32>,
    name: Seq<char>,
    i0: int,
    i1: int,
    i2: int,
)
    requires
        device.carries_out(graph, floats(tensor, values, name)),
        0 <= i0 < graph.value(tensor).ne0,
        0 <= i1 < graph.value(tensor).ne1,
        0 <= i2 < graph.value(tensor).ne2,
        graph.value(tensor).ne3 == 1,
    ensures
        (device.leaves)(tensor.id as int, i0, i1, i2, 0) == values[(i2 * graph.value(tensor).ne1
            + i1) * graph.value(tensor).ne0 + i0],
{
    let x = graph.value(tensor);
    let id = tensor.id as int;
    let effect = floats(tensor, values, name);
    assert(effect is UploadFloats && effect->UploadFloats_tensor == id
        && effect->UploadFloats_values == values);
    assert(device.carries_out(graph, effect));
    assert((device.leaves)(id, i0, i1, i2, 0) == values[place_in(x, i0, i1, i2, 0)]);
    let zero: int = 0;
    assert(((zero * x.ne2 + i2) * x.ne1 + i1) * x.ne0 + i0 == (i2 * x.ne1 + i1) * x.ne0 + i0)
        by (nonlinear_arith)
        requires
            zero == 0,
    ;
    assert(place_in(x, i0, i1, i2, zero) == (i2 * x.ne1 + i1) * x.ne0 + i0);
}

/// An uploaded matrix.
pub proof fn lemma_uploaded_rows(
    device: Device,
    graph: GgmlCpuGraphBuilder,
    pending: Seq<EffectView>,
    tensor: GgmlCpuTensor,
    values: Seq<u32>,
    name: Seq<char>,
    dim: int,
    frames: int,
)
    requires
        device.carried_out(graph, pending.push(floats(tensor, values, name))),
        is_leaf(graph, tensor, dim, frames, 1),
        values.len() == frames * dim,
    ensures
        device.carried_out(graph, pending),
        device.holds(graph.value(tensor), values, dim, frames),
{
    lemma_last_upload(device, graph, pending, floats(tensor, values, name));
    let x = graph.value(tensor);
    assert forall|c: int, t: int| 0 <= c < dim && 0 <= t < frames implies device.value(
        #[trigger] (x.at)(c, t, 0, 0),
    ) == values[t * dim + c] by {
        let id = tensor.id as int;
        lemma_uploaded_at(device, graph, tensor, values, name, c, t, 0);
        assert((0 * x.ne1 + t) * x.ne0 + c == t * dim + c) by (nonlinear_arith)
            requires
                x.ne0 == dim,
        ;
        assert((device.leaves)(id, c, t, 0, 0) == values[t * dim + c]);
    }
}

/// An uploaded list.
pub proof fn lemma_uploaded_list(
    device: Device,
    graph: GgmlCpuGraphBuilder,
    pending: Seq<EffectView>,
    tensor: GgmlCpuTensor,
    values: Seq<u32>,
    name: Seq<char>,
)
    requires
        device.carried_out(graph, pending.push(floats(tensor, values, name))),
        is_leaf(graph, tensor, values.len() as int, 1, 1),
    ensures
        device.carried_out(graph, pending),
        device.holds_list(graph.value(tensor), values),
{
    let n = values.len() as int;
    assert(1 * n == n);
    lemma_uploaded_rows(device, graph, pending, tensor, values, name, n, 1);
    let x = graph.value(tensor);
    assert forall|c: int| 0 <= c < n implies device.value(#[trigger] (x.at)(c, 0, 0, 0))
        == values[c] by {
        assert(0 * n + c == c) by (nonlinear_arith);
        assert(device.value((x.at)(c, 0, 0, 0)) == values[0 * n + c]);
    }
}

/// Uploaded channels.
proof fn lemma_uploaded_channels(
    device: Device,
    graph: GgmlCpuGraphBuilder,
    pending: Seq<EffectView>,
    tensor: GgmlCpuTensor,
    values: Seq<u32>,
    name: Seq<char>,
    len: int,
    channels: int,
)
    requires
        device.carried_out(graph, pending.push(floats(tensor, values, name))),
        is_leaf(graph, tensor, len, 1, channels),
        values.len() == channels * len,
    ensures
        device.carried_out(graph, pending),
        device.holds_channels(graph.value(tensor), values, len, channels),
{
    lemma_last_upload(device, graph, pending, floats(tensor, values, name));
    let x = graph.value(tensor);
    assert forall|t: int, c: int| 0 <= t < len && 0 <= c < channels implies device.value(
        #[trigger] (x.at)(t, 0, c, 0),
    ) == values[c * len + t] by {
        let id = tensor.id as int;
        lemma_uploaded_at(device, graph, tensor, values, name, t, 0, c);
        assert((c * x.ne1 + 0) * x.ne0 + t == c * len + t) by (nonlinear_arith)
            requires
                x.ne0 == len,
                x.ne1 == 1,
        ;
        assert((device.leaves)(id, t, 0, c, 0) == values[c * len + t]);
    }
}

/// A matrix of floats with as many values as its dimensions say.
pub open spec fn matrix_complete(weight: StoredLinear) -> bool {
    &&& weight.native is None
    &&& weight.values@.len() == weight.output_dim * weight.input_dim
}

/// A linear layer of floats.
pub open spec fn linear_complete(linear: XasrLinearWithBias) -> bool {
    &&& matrix_complete(linear.weight)
    &&& linear.bias@.len() == linear.weight.output_dim
}

/// The tensors are leaves for a linear layer.
pub open spec fn linear_leaves(
    graph: GgmlCpuGraphBuilder,
    weight: GgmlCpuTensor,
    bias: GgmlCpuTensor,
    linear: XasrLinearWithBias,
) -> bool {
    &&& is_leaf(
        graph,
        weight,
        linear.weight.input_dim as int,
        linear.weight.output_dim as int,
        1,
    )
    &&& is_leaf(graph, bias, linear.bias@.len() as int, 1, 1)
}

/// An uploaded linear layer.
pub proof fn lemma_uploaded_linear(
    device: Device,
    graph: GgmlCpuGraphBuilder,
    pending: Seq<EffectView>,
    weight: GgmlCpuTensor,
    bias: GgmlCpuTensor,
    linear: XasrLinearWithBias,
)
    requires
        device.carried_out(graph, linear_uploads(pending, weight, bias, linear)),
        linear_leaves(graph, weight, bias, linear),
        linear_complete(linear),
    ensures
        device.carried_out(graph, pending),
        device.holds_linear(graph.value(weight), graph.value(bias), linear),
{
    let with_weight = pending.push(
        floats(weight, linear.weight.values@, "xasr_linear_weight"@),
    );
    lemma_uploaded_list(
        device,
        graph,
        with_weight,
        bias,
        linear.bias@,
        "xasr_linear_bias"@,
    );
    lemma_uploaded_rows(
        device,
        graph,
        pending,
        weight,
        linear.weight.values@,
        "xasr_linear_weight"@,
        linear.weight.input_dim as int,
        linear.weight.output_dim as int,
    );
}

/// The tensors are leaves for a feed-forward module.
pub open spec fn feed_forward_leaves(
    graph: GgmlCpuGraphBuilder,
    tensors: XasrFeedForwardGraphTensors,
    weights: XasrLinearPairWeights,
) -> bool {
    &&& linear_leaves(graph, tensors.in_proj_weight, tensors.in_proj_bias, weights.in_proj)
    &&& linear_leaves(graph, tensors.out_proj_weight, tensors.out_proj_bias, weights.out_proj)
    &&& is_leaf(graph, tensors.swoosh_l_offset, 1, 1, 1)
    &&& is_leaf(graph, tensors.swoosh_l_shift, 1, 1, 1)
}

/// An uploaded feed-forward module.
pub proof fn lemma_uploaded_feed_forward(
    device: Device,
    graph: GgmlCpuGraphBuilder,
    pending: Seq<EffectView>,
    tensors: XasrFeedForwardGraphTensors,
    weights: XasrLinearPairWeights,
)
    requires
        device.carried_out(graph, feed_forward_uploads(pending, tensors, weights)),
        feed_forward_leaves(graph, tensors, weights),
        linear_complete(weights.in_proj),
        linear_complete(weights.out_proj),
        weights.out_proj.weight.input_dim == weights.in_proj.weight.output_dim,
    ensures
        device.carried_out(graph, pending),
        device.holds_feed_forward(graph, tensors, weights),
{
    let with_in = linear_uploads(
        pending,
        tensors.in_proj_weight,
        tensors.in_proj_bias,
        weights.in_proj,
    );
    let with_out = linear_uploads(
        with_in,
        tensors.out_proj_weight,
        tensors.out_proj_bias,
        weights.out_proj,
    );
    let with_offset = with_out.push(
        floats(tensors.swoosh_l_offset, seq![SWOOSH_L_OFFSET], "xasr_ff_swoosh_l_offset"@),
    );
    lemma_uploaded_list(
        device,
        graph,
        with_offset,
        tensors.swoosh_l_shift,
        seq![SWOOSH_L_SHIFT],
        "xasr_ff_swoosh_l_shift"@,
    );
    lemma_uploaded_list(
        device,
        graph,
        with_out,
        tensors.swoosh_l_offset,
        seq![SWOOSH_L_OFFSET],
        "xasr_ff_swoosh_l_offset"@,
    );
    lemma_uploaded_linear(
        device,
        graph,
        with_in,
        tensors.out_proj_weight,
        tensors.out_proj_bias,
        weights.out_proj,
    );
    lemma_uploaded_linear(
        device,
        graph,
        pending,
        tensors.in_proj_weight,
        tensors.in_proj_bias,
        weights.in_proj,
    );
}

/// The sizes of the tables.
proof fn lemma_table_sizes(
    device: Device,
    frames: int,
    left_context_len: int,
    valid: int,
    pos_dim: int,
    weights: XasrConvolutionModuleWeights,
    channels: int,
)
    requires
        0 < frames,
        0 <= left_context_len,
        0 <= pos_dim,
        0 <= channels,
    ensures
        attention_mask(left_context_len, frames, valid).len() == frames * (left_context_len
            + frames),
        position_table(device.host, frames, left_context_len, pos_dim).len() == (left_context_len
            + frames * 2 - 1) * pos_dim,
        scale_table(device.host, weights, channels, frames).len() == channels * frames,
{
    let m = device.host;
    let mask = |t: int| mask_row(left_context_len, frames, valid);
    rows::lemma_joined_len(frames, mask, left_context_len + frames);
    let position = |row: int| position_row(m, pos_dim, row - (frames + left_context_len - 1));
    rows::lemma_joined_len(left_context_len + frames * 2 - 1, position, pos_dim);
    let scale = |c: int| Seq::new(frames as nat, |t: int| scale_value(m, weights, c, t, frames));
    rows::lemma_joined_len(channels, scale, frames);
}

/// The tensors are leaves for the attention of a layer.
pub open spec fn attention_leaves(
    graph: GgmlCpuGraphBuilder,
    tensors: XasrSelfAttentionWeightsGraphTensors,
    weights: XasrSelfAttentionWeightsWeights,
    shape: XasrLayerHeadGraphShape,
) -> bool {
    let left = shape.left_context_len as int;
    &&& is_leaf(graph, tensors.cache, shape.num_heads * shape.query_head_dim, left, 1)
    &&& is_leaf(graph, tensors.mask, left + shape.frames, shape.frames as int, 1)
    &&& is_leaf(
        graph,
        tensors.pos_embedding,
        shape.pos_dim as int,
        left + shape.frames * 2 - 1,
        1,
    )
    &&& linear_leaves(graph, tensors.in_proj_weight, tensors.in_proj_bias, weights.in_proj)
    &&& is_leaf(
        graph,
        tensors.linear_pos_weight,
        weights.linear_pos.input_dim as int,
        weights.linear_pos.output_dim as int,
        1,
    )
}

/// An uploaded attention.
pub proof fn lemma_uploaded_attention(
    device: Device,
    graph: GgmlCpuGraphBuilder,
    pending: Seq<EffectView>,
    tensors: XasrSelfAttentionWeightsGraphTensors,
    weights: XasrSelfAttentionWeightsWeights,
    shape: XasrLayerHeadGraphShape,
    valid: usize,
    cached_key: Option<Seq<u32>>,
    key: Seq<u32>,
)
    requires
        device.carried_out(
            graph,
            attention_uploads(device.host, pending, tensors, weights, shape, valid, cached_key),
        ),
        attention_leaves(graph, tensors, weights, shape),
        linear_complete(weights.in_proj),
        matrix_complete(weights.linear_pos),
        shape.frames > 0,
        shape.pos_dim == weights.linear_pos.input_dim,
        shape.pos_output_dim == weights.linear_pos.output_dim,
        key == cache_contents(
            (shape.left_context_len * (shape.num_heads * shape.query_head_dim)) as usize,
            cached_key,
        ),
        key.len() == shape.left_context_len * (shape.num_heads * shape.query_head_dim),
    ensures
        device.carried_out(graph, pending),
        device.holds_attention(graph, tensors, weights, key, shape.attention(), valid as int),
{
    let left = shape.left_context_len as int;
    let frames = shape.frames as int;
    let pos_dim = shape.pos_dim as int;
    let mask = attention_mask(left, frames, valid as int);
    let table = position_table(device.host, frames, left, pos_dim);
    lemma_table_sizes(device, frames, left, valid as int, pos_dim, arbitrary(), 0);
    let with_cache = pending.push(floats(tensors.cache, key, "xasr_stack0_attn_cache"@));
    let with_mask = with_cache.push(floats(tensors.mask, mask, "xasr_stack0_attn_mask"@));
    let with_table = with_mask.push(
        floats(tensors.pos_embedding, table, "xasr_stack0_attn_pos"@),
    );
    let with_in = linear_uploads(
        with_table,
        tensors.in_proj_weight,
        tensors.in_proj_bias,
        weights.in_proj,
    );
    lemma_uploaded_rows(
        device,
        graph,
        with_in,
        tensors.linear_pos_weight,
        weights.linear_pos.values@,
        "xasr_stack0_attn_pos_w"@,
        pos_dim,
        shape.pos_output_dim as int,
    );
    lemma_uploaded_linear(
        device,
        graph,
        with_table,
        tensors.in_proj_weight,
        tensors.in_proj_bias,
        weights.in_proj,
    );
    lemma_uploaded_rows(
        device,
        graph,
        with_mask,
        tensors.pos_embedding,
        table,
        "xasr_stack0_attn_pos"@,
        pos_dim,
        left + frames * 2 - 1,
    );
    lemma_uploaded_rows(
        device,
        graph,
        with_cache,
        tensors.mask,
        mask,
        "xasr_stack0_attn_mask"@,
        left + frames,
        frames,
    );
    lemma_uploaded_rows(
        device,
        graph,
        pending,
        tensors.cache,
        key,
        "xasr_stack0_attn_cache"@,
        shape.num_heads * shape.query_head_dim,
        left,
    );
}

/// The tensors are leaves for a cache of values and two linear layers.
pub open spec fn block_leaves(
    graph: GgmlCpuGraphBuilder,
    cache: GgmlCpuTensor,
    in_weight: GgmlCpuTensor,
    in_bias: GgmlCpuTensor,
    out_weight: GgmlCpuTensor,
    out_bias: GgmlCpuTensor,
    in_proj: XasrLinearWithBias,
    out_proj: XasrLinearWithBias,
    value_dim: int,
    left_context_len: int,
) -> bool {
    &&& is_leaf(graph, cache, value_dim, left_context_len, 1)
    &&& linear_leaves(graph, in_weight, in_bias, in_proj)
    &&& linear_leaves(graph, out_weight, out_bias, out_proj)
}

/// An uploaded cache of values and two linear layers.
pub proof fn lemma_uploaded_block(
    device: Device,
    graph: GgmlCpuGraphBuilder,
    pending: Seq<EffectView>,
    cache: GgmlCpuTensor,
    in_weight: GgmlCpuTensor,
    in_bias: GgmlCpuTensor,
    out_weight: GgmlCpuTensor,
    out_bias: GgmlCpuTensor,
    in_proj: XasrLinearWithBias,
    out_proj: XasrLinearWithBias,
    kept: Seq<u32>,
    name: Seq<char>,
    value_dim: int,
    left_context_len: int,
)
    requires
        device.carried_out(
            graph,
            linear_uploads(
                linear_uploads(
                    pending.push(floats(cache, kept, name)),
                    in_weight,
                    in_bias,
                    in_proj,
                ),
                out_weight,
                out_bias,
                out_proj,
            ),
        ),
        block_leaves(
            graph,
            cache,
            in_weight,
            in_bias,
            out_weight,
            out_bias,
            in_proj,
            out_proj,
            value_dim,
            left_context_len,
        ),
        linear_complete(in_proj),
        linear_complete(out_proj),
        kept.len() == left_context_len * value_dim,
    ensures
        device.carried_out(graph, pending),
        device.holds_block(
            (AttentionBlockValues {
                cache: graph.value(cache),
                in_weight: graph.value(in_weight),
                in_bias: graph.value(in_bias),
                out_weight: graph.value(out_weight),
                out_bias: graph.value(out_bias),
            }),
            in_proj,
            out_proj,
            kept,
            value_dim,
            left_context_len,
        ),
{
    let with_cache = pending.push(floats(cache, kept, name));
    let with_in = linear_uploads(with_cache, in_weight, in_bias, in_proj);
    lemma_uploaded_linear(device, graph, with_in, out_weight, out_bias, out_proj);
    lemma_uploaded_linear(device, graph, with_cache, in_weight, in_bias, in_proj);
    lemma_uploaded_rows(
        device,
        graph,
        pending,
        cache,
        kept,
        name,
        value_dim,
        left_context_len,
    );
}

/// The tensors are leaves for a convolution module.
pub open spec fn module_leaves(
    graph: GgmlCpuGraphBuilder,
    tensors: XasrConvolutionModuleGraphTensors,
    weights: XasrConvolutionModuleWeights,
    shape: XasrConvolutionModuleGraphShape,
) -> bool {
    let dim = shape.dim as int;
    &&& is_leaf(graph, tensors.cache, shape.cache_len as int, dim, 1)
    &&& linear_leaves(graph, tensors.in_proj_weight, tensors.in_proj_bias, weights.in_proj)
    &&& is_leaf(
        graph,
        tensors.causal_kernel,
        weights.depthwise_causal_conv.weight.dims@[0] as int,
        1,
        dim,
    )
    &&& is_leaf(graph, tensors.causal_bias, dim, 1, 1)
    &&& is_leaf(
        graph,
        tensors.chunk_kernel,
        weights.depthwise_chunkwise_conv.weight.dims@[0] as int,
        1,
        dim,
    )
    &&& is_leaf(graph, tensors.chunk_bias, dim, 1, 1)
    &&& is_leaf(graph, tensors.chunk_scale, shape.frames as int, dim, 1)
    &&& linear_leaves(graph, tensors.out_proj_weight, tensors.out_proj_bias, weights.out_proj)
    &&& is_leaf(graph, tensors.swoosh_r_offset, 1, 1, 1)
    &&& is_leaf(graph, tensors.swoosh_r_shift, 1, 1, 1)
}

/// A kernel for each channel, with as many values as its dimensions say.
pub open spec fn kernel_complete(weights: XasrConv1dWeights, channels: int) -> bool {
    let dims = weights.weight.dims@;
    &&& dims.len() == 3
    &&& dims[0] > 0
    &&& dims[1] == 1
    &&& dims[2] == channels
    &&& weights.weight.values@.len() == channels * dims[0]
    &&& weights.bias@.len() == channels
}

/// A convolution module of floats.
pub open spec fn module_complete(weights: XasrConvolutionModuleWeights, dim: int) -> bool {
    &&& linear_complete(weights.in_proj)
    &&& weights.in_proj.weight.input_dim == dim
    &&& weights.in_proj.weight.output_dim == 2 * dim
    &&& linear_complete(weights.out_proj)
    &&& weights.out_proj.weight.input_dim == dim
    &&& kernel_complete(weights.depthwise_causal_conv, dim)
    &&& kernel_complete(weights.depthwise_chunkwise_conv, dim)
    &&& scale_dims_fit(weights)
}

/// An uploaded convolution module.
pub proof fn lemma_uploaded_module(
    device: Device,
    graph: GgmlCpuGraphBuilder,
    pending: Seq<EffectView>,
    tensors: XasrConvolutionModuleGraphTensors,
    weights: XasrConvolutionModuleWeights,
    shape: XasrConvolutionModuleGraphShape,
    cache: Option<Seq<u32>>,
    kept: Seq<u32>,
)
    requires
        device.carried_out(
            graph,
            convolution_uploads(
                device.host,
                pending,
                tensors,
                weights,
                shape.dim,
                shape.frames,
                shape.cache_len,
                cache,
            ),
        ),
        module_leaves(graph, tensors, weights, shape),
        module_complete(weights, shape.dim as int),
        shape.frames > 0,
        kept == cache_contents((shape.dim * shape.cache_len) as usize, cache),
        kept.len() == shape.dim * shape.cache_len,
    ensures
        device.carried_out(graph, pending),
        device.holds_module(graph, tensors, weights, kept, shape),
{
    let dim = shape.dim as int;
    let frames = shape.frames as int;
    let causal = weights.depthwise_causal_conv;
    let chunk = weights.depthwise_chunkwise_conv;
    let scales = scale_table(device.host, weights, dim, frames);
    lemma_table_sizes(device, frames, 0, 0, 0, weights, dim);
    let with_cache = pending.push(floats(tensors.cache, kept, "xasr_conv_cache"@));
    let with_in = linear_uploads(
        with_cache,
        tensors.in_proj_weight,
        tensors.in_proj_bias,
        weights.in_proj,
    );
    let with_causal = with_in.push(
        floats(tensors.causal_kernel, causal.weight.values@, "xasr_conv_causal_w"@),
    );
    let with_causal_bias = with_causal.push(
        floats(tensors.causal_bias, causal.bias@, "xasr_conv_causal_b"@),
    );
    let with_chunk = with_causal_bias.push(
        floats(tensors.chunk_kernel, chunk.weight.values@, "xasr_conv_chunk_w"@),
    );
    let with_chunk_bias = with_chunk.push(
        floats(tensors.chunk_bias, chunk.bias@, "xasr_conv_chunk_b"@),
    );
    let with_scale = with_chunk_bias.push(
        floats(tensors.chunk_scale, scales, "xasr_conv_chunk_scale"@),
    );
    let with_out = linear_uploads(
        with_scale,
        tensors.out_proj_weight,
        tensors.out_proj_bias,
        weights.out_proj,
    );
    let with_offset = with_out.push(
        floats(tensors.swoosh_r_offset, seq![SWOOSH_R_OFFSET], "xasr_conv_swoosh_r_offset"@),
    );
    lemma_uploaded_list(
        device,
        graph,
        with_offset,
        tensors.swoosh_r_shift,
        seq![SWOOSH_R_SHIFT],
        "xasr_conv_swoosh_r_shift"@,
    );
    lemma_uploaded_list(
        device,
        graph,
        with_out,
        tensors.swoosh_r_offset,
        seq![SWOOSH_R_OFFSET],
        "xasr_conv_swoosh_r_offset"@,
    );
    lemma_uploaded_linear(
        device,
        graph,
        with_scale,
        tensors.out_proj_weight,
        tensors.out_proj_bias,
        weights.out_proj,
    );
    lemma_uploaded_rows(
        device,
        graph,
        with_chunk_bias,
        tensors.chunk_scale,
        scales,
        "xasr_conv_chunk_scale"@,
        frames,
        dim,
    );
    lemma_uploaded_list(
        device,
        graph,
        with_chunk,
        tensors.chunk_bias,
        chunk.bias@,
        "xasr_conv_chunk_b"@,
    );
    lemma_uploaded_channels(
        device,
        graph,
        with_causal_bias,
        tensors.chunk_kernel,
        chunk.weight.values@,
        "xasr_conv_chunk_w"@,
        chunk.weight.dims@[0] as int,
        dim,
    );
    lemma_uploaded_list(
        device,
        graph,
        with_causal,
        tensors.causal_bias,
        causal.bias@,
        "xasr_conv_causal_b"@,
    );
    lemma_uploaded_channels(
        device,
        graph,
        with_in,
        tensors.causal_kernel,
        causal.weight.values@,
        "xasr_conv_causal_w"@,
        causal.weight.dims@[0] as int,
        dim,
    );
    lemma_uploaded_linear(
        device,
        graph,
        with_cache,
        tensors.in_proj_weight,
        tensors.in_proj_bias,
        weights.in_proj,
    );
    lemma_uploaded_rows(
        device,
        graph,
        pending,
        tensors.cache,
        kept,
        "xasr_conv_cache"@,
        shape.cache_len as int,
        dim,
    );
}

} // verus!
