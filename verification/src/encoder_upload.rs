//! Contents of the leaf tensors of the encoder graphs.

use vstd::prelude::*;
use vstd::string::StringExecFns;
use crate::attention_graph::XasrSelfAttentionWeightsGraphTensors;
use crate::bits::ONE_BITS;
use crate::encoder_binding::{noted, partly_noted, XasrZipformerLayerGraphBinding};
use crate::encoder_error::{shape_error, XasrEncoderGraphError};
use crate::encoder_tables;
use crate::encoder_tables::{
    attention_mask_values_for_graph, chunkwise_conv_scale_values_for_graph,
    compact_relative_positional_encoding_for_graph, shape_outcome,
};
use crate::encoder_weights::{
    StoredLinear, XasrConv2dWeights, XasrConvolutionModuleWeights, XasrEncoderLayerWeights,
    XasrLinearPairWeights, XasrLinearWithBias, XasrSelfAttentionWeightsWeights,
};
use crate::float_ops;
use crate::float_ops::{FloatModel, FloatOps};
use crate::graph::{EffectView, GgmlCpuGraphBuilder, GgmlCpuTensor};
use crate::layer_graph::{XasrConvolutionModuleGraphTensors, XasrFeedForwardGraphTensors};
use crate::rows::{zero_seq, zeros};
use crate::text;
use crate::text::decimal;
use crate::zipformer_graph::{
    XasrLayerHeadGraphShape, XasrZipformerLayerGraphShape, XasrZipformerLayerGraphTensors,
};

verus! {

/// Offset of SwooshR (1).
pub const SWOOSH_R_OFFSET: u32 = ONE_BITS;

/// Shift of SwooshR (0.3132617).
pub const SWOOSH_R_SHIFT: u32 = 0x3ea0_63d6;

/// Offset of SwooshL (4).
pub const SWOOSH_L_OFFSET: u32 = 0x4080_0000;

/// Shift of SwooshL (0.035).
pub const SWOOSH_L_SHIFT: u32 = 0x3d0f_5c29;

/// The upload of float bit patterns.
pub open spec fn floats(tensor: GgmlCpuTensor, values: Seq<u32>, name: Seq<char>) -> EffectView {
    EffectView::UploadFloats { tensor: tensor.id as int, values, name }
}

/// The upload of a weight matrix: its stored bytes where it has them.
pub open spec fn weight_upload(
    tensor: GgmlCpuTensor,
    weight: StoredLinear,
    name: Seq<char>,
) -> EffectView {
    match weight.native {
        Some(payload) => EffectView::UploadBytes {
            tensor: tensor.id as int,
            bytes: payload.bytes@,
            ggml_type: payload.ggml_type,
            name,
        },
        None => floats(tensor, weight.values@, name),
    }
}

/// What is promised of an upload that may be refused for a shape: nothing but
/// the effects changes; they are the given ones if `known` holds.
pub open spec fn uploads(
    result: Result<(), XasrEncoderGraphError>,
    before: GgmlCpuGraphBuilder,
    after: GgmlCpuGraphBuilder,
    refusal: Option<Seq<char>>,
    known: bool,
    pending: Seq<EffectView>,
) -> bool {
    &&& shape_outcome(result, refusal)
    &&& partly_noted(before, after)
    &&& result is Ok && known ==> after.pending() == pending
}

/// Uploads float bit patterns.
pub fn upload_f32(
    graph: &mut GgmlCpuGraphBuilder,
    tensor: GgmlCpuTensor,
    values: &[u32],
    tensor_name: &'static str,
)
    requires
        old(graph).has(tensor),
    ensures
        noted(
            *old(graph),
            *final(graph),
            old(graph).pending().push(floats(tensor, values@, tensor_name@)),
        ),
{
    graph.set_f32_slice(tensor, values, tensor_name);
}

/// Uploads one float bit pattern.
pub fn upload_one(
    graph: &mut GgmlCpuGraphBuilder,
    tensor: GgmlCpuTensor,
    value: u32,
    tensor_name: &'static str,
)
    requires
        old(graph).has(tensor),
    ensures
        noted(
            *old(graph),
            *final(graph),
            old(graph).pending().push(floats(tensor, seq![value], tensor_name@)),
        ),
{
    let values: Vec<u32> = vec![value];
    assert(values@ =~= seq![value]);
    graph.set_f32_slice(tensor, values.as_slice(), tensor_name);
}

/// Uploads a weight matrix: its stored bytes where it has them.
pub fn upload_stored_linear_weight_tensor(
    graph: &mut GgmlCpuGraphBuilder,
    tensor: GgmlCpuTensor,
    weight: &StoredLinear,
    name: &'static str,
)
    requires
        old(graph).has(tensor),
    ensures
        noted(
            *old(graph),
            *final(graph),
            old(graph).pending().push(weight_upload(tensor, *weight, name@)),
        ),
{
    match &weight.native {
        Some(payload) => graph.set_matmul_weight_bytes(
            tensor,
            payload.bytes.as_slice(),
            payload.ggml_type,
            name,
        ),
        None => upload_f32(graph, tensor, weight.values.as_slice(), name),
    }
}

/// The uploads of a linear layer, appended.
pub open spec fn linear_uploads(
    pending: Seq<EffectView>,
    weight_tensor: GgmlCpuTensor,
    bias_tensor: GgmlCpuTensor,
    weights: XasrLinearWithBias,
) -> Seq<EffectView> {
    pending.push(weight_upload(weight_tensor, weights.weight, "xasr_linear_weight"@)).push(
        floats(bias_tensor, weights.bias@, "xasr_linear_bias"@),
    )
}

/// Uploads a linear layer.
pub fn upload_linear_with_bias_tensors(
    graph: &mut GgmlCpuGraphBuilder,
    weight_tensor: GgmlCpuTensor,
    bias_tensor: GgmlCpuTensor,
    weights: &XasrLinearWithBias,
)
    requires
        old(graph).has(weight_tensor),
        old(graph).has(bias_tensor),
    ensures
        noted(
            *old(graph),
            *final(graph),
            linear_uploads(old(graph).pending(), weight_tensor, bias_tensor, *weights),
        ),
{
    upload_stored_linear_weight_tensor(
        graph,
        weight_tensor,
        &weights.weight,
        "xasr_linear_weight",
    );
    upload_f32(graph, bias_tensor, weights.bias.as_slice(), "xasr_linear_bias");
}

/// The uploads of a two-dimensional convolution, appended.
pub open spec fn conv2d_uploads(
    pending: Seq<EffectView>,
    weight_tensor: GgmlCpuTensor,
    bias_tensor: GgmlCpuTensor,
    weights: XasrConv2dWeights,
) -> Seq<EffectView> {
    pending.push(floats(weight_tensor, weights.weight.values@, "xasr_conv2d_weight"@)).push(
        floats(bias_tensor, weights.bias@, "xasr_conv2d_bias"@),
    )
}

/// Uploads a two-dimensional convolution.
pub fn upload_conv2d_tensors(
    graph: &mut GgmlCpuGraphBuilder,
    weight_tensor: GgmlCpuTensor,
    bias_tensor: GgmlCpuTensor,
    weights: &XasrConv2dWeights,
)
    requires
        old(graph).has(weight_tensor),
        old(graph).has(bias_tensor),
    ensures
        noted(
            *old(graph),
            *final(graph),
            conv2d_uploads(old(graph).pending(), weight_tensor, bias_tensor, *weights),
        ),
{
    upload_f32(graph, weight_tensor, weights.weight.values.as_slice(), "xasr_conv2d_weight");
    upload_f32(graph, bias_tensor, weights.bias.as_slice(), "xasr_conv2d_bias");
}

/// The uploads of a feed-forward block, appended.
pub open spec fn feed_forward_uploads(
    pending: Seq<EffectView>,
    tensors: XasrFeedForwardGraphTensors,
    weights: XasrLinearPairWeights,
) -> Seq<EffectView> {
    linear_uploads(
        linear_uploads(pending, tensors.in_proj_weight, tensors.in_proj_bias, weights.in_proj),
        tensors.out_proj_weight,
        tensors.out_proj_bias,
        weights.out_proj,
    ).push(floats(tensors.swoosh_l_offset, seq![SWOOSH_L_OFFSET], "xasr_ff_swoosh_l_offset"@)).push(
        floats(tensors.swoosh_l_shift, seq![SWOOSH_L_SHIFT], "xasr_ff_swoosh_l_shift"@),
    )
}

/// Uploads a feed-forward block.
pub fn upload_feed_forward_tensors(
    graph: &mut GgmlCpuGraphBuilder,
    tensors: XasrFeedForwardGraphTensors,
    weights: &XasrLinearPairWeights,
)
    requires
        tensors.within(*old(graph)),
    ensures
        noted(
            *old(graph),
            *final(graph),
            feed_forward_uploads(old(graph).pending(), tensors, *weights),
        ),
{
    upload_linear_with_bias_tensors(
        graph,
        tensors.in_proj_weight,
        tensors.in_proj_bias,
        &weights.in_proj,
    );
    upload_linear_with_bias_tensors(
        graph,
        tensors.out_proj_weight,
        tensors.out_proj_bias,
        &weights.out_proj,
    );
    upload_one(graph, tensors.swoosh_l_offset, SWOOSH_L_OFFSET, "xasr_ff_swoosh_l_offset");
    upload_one(graph, tensors.swoosh_l_shift, SWOOSH_L_SHIFT, "xasr_ff_swoosh_l_shift");
}

/// Why a cache is refused: it has the wrong length.
pub open spec fn cache_refusal(
    expected_len: usize,
    values: Option<Seq<u32>>,
    name: Seq<char>,
) -> Option<Seq<char>> {
    match values {
        Some(cache) => if cache.len() != expected_len {
            Some(
                name + " has "@ + decimal(cache.len()) + " cache values, expected "@ + decimal(
                    expected_len as nat,
                ),
            )
        } else {
            None
        },
        None => None,
    }
}

/// The contents of a cache: zeros before the first chunk.
pub open spec fn cache_contents(expected_len: usize, values: Option<Seq<u32>>) -> Seq<u32> {
    match values {
        Some(cache) => cache,
        None => zero_seq(expected_len as nat),
    }
}

/// Uploads a cache, or zeros where there is none.
pub fn upload_cache_or_zero(
    graph: &mut GgmlCpuGraphBuilder,
    tensor: GgmlCpuTensor,
    expected_len: usize,
    values: Option<&[u32]>,
    tensor_name: &'static str,
) -> (result: Result<(), XasrEncoderGraphError>)
    requires
        old(graph).has(tensor),
    ensures
        uploads(
            result,
            *old(graph),
            *final(graph),
            cache_refusal(expected_len, float_ops::option_view(values), tensor_name@),
            true,
            old(graph).pending().push(
                floats(
                    tensor,
                    cache_contents(expected_len, float_ops::option_view(values)),
                    tensor_name@,
                ),
            ),
        ),
        result is Err ==> *final(graph) == *old(graph),
{
    match values {
        Some(values) => {
            if values.len() != expected_len {
                let mut reason = text::copy_text(tensor_name);
                reason.append(" has ");
                text::push_number(&mut reason, values.len());
                reason.append(" cache values, expected ");
                text::push_number(&mut reason, expected_len);
                proof {
                    assert(graph.pending().take(graph.pending().len() as int) =~= graph.pending());
                }
                return Err(XasrEncoderGraphError::Shape { reason });
            }
            upload_f32(graph, tensor, values, tensor_name);
        },
        None => {
            let empty = zeros(expected_len);
            upload_f32(graph, tensor, empty.as_slice(), tensor_name);
        },
    }
    proof {
        assert(graph.pending().take(old(graph).pending().len() as int) =~= old(graph).pending());
    }
    Ok(())
}

/// Uploads `rows * cols` zeros.
pub fn upload_zero_cache(
    graph: &mut GgmlCpuGraphBuilder,
    tensor: GgmlCpuTensor,
    rows: usize,
    cols: usize,
    tensor_name: &'static str,
) -> (result: Result<(), XasrEncoderGraphError>)
    requires
        old(graph).has(tensor),
    ensures
        uploads(
            result,
            *old(graph),
            *final(graph),
            if rows * cols > usize::MAX {
                Some("xasr stack0 cache length overflows"@)
            } else {
                None
            },
            true,
            old(graph).pending().push(floats(tensor, zero_seq((rows * cols) as nat), tensor_name@)),
        ),
{
    let len = match rows.checked_mul(cols) {
        Some(value) => value,
        None => {
            proof {
                assert(graph.pending().take(graph.pending().len() as int) =~= graph.pending());
            }
            return Err(shape_error("xasr stack0 cache length overflows"));
        },
    };
    let empty = zeros(len);
    upload_f32(graph, tensor, empty.as_slice(), tensor_name);
    proof {
        assert(graph.pending().take(old(graph).pending().len() as int) =~= old(graph).pending());
    }
    Ok(())
}

/// Effects stay pending while others are added.
pub proof fn lemma_partly_noted_trans(
    a: GgmlCpuGraphBuilder,
    b: GgmlCpuGraphBuilder,
    c: GgmlCpuGraphBuilder,
)
    requires
        partly_noted(a, b),
        partly_noted(b, c),
    ensures
        partly_noted(a, c),
{
    assert(c.pending().take(a.pending().len() as int) =~= c.pending().take(
        b.pending().len() as int,
    ).take(a.pending().len() as int));
}

/// Lengths of the caches of a layer.
#[derive(Clone, Copy, Debug, PartialEq, Eq, Structural)]
pub struct XasrLayerCacheLengths {
    pub cached_key: usize,
    pub cached_nonlin_attention: usize,
    pub cached_val1: usize,
    pub cached_val2: usize,
    pub cached_conv1: usize,
    pub cached_conv2: usize,
}

/// Why the caches of a layer have no lengths.
pub open spec fn cache_lengths_refusal(shape: XasrZipformerLayerGraphShape) -> Option<Seq<char>> {
    let head = shape.layer_head;
    let tail = shape.layer_tail;
    if head.num_heads * head.query_head_dim > usize::MAX {
        Some("xasr layer cache query dimension overflows"@)
    } else if head.left_context_len * (head.num_heads * head.query_head_dim) > usize::MAX {
        Some("xasr layer cache key length overflows"@)
    } else if head.left_context_len * head.nonlin_hidden_dim > usize::MAX {
        Some("xasr layer cache nonlin length overflows"@)
    } else if head.left_context_len * head.self1_value_dim > usize::MAX {
        Some("xasr layer cache val1 length overflows"@)
    } else if head.left_context_len * shape.self2_value_dim > usize::MAX {
        Some("xasr layer cache val2 length overflows"@)
    } else if head.dim * head.conv1_cache_len > usize::MAX {
        Some("xasr layer cache conv1 length overflows"@)
    } else if tail.dim * tail.conv_cache_len > usize::MAX {
        Some("xasr layer cache conv2 length overflows"@)
    } else {
        None
    }
}

/// The lengths of the caches of a layer.
pub open spec fn cache_lengths(shape: XasrZipformerLayerGraphShape) -> XasrLayerCacheLengths {
    let head = shape.layer_head;
    let tail = shape.layer_tail;
    XasrLayerCacheLengths {
        cached_key: (head.left_context_len * (head.num_heads * head.query_head_dim)) as usize,
        cached_nonlin_attention: (head.left_context_len * head.nonlin_hidden_dim) as usize,
        cached_val1: (head.left_context_len * head.self1_value_dim) as usize,
        cached_val2: (head.left_context_len * shape.self2_value_dim) as usize,
        cached_conv1: (head.dim * head.conv1_cache_len) as usize,
        cached_conv2: (tail.dim * tail.conv_cache_len) as usize,
    }
}

fn product_or_shape(left: usize, right: usize, reason: &'static str) -> (result: Result<
    usize,
    XasrEncoderGraphError,
>)
    ensures
        match result {
            Ok(value) => value == left * right,
            Err(error) => left * right > usize::MAX && error.is_shape(reason@),
        },
{
    match left.checked_mul(right) {
        Some(value) => Ok(value),
        None => Err(shape_error(reason)),
    }
}

/// The lengths of the caches of a layer.
pub fn layer_cache_lengths(shape: XasrZipformerLayerGraphShape) -> (result: Result<
    XasrLayerCacheLengths,
    XasrEncoderGraphError,
>)
    ensures
        shape_outcome(result, cache_lengths_refusal(shape)),
        result is Ok ==> result->Ok_0 == cache_lengths(shape),
{
    let head = shape.layer_head;
    let query_dim = product_or_shape(
        head.num_heads,
        head.query_head_dim,
        "xasr layer cache query dimension overflows",
    )?;
    let cached_key = product_or_shape(
        head.left_context_len,
        query_dim,
        "xasr layer cache key length overflows",
    )?;
    let cached_nonlin_attention = product_or_shape(
        head.left_context_len,
        head.nonlin_hidden_dim,
        "xasr layer cache nonlin length overflows",
    )?;
    let cached_val1 = product_or_shape(
        head.left_context_len,
        head.self1_value_dim,
        "xasr layer cache val1 length overflows",
    )?;
    let cached_val2 = product_or_shape(
        head.left_context_len,
        shape.self2_value_dim,
        "xasr layer cache val2 length overflows",
    )?;
    let cached_conv1 = product_or_shape(
        head.dim,
        head.conv1_cache_len,
        "xasr layer cache conv1 length overflows",
    )?;
    let cached_conv2 = product_or_shape(
        shape.layer_tail.dim,
        shape.layer_tail.conv_cache_len,
        "xasr layer cache conv2 length overflows",
    )?;
    Ok(
        XasrLayerCacheLengths {
            cached_key,
            cached_nonlin_attention,
            cached_val1,
            cached_val2,
            cached_conv1,
            cached_conv2,
        },
    )
}

/// What a layer keeps from one chunk for the next.
#[derive(Clone, Debug, PartialEq)]
pub struct XasrEncoderLayerCache {
    pub cached_key: Vec<u32>,
    pub cached_nonlin_attention: Vec<u32>,
    pub cached_val1: Vec<u32>,
    pub cached_val2: Vec<u32>,
    pub cached_conv1: Vec<u32>,
    pub cached_conv2: Vec<u32>,
}

/// The caches of a layer by their contents.
#[verifier::ext_equal]
pub struct LayerCacheView {
    pub key: Option<Seq<u32>>,
    pub nonlin: Option<Seq<u32>>,
    pub val1: Option<Seq<u32>>,
    pub val2: Option<Seq<u32>>,
    pub conv1: Option<Seq<u32>>,
    pub conv2: Option<Seq<u32>>,
}

pub open spec fn layer_cache_view(cache: Option<&XasrEncoderLayerCache>) -> LayerCacheView {
    match cache {
        Some(c) => LayerCacheView {
            key: Some(c.cached_key@),
            nonlin: Some(c.cached_nonlin_attention@),
            val1: Some(c.cached_val1@),
            val2: Some(c.cached_val2@),
            conv1: Some(c.cached_conv1@),
            conv2: Some(c.cached_conv2@),
        },
        None => LayerCacheView {
            key: None,
            nonlin: None,
            val1: None,
            val2: None,
            conv1: None,
            conv2: None,
        },
    }
}

/// The slices of an optional layer cache.
#[derive(Clone, Copy, Debug)]
pub struct LayerCacheSlices<'a> {
    pub key: Option<&'a [u32]>,
    pub nonlin: Option<&'a [u32]>,
    pub val1: Option<&'a [u32]>,
    pub val2: Option<&'a [u32]>,
    pub conv1: Option<&'a [u32]>,
    pub conv2: Option<&'a [u32]>,
}

impl<'a> LayerCacheSlices<'a> {
    pub open spec fn contents(self) -> LayerCacheView {
        LayerCacheView {
            key: float_ops::option_view(self.key),
            nonlin: float_ops::option_view(self.nonlin),
            val1: float_ops::option_view(self.val1),
            val2: float_ops::option_view(self.val2),
            conv1: float_ops::option_view(self.conv1),
            conv2: float_ops::option_view(self.conv2),
        }
    }

    /// The slices of `cache`.
    pub fn of(cache: Option<&'a XasrEncoderLayerCache>) -> (slices: LayerCacheSlices<'a>)
        ensures
            slices.contents() == layer_cache_view(cache),
    {
        match cache {
            Some(c) => LayerCacheSlices {
                key: Some(c.cached_key.as_slice()),
                nonlin: Some(c.cached_nonlin_attention.as_slice()),
                val1: Some(c.cached_val1.as_slice()),
                val2: Some(c.cached_val2.as_slice()),
                conv1: Some(c.cached_conv1.as_slice()),
                conv2: Some(c.cached_conv2.as_slice()),
            },
            None => LayerCacheSlices {
                key: None,
                nonlin: None,
                val1: None,
                val2: None,
                conv1: None,
                conv2: None,
            },
        }
    }
}

/// Why the uploads of the attention weights are refused.
pub open spec fn attention_upload_refusal(
    shape: XasrLayerHeadGraphShape,
    valid_left_context: usize,
    cached_key: Option<Seq<u32>>,
) -> Option<Seq<char>> {
    let query_dim = shape.num_heads * shape.query_head_dim;
    let key_len = (shape.left_context_len * query_dim) as usize;
    let mask = encoder_tables::attention_mask_refusal(
        shape.left_context_len,
        shape.frames,
        valid_left_context,
    );
    if query_dim > usize::MAX {
        Some("xasr stack0 query dimension overflows"@)
    } else if shape.left_context_len * query_dim > usize::MAX {
        Some("xasr attention key cache length overflows"@)
    } else if cache_refusal(key_len, cached_key, "xasr_stack0_attn_cache"@) is Some {
        cache_refusal(key_len, cached_key, "xasr_stack0_attn_cache"@)
    } else if mask is Some {
        mask
    } else {
        encoder_tables::position_refusal(shape.frames, shape.left_context_len, shape.pos_dim)
    }
}

/// The uploads of the attention weights, appended.
pub open spec fn attention_uploads(
    m: FloatModel,
    pending: Seq<EffectView>,
    tensors: XasrSelfAttentionWeightsGraphTensors,
    weights: XasrSelfAttentionWeightsWeights,
    shape: XasrLayerHeadGraphShape,
    valid_left_context: usize,
    cached_key: Option<Seq<u32>>,
) -> Seq<EffectView> {
    let key_len = (shape.left_context_len * (shape.num_heads * shape.query_head_dim)) as usize;
    linear_uploads(
        pending.push(
            floats(tensors.cache, cache_contents(key_len, cached_key), "xasr_stack0_attn_cache"@),
        ).push(
            floats(
                tensors.mask,
                encoder_tables::attention_mask(
                    shape.left_context_len as int,
                    shape.frames as int,
                    valid_left_context as int,
                ),
                "xasr_stack0_attn_mask"@,
            ),
        ).push(
            floats(
                tensors.pos_embedding,
                encoder_tables::position_table(
                    m,
                    shape.frames as int,
                    shape.left_context_len as int,
                    shape.pos_dim as int,
                ),
                "xasr_stack0_attn_pos"@,
            ),
        ),
        tensors.in_proj_weight,
        tensors.in_proj_bias,
        weights.in_proj,
    ).push(weight_upload(tensors.linear_pos_weight, weights.linear_pos, "xasr_stack0_attn_pos_w"@))
}

/// A graph whose effects extend those of another.
pub proof fn lemma_noted_is_partly_noted(before: GgmlCpuGraphBuilder, after: GgmlCpuGraphBuilder)
    requires
        after@ == before@,
        after.recorded() == before.recorded(),
        before.pending().is_prefix_of(after.pending()),
    ensures
        partly_noted(before, after),
{
    assert(after.pending().take(before.pending().len() as int) =~= before.pending());
}

/// Uploads the attention weights.
pub fn upload_attention_weights_tensors<O: FloatOps>(
    ops: &O,
    graph: &mut GgmlCpuGraphBuilder,
    tensors: XasrSelfAttentionWeightsGraphTensors,
    weights: &XasrSelfAttentionWeightsWeights,
    shape: XasrLayerHeadGraphShape,
    valid_left_context: usize,
    cached_key: Option<&[u32]>,
) -> (result: Result<(), XasrEncoderGraphError>)
    requires
        tensors.within(*old(graph)),
        shape.pos_dim > 0 || shape.left_context_len + shape.frames * 2 <= 1,
    ensures
        uploads(
            result,
            *old(graph),
            *final(graph),
            attention_upload_refusal(
                shape,
                valid_left_context,
                float_ops::option_view(cached_key),
            ),
            float_ops::functional(ops),
            attention_uploads(
                float_ops::model(ops),
                old(graph).pending(),
                tensors,
                *weights,
                shape,
                valid_left_context,
                float_ops::option_view(cached_key),
            ),
        ),
{
    proof {
        lemma_noted_is_partly_noted(*graph, *graph);
    }
    let query_dim = product_or_shape(
        shape.num_heads,
        shape.query_head_dim,
        "xasr stack0 query dimension overflows",
    )?;
    let key_len = product_or_shape(
        shape.left_context_len,
        query_dim,
        "xasr attention key cache length overflows",
    )?;
    upload_cache_or_zero(graph, tensors.cache, key_len, cached_key, "xasr_stack0_attn_cache")?;
    let mask_values = attention_mask_values_for_graph(
        shape.left_context_len,
        shape.frames,
        valid_left_context,
    )?;
    let pos_embedding = match compact_relative_positional_encoding_for_graph(
        ops,
        shape.frames,
        shape.left_context_len,
        shape.pos_dim,
    ) {
        Ok(values) => values,
        Err(error) => {
            upload_f32(graph, tensors.mask, mask_values.as_slice(), "xasr_stack0_attn_mask");
            proof {
                lemma_noted_is_partly_noted(*old(graph), *graph);
            }
            return Err(error);
        },
    };
    upload_f32(graph, tensors.mask, mask_values.as_slice(), "xasr_stack0_attn_mask");
    upload_f32(graph, tensors.pos_embedding, pos_embedding.as_slice(), "xasr_stack0_attn_pos");
    upload_linear_with_bias_tensors(
        graph,
        tensors.in_proj_weight,
        tensors.in_proj_bias,
        &weights.in_proj,
    );
    upload_stored_linear_weight_tensor(
        graph,
        tensors.linear_pos_weight,
        &weights.linear_pos,
        "xasr_stack0_attn_pos_w",
    );
    proof {
        assert(old(graph).pending().is_prefix_of(graph.pending()));
        lemma_noted_is_partly_noted(*old(graph), *graph);
    }
    Ok(())
}

/// Why the uploads of a convolution module are refused.
pub open spec fn convolution_upload_refusal(
    weights: XasrConvolutionModuleWeights,
    dim: usize,
    frames: usize,
    cache_len: usize,
    cache: Option<Seq<u32>>,
) -> Option<Seq<char>> {
    let expected = (dim * cache_len) as usize;
    if dim * cache_len > usize::MAX {
        Some("xasr convolution cache length overflows"@)
    } else if cache_refusal(expected, cache, "xasr_conv_cache"@) is Some {
        cache_refusal(expected, cache, "xasr_conv_cache"@)
    } else {
        encoder_tables::scales_refusal(weights, dim, frames)
    }
}

/// The uploads of a convolution module, appended.
pub open spec fn convolution_uploads(
    m: FloatModel,
    pending: Seq<EffectView>,
    tensors: XasrConvolutionModuleGraphTensors,
    weights: XasrConvolutionModuleWeights,
    dim: usize,
    frames: usize,
    cache_len: usize,
    cache: Option<Seq<u32>>,
) -> Seq<EffectView> {
    linear_uploads(
        linear_uploads(
            pending.push(
                floats(
                    tensors.cache,
                    cache_contents((dim * cache_len) as usize, cache),
                    "xasr_conv_cache"@,
                ),
            ),
            tensors.in_proj_weight,
            tensors.in_proj_bias,
            weights.in_proj,
        ).push(
            floats(
                tensors.causal_kernel,
                weights.depthwise_causal_conv.weight.values@,
                "xasr_conv_causal_w"@,
            ),
        ).push(
            floats(tensors.causal_bias, weights.depthwise_causal_conv.bias@, "xasr_conv_causal_b"@),
        ).push(
            floats(
                tensors.chunk_kernel,
                weights.depthwise_chunkwise_conv.weight.values@,
                "xasr_conv_chunk_w"@,
            ),
        ).push(
            floats(tensors.chunk_bias, weights.depthwise_chunkwise_conv.bias@, "xasr_conv_chunk_b"@),
        ).push(
            floats(
                tensors.chunk_scale,
                encoder_tables::scale_table(m, weights, dim as int, frames as int),
                "xasr_conv_chunk_scale"@,
            ),
        ),
        tensors.out_proj_weight,
        tensors.out_proj_bias,
        weights.out_proj,
    ).push(
        floats(tensors.swoosh_r_offset, seq![SWOOSH_R_OFFSET], "xasr_conv_swoosh_r_offset"@),
    ).push(floats(tensors.swoosh_r_shift, seq![SWOOSH_R_SHIFT], "xasr_conv_swoosh_r_shift"@))
}

/// Uploads a convolution module.
pub fn upload_convolution_module_tensors<O: FloatOps>(
    ops: &O,
    graph: &mut GgmlCpuGraphBuilder,
    tensors: XasrConvolutionModuleGraphTensors,
    weights: &XasrConvolutionModuleWeights,
    dim: usize,
    frames: usize,
    cache_len: usize,
    cache: Option<&[u32]>,
) -> (result: Result<(), XasrEncoderGraphError>)
    requires
        tensors.within(*old(graph)),
    ensures
        uploads(
            result,
            *old(graph),
            *final(graph),
            convolution_upload_refusal(
                *weights,
                dim,
                frames,
                cache_len,
                float_ops::option_view(cache),
            ),
            float_ops::functional(ops),
            convolution_uploads(
                float_ops::model(ops),
                old(graph).pending(),
                tensors,
                *weights,
                dim,
                frames,
                cache_len,
                float_ops::option_view(cache),
            ),
        ),
{
    proof {
        lemma_noted_is_partly_noted(*graph, *graph);
    }
    let expected_cache = product_or_shape(
        dim,
        cache_len,
        "xasr convolution cache length overflows",
    )?;
    upload_cache_or_zero(graph, tensors.cache, expected_cache, cache, "xasr_conv_cache")?;
    upload_linear_with_bias_tensors(
        graph,
        tensors.in_proj_weight,
        tensors.in_proj_bias,
        &weights.in_proj,
    );
    upload_f32(
        graph,
        tensors.causal_kernel,
        weights.depthwise_causal_conv.weight.values.as_slice(),
        "xasr_conv_causal_w",
    );
    upload_f32(
        graph,
        tensors.causal_bias,
        weights.depthwise_causal_conv.bias.as_slice(),
        "xasr_conv_causal_b",
    );
    upload_f32(
        graph,
        tensors.chunk_kernel,
        weights.depthwise_chunkwise_conv.weight.values.as_slice(),
        "xasr_conv_chunk_w",
    );
    upload_f32(
        graph,
        tensors.chunk_bias,
        weights.depthwise_chunkwise_conv.bias.as_slice(),
        "xasr_conv_chunk_b",
    );
    proof {
        assert(old(graph).pending().is_prefix_of(graph.pending()));
        lemma_noted_is_partly_noted(*old(graph), *graph);
    }
    let chunk_scale = chunkwise_conv_scale_values_for_graph(ops, weights, dim, frames)?;
    upload_f32(graph, tensors.chunk_scale, chunk_scale.as_slice(), "xasr_conv_chunk_scale");
    upload_linear_with_bias_tensors(
        graph,
        tensors.out_proj_weight,
        tensors.out_proj_bias,
        &weights.out_proj,
    );
    upload_one(graph, tensors.swoosh_r_offset, SWOOSH_R_OFFSET, "xasr_conv_swoosh_r_offset");
    upload_one(graph, tensors.swoosh_r_shift, SWOOSH_R_SHIFT, "xasr_conv_swoosh_r_shift");
    proof {
        assert(old(graph).pending().is_prefix_of(graph.pending()));
        lemma_noted_is_partly_noted(*old(graph), *graph);
    }
    Ok(())
}

/// Why the uploads of a layer are refused.
pub open spec fn layer_upload_refusal(
    layer: XasrEncoderLayerWeights,
    shape: XasrZipformerLayerGraphShape,
    valid_left_context: usize,
    cache: LayerCacheView,
) -> Option<Seq<char>> {
    let lengths = cache_lengths(shape);
    let head = shape.layer_head;
    let tail = shape.layer_tail;
    let attention = attention_upload_refusal(head, valid_left_context, cache.key);
    let nonlin = cache_refusal(
        lengths.cached_nonlin_attention,
        cache.nonlin,
        "xasr_stack0_nonlin_cache"@,
    );
    let val1 = cache_refusal(lengths.cached_val1, cache.val1, "xasr_stack0_self1_cache"@);
    let conv1 = convolution_upload_refusal(
        layer.conv_module1,
        head.dim,
        head.frames,
        head.conv1_cache_len,
        cache.conv1,
    );
    let val2 = cache_refusal(lengths.cached_val2, cache.val2, "xasr_stack0_self2_cache"@);
    if cache_lengths_refusal(shape) is Some {
        cache_lengths_refusal(shape)
    } else if attention is Some {
        attention
    } else if nonlin is Some {
        nonlin
    } else if val1 is Some {
        val1
    } else if conv1 is Some {
        conv1
    } else if val2 is Some {
        val2
    } else {
        convolution_upload_refusal(
            layer.conv_module2,
            tail.dim,
            tail.frames,
            tail.conv_cache_len,
            cache.conv2,
        )
    }
}

/// The uploads of the first half of a layer, appended.
#[verifier::opaque]
pub open spec fn layer_head_uploads(
    m: FloatModel,
    pending: Seq<EffectView>,
    binding: XasrZipformerLayerGraphBinding,
    layer: XasrEncoderLayerWeights,
    valid_left_context: usize,
    cache: LayerCacheView,
) -> Seq<EffectView> {
    let head = binding.tensors.layer_head;
    let shape = binding.shape.layer_head;
    let lengths = cache_lengths(binding.shape);
    let with_attention = attention_uploads(
        m,
        feed_forward_uploads(pending, head.feed_forward1, layer.feed_forward1),
        head.attention_weights,
        layer.self_attn_weights,
        shape,
        valid_left_context,
        cache.key,
    );
    let with_nonlin = linear_uploads(
        linear_uploads(
            with_attention.push(
                floats(
                    head.nonlin_cache,
                    cache_contents(lengths.cached_nonlin_attention, cache.nonlin),
                    "xasr_stack0_nonlin_cache"@,
                ),
            ),
            head.nonlin_in_proj_weight,
            head.nonlin_in_proj_bias,
            layer.nonlin_attention.in_proj,
        ),
        head.nonlin_out_proj_weight,
        head.nonlin_out_proj_bias,
        layer.nonlin_attention.out_proj,
    );
    let with_self1 = linear_uploads(
        linear_uploads(
            with_nonlin.push(
                floats(
                    head.self1_cache,
                    cache_contents(lengths.cached_val1, cache.val1),
                    "xasr_stack0_self1_cache"@,
                ),
            ),
            head.self1_in_proj_weight,
            head.self1_in_proj_bias,
            layer.self_attn1.in_proj,
        ),
        head.self1_out_proj_weight,
        head.self1_out_proj_bias,
        layer.self_attn1.out_proj,
    );
    let with_conv1 = convolution_uploads(
        m,
        with_self1,
        head.conv_module1,
        layer.conv_module1,
        shape.dim,
        shape.frames,
        shape.conv1_cache_len,
        cache.conv1,
    );
    feed_forward_uploads(with_conv1, head.feed_forward2, layer.feed_forward2).push(
        floats(head.bypass_mid_scale, layer.bypass_mid_scale@, "xasr_stack0_bypass_mid_scale"@),
    )
}

/// The uploads of a layer, appended.
pub open spec fn layer_uploads(
    m: FloatModel,
    pending: Seq<EffectView>,
    binding: XasrZipformerLayerGraphBinding,
    layer: XasrEncoderLayerWeights,
    valid_left_context: usize,
    cache: LayerCacheView,
) -> Seq<EffectView> {
    let tensors = binding.tensors;
    let tail = tensors.layer_tail;
    let shape = binding.shape.layer_tail;
    let lengths = cache_lengths(binding.shape);
    let with_self2 = linear_uploads(
        linear_uploads(
            layer_head_uploads(m, pending, binding, layer, valid_left_context, cache).push(
                floats(
                    tensors.self2_cache,
                    cache_contents(lengths.cached_val2, cache.val2),
                    "xasr_stack0_self2_cache"@,
                ),
            ),
            tensors.self2_in_proj_weight,
            tensors.self2_in_proj_bias,
            layer.self_attn2.in_proj,
        ),
        tensors.self2_out_proj_weight,
        tensors.self2_out_proj_bias,
        layer.self_attn2.out_proj,
    );
    let with_conv2 = convolution_uploads(
        m,
        with_self2,
        tail.conv_module2,
        layer.conv_module2,
        shape.dim,
        shape.frames,
        shape.conv_cache_len,
        cache.conv2,
    );
    feed_forward_uploads(with_conv2, tail.feed_forward3, layer.feed_forward3).push(
        floats(tail.norm_bias, layer.norm_bias@, "xasr_stack0_norm_bias"@),
    ).push(floats(tail.bypass_scale, layer.bypass_scale@, "xasr_stack0_bypass_scale"@))
}

/// Why the first half of a layer refuses to be uploaded, given lengths.
spec fn head_upload_refusal(
    layer: XasrEncoderLayerWeights,
    shape: XasrZipformerLayerGraphShape,
    valid_left_context: usize,
    cache: LayerCacheView,
) -> Option<Seq<char>> {
    let lengths = cache_lengths(shape);
    let head = shape.layer_head;
    let attention = attention_upload_refusal(head, valid_left_context, cache.key);
    let nonlin = cache_refusal(
        lengths.cached_nonlin_attention,
        cache.nonlin,
        "xasr_stack0_nonlin_cache"@,
    );
    let val1 = cache_refusal(lengths.cached_val1, cache.val1, "xasr_stack0_self1_cache"@);
    if attention is Some {
        attention
    } else if nonlin is Some {
        nonlin
    } else if val1 is Some {
        val1
    } else {
        convolution_upload_refusal(
            layer.conv_module1,
            head.dim,
            head.frames,
            head.conv1_cache_len,
            cache.conv1,
        )
    }
}

/// Why the caches of a layer are refused.
pub open spec fn dynamic_caches_refusal(
    shape: XasrZipformerLayerGraphShape,
    cache: LayerCacheView,
) -> Option<Seq<char>> {
    let lengths = cache_lengths(shape);
    let key = cache_refusal(lengths.cached_key, cache.key, "xasr_stack0_attn_cache"@);
    let nonlin = cache_refusal(
        lengths.cached_nonlin_attention,
        cache.nonlin,
        "xasr_stack0_nonlin_cache"@,
    );
    let val1 = cache_refusal(lengths.cached_val1, cache.val1, "xasr_stack0_self1_cache"@);
    let conv1 = cache_refusal(lengths.cached_conv1, cache.conv1, "xasr_conv_cache"@);
    let val2 = cache_refusal(lengths.cached_val2, cache.val2, "xasr_stack0_self2_cache"@);
    if cache_lengths_refusal(shape) is Some {
        cache_lengths_refusal(shape)
    } else if key is Some {
        key
    } else if nonlin is Some {
        nonlin
    } else if val1 is Some {
        val1
    } else if conv1 is Some {
        conv1
    } else if val2 is Some {
        val2
    } else {
        cache_refusal(lengths.cached_conv2, cache.conv2, "xasr_conv_cache"@)
    }
}

/// The uploads of the caches of a layer, appended.
pub open spec fn dynamic_cache_uploads(
    pending: Seq<EffectView>,
    binding: XasrZipformerLayerGraphBinding,
    cache: LayerCacheView,
) -> Seq<EffectView> {
    let tensors = binding.tensors;
    let head = tensors.layer_head;
    let lengths = cache_lengths(binding.shape);
    pending.push(
        floats(
            head.attention_weights.cache,
            cache_contents(lengths.cached_key, cache.key),
            "xasr_stack0_attn_cache"@,
        ),
    ).push(
        floats(
            head.nonlin_cache,
            cache_contents(lengths.cached_nonlin_attention, cache.nonlin),
            "xasr_stack0_nonlin_cache"@,
        ),
    ).push(
        floats(
            head.self1_cache,
            cache_contents(lengths.cached_val1, cache.val1),
            "xasr_stack0_self1_cache"@,
        ),
    ).push(
        floats(
            head.conv_module1.cache,
            cache_contents(lengths.cached_conv1, cache.conv1),
            "xasr_conv_cache"@,
        ),
    ).push(
        floats(
            tensors.self2_cache,
            cache_contents(lengths.cached_val2, cache.val2),
            "xasr_stack0_self2_cache"@,
        ),
    ).push(
        floats(
            tensors.layer_tail.conv_module2.cache,
            cache_contents(lengths.cached_conv2, cache.conv2),
            "xasr_conv_cache"@,
        ),
    )
}

impl XasrZipformerLayerGraphBinding {
    /// Uploads the first half of the layer.
    #[verifier::rlimit(60)]
    fn upload_head<O: FloatOps>(
        &self,
        ops: &O,
        graph: &mut GgmlCpuGraphBuilder,
        layer: &XasrEncoderLayerWeights,
        valid_left_context: usize,
        cache: LayerCacheSlices<'_>,
        lengths: XasrLayerCacheLengths,
    ) -> (result: Result<(), XasrEncoderGraphError>)
        requires
            self.tensors.within(*old(graph)),
            lengths == cache_lengths(self.shape),
            self.shape.layer_head.pos_dim > 0 || self.shape.layer_head.left_context_len
                + self.shape.layer_head.frames * 2 <= 1,
        ensures
            uploads(
                result,
                *old(graph),
                *final(graph),
                head_upload_refusal(*layer, self.shape, valid_left_context, cache.contents()),
                float_ops::functional(ops),
                layer_head_uploads(
                    float_ops::model(ops),
                    old(graph).pending(),
                    *self,
                    *layer,
                    valid_left_context,
                    cache.contents(),
                ),
            ),
    {
        proof {
            reveal(XasrZipformerLayerGraphTensors::within);
        }
        proof {
            reveal(layer_head_uploads);
        }
        let head = self.tensors.layer_head;
        let shape = self.shape;
        upload_feed_forward_tensors(graph, head.feed_forward1, &layer.feed_forward1);
        proof {
            lemma_noted_is_partly_noted(*old(graph), *graph);
        }
        let ghost g1 = *graph;
        let attention = upload_attention_weights_tensors(
            ops,
            graph,
            head.attention_weights,
            &layer.self_attn_weights,
            shape.layer_head,
            valid_left_context,
            cache.key,
        );
        proof {
            lemma_partly_noted_trans(*old(graph), g1, *graph);
        }
        attention?;
        let ghost g2 = *graph;
        let nonlin = upload_cache_or_zero(
            graph,
            head.nonlin_cache,
            lengths.cached_nonlin_attention,
            cache.nonlin,
            "xasr_stack0_nonlin_cache",
        );
        proof {
            lemma_partly_noted_trans(*old(graph), g2, *graph);
        }
        nonlin?;
        upload_linear_with_bias_tensors(
            graph,
            head.nonlin_in_proj_weight,
            head.nonlin_in_proj_bias,
            &layer.nonlin_attention.in_proj,
        );
        upload_linear_with_bias_tensors(
            graph,
            head.nonlin_out_proj_weight,
            head.nonlin_out_proj_bias,
            &layer.nonlin_attention.out_proj,
        );
        let ghost g3 = *graph;
        proof {
            lemma_noted_is_partly_noted(g2, g3);
            lemma_partly_noted_trans(*old(graph), g2, g3);
        }
        let val1 = upload_cache_or_zero(
            graph,
            head.self1_cache,
            lengths.cached_val1,
            cache.val1,
            "xasr_stack0_self1_cache",
        );
        proof {
            lemma_partly_noted_trans(*old(graph), g3, *graph);
        }
        val1?;
        upload_linear_with_bias_tensors(
            graph,
            head.self1_in_proj_weight,
            head.self1_in_proj_bias,
            &layer.self_attn1.in_proj,
        );
        upload_linear_with_bias_tensors(
            graph,
            head.self1_out_proj_weight,
            head.self1_out_proj_bias,
            &layer.self_attn1.out_proj,
        );
        let ghost g4 = *graph;
        proof {
            lemma_noted_is_partly_noted(g3, g4);
            lemma_partly_noted_trans(*old(graph), g3, g4);
        }
        let conv1 = upload_convolution_module_tensors(
            ops,
            graph,
            head.conv_module1,
            &layer.conv_module1,
            shape.layer_head.dim,
            shape.layer_head.frames,
            shape.layer_head.conv1_cache_len,
            cache.conv1,
        );
        proof {
            lemma_partly_noted_trans(*old(graph), g4, *graph);
        }
        conv1?;
        let ghost g5 = *graph;
        upload_feed_forward_tensors(graph, head.feed_forward2, &layer.feed_forward2);
        upload_f32(
            graph,
            head.bypass_mid_scale,
            layer.bypass_mid_scale.as_slice(),
            "xasr_stack0_bypass_mid_scale",
        );
        proof {
            lemma_noted_is_partly_noted(g5, *graph);
            lemma_partly_noted_trans(*old(graph), g5, *graph);
        }
        Ok(())
    }

    /// Uploads the layer: weights, tables and caches.
    #[verifier::rlimit(60)]
    pub fn upload<O: FloatOps>(
        &self,
        ops: &O,
        graph: &mut GgmlCpuGraphBuilder,
        layer: &XasrEncoderLayerWeights,
        valid_left_context: usize,
        cache: Option<&XasrEncoderLayerCache>,
    ) -> (result: Result<(), XasrEncoderGraphError>)
        requires
            self.tensors.within(*old(graph)),
            self.shape.layer_head.pos_dim > 0 || self.shape.layer_head.left_context_len
                + self.shape.layer_head.frames * 2 <= 1,
        ensures
            uploads(
                result,
                *old(graph),
                *final(graph),
                layer_upload_refusal(
                    *layer,
                    self.shape,
                    valid_left_context,
                    layer_cache_view(cache),
                ),
                float_ops::functional(ops),
                layer_uploads(
                    float_ops::model(ops),
                    old(graph).pending(),
                    *self,
                    *layer,
                    valid_left_context,
                    layer_cache_view(cache),
                ),
            ),
    {
        proof {
            reveal(XasrZipformerLayerGraphTensors::within);
        }
        proof {
            lemma_noted_is_partly_noted(*graph, *graph);
        }
        let tensors = self.tensors;
        let shape = self.shape;
        let lengths = layer_cache_lengths(shape)?;
        let cache = LayerCacheSlices::of(cache);
        self.upload_head(ops, graph, layer, valid_left_context, cache, lengths)?;
        let ghost g1 = *graph;
        let val2 = upload_cache_or_zero(
            graph,
            tensors.self2_cache,
            lengths.cached_val2,
            cache.val2,
            "xasr_stack0_self2_cache",
        );
        proof {
            lemma_partly_noted_trans(*old(graph), g1, *graph);
        }
        val2?;
        upload_linear_with_bias_tensors(
            graph,
            tensors.self2_in_proj_weight,
            tensors.self2_in_proj_bias,
            &layer.self_attn2.in_proj,
        );
        upload_linear_with_bias_tensors(
            graph,
            tensors.self2_out_proj_weight,
            tensors.self2_out_proj_bias,
            &layer.self_attn2.out_proj,
        );
        let ghost g2 = *graph;
        proof {
            lemma_noted_is_partly_noted(g1, g2);
            lemma_partly_noted_trans(*old(graph), g1, g2);
        }
        let conv2 = upload_convolution_module_tensors(
            ops,
            graph,
            tensors.layer_tail.conv_module2,
            &layer.conv_module2,
            shape.layer_tail.dim,
            shape.layer_tail.frames,
            shape.layer_tail.conv_cache_len,
            cache.conv2,
        );
        proof {
            lemma_partly_noted_trans(*old(graph), g2, *graph);
        }
        conv2?;
        let ghost g3 = *graph;
        upload_feed_forward_tensors(graph, tensors.layer_tail.feed_forward3, &layer.feed_forward3);
        upload_f32(
            graph,
            tensors.layer_tail.norm_bias,
            layer.norm_bias.as_slice(),
            "xasr_stack0_norm_bias",
        );
        upload_f32(
            graph,
            tensors.layer_tail.bypass_scale,
            layer.bypass_scale.as_slice(),
            "xasr_stack0_bypass_scale",
        );
        proof {
            lemma_noted_is_partly_noted(g3, *graph);
            lemma_partly_noted_trans(*old(graph), g3, *graph);
        }
        Ok(())
    }

    /// Uploads the caches of the layer alone.
    #[verifier::rlimit(40)]
    pub fn upload_dynamic_caches(
        &self,
        graph: &mut GgmlCpuGraphBuilder,
        cache: Option<&XasrEncoderLayerCache>,
    ) -> (result: Result<(), XasrEncoderGraphError>)
        requires
            self.tensors.within(*old(graph)),
        ensures
            uploads(
                result,
                *old(graph),
                *final(graph),
                dynamic_caches_refusal(self.shape, layer_cache_view(cache)),
                true,
                dynamic_cache_uploads(old(graph).pending(), *self, layer_cache_view(cache)),
            ),
    {
        proof {
            reveal(XasrZipformerLayerGraphTensors::within);
        }
        proof {
            lemma_noted_is_partly_noted(*graph, *graph);
        }
        let tensors = self.tensors;
        let head = tensors.layer_head;
        let lengths = layer_cache_lengths(self.shape)?;
        let cache = LayerCacheSlices::of(cache);
        upload_cache_or_zero(
            graph,
            head.attention_weights.cache,
            lengths.cached_key,
            cache.key,
            "xasr_stack0_attn_cache",
        )?;
        proof {
            lemma_noted_is_partly_noted(*old(graph), *graph);
        }
        upload_cache_or_zero(
            graph,
            head.nonlin_cache,
            lengths.cached_nonlin_attention,
            cache.nonlin,
            "xasr_stack0_nonlin_cache",
        )?;
        proof {
            lemma_noted_is_partly_noted(*old(graph), *graph);
        }
        upload_cache_or_zero(
            graph,
            head.self1_cache,
            lengths.cached_val1,
            cache.val1,
            "xasr_stack0_self1_cache",
        )?;
        proof {
            lemma_noted_is_partly_noted(*old(graph), *graph);
        }
        upload_cache_or_zero(
            graph,
            head.conv_module1.cache,
            lengths.cached_conv1,
            cache.conv1,
            "xasr_conv_cache",
        )?;
        proof {
            lemma_noted_is_partly_noted(*old(graph), *graph);
        }
        upload_cache_or_zero(
            graph,
            tensors.self2_cache,
            lengths.cached_val2,
            cache.val2,
            "xasr_stack0_self2_cache",
        )?;
        proof {
            lemma_noted_is_partly_noted(*old(graph), *graph);
        }
        upload_cache_or_zero(
            graph,
            tensors.layer_tail.conv_module2.cache,
            lengths.cached_conv2,
            cache.conv2,
            "xasr_conv_cache",
        )?;
        proof {
            lemma_noted_is_partly_noted(*old(graph), *graph);
        }
        Ok(())
    }
}

} // verus!
