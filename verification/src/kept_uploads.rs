//! What the chunks after the first upload into a kept graph.

use vstd::prelude::*;
use crate::attention_graph::XasrSelfAttentionWeightsGraphTensors;
use crate::encoder_binding::XasrZipformerLayerGraphBinding;
use crate::encoder_plan::PlanParts;
use crate::encoder_tables;
use crate::encoder_upload::{
    attention_uploads, cache_contents, cache_lengths, convolution_uploads, dynamic_cache_uploads,
    feed_forward_uploads, floats, layer_head_uploads, layer_uploads, linear_uploads,
    weight_upload, LayerCacheView, XasrEncoderLayerCache, SWOOSH_L_OFFSET, SWOOSH_L_SHIFT,
    SWOOSH_R_OFFSET, SWOOSH_R_SHIFT,
};
use crate::encoder_weights::{
    XasrConvolutionModuleWeights, XasrEncoderLayerWeights, XasrEncoderWeights,
    XasrLinearPairWeights, XasrLinearWithBias, XasrSelfAttentionWeightsWeights,
};
use crate::float_ops::FloatModel;
use crate::full_upload::cache_at;
use crate::graph::{EffectView, GgmlCpuTensor};
use crate::layer_graph::{XasrConvolutionModuleGraphTensors, XasrFeedForwardGraphTensors};
use crate::rows::zero_seq;
use crate::upload_targets::target;
use crate::zipformer_graph::XasrLayerHeadGraphShape;

verus! {

/// Two lists of uploads correspond, tensor by tensor, and where they differ, what the
/// second uploads is among the changes.
#[verifier::opaque]
pub open spec fn differ_by(
    first: Seq<EffectView>,
    second: Seq<EffectView>,
    changes: Seq<EffectView>,
) -> bool {
    &&& first.len() == second.len()
    &&& forall|j: int|
        0 <= j < second.len() ==> target(first[j]) == target(#[trigger] second[j])
    &&& forall|j: int|
        0 <= j < second.len() && first[j] != #[trigger] second[j] ==> changes.contains(second[j])
}

proof fn lemma_same(
    first: Seq<EffectView>,
    second: Seq<EffectView>,
    changes: Seq<EffectView>,
    effect: EffectView,
)
    requires
        differ_by(first, second, changes),
    ensures
        differ_by(first.push(effect), second.push(effect), changes),
{
    reveal(differ_by);
    let longer = second.push(effect);
    assert forall|j: int| 0 <= j < longer.len() implies target(first.push(effect)[j]) == target(
        #[trigger] longer[j],
    ) by {
        if j < second.len() {
            assert(longer[j] == second[j] && first.push(effect)[j] == first[j]);
        }
    }
    assert forall|j: int|
        0 <= j < longer.len() && first.push(effect)[j] != #[trigger] longer[j] implies
        changes.contains(longer[j]) by {
        assert(j < second.len());
        assert(longer[j] == second[j] && first.push(effect)[j] == first[j]);
    }
}

proof fn lemma_changed(
    first: Seq<EffectView>,
    second: Seq<EffectView>,
    changes: Seq<EffectView>,
    old_effect: EffectView,
    effect: EffectView,
)
    requires
        differ_by(first, second, changes),
        changes.contains(effect),
        target(old_effect) == target(effect),
    ensures
        differ_by(first.push(old_effect), second.push(effect), changes),
{
    reveal(differ_by);
    let longer = second.push(effect);
    assert forall|j: int| 0 <= j < longer.len() implies target(first.push(old_effect)[j])
        == target(#[trigger] longer[j]) by {
        if j < second.len() {
            assert(longer[j] == second[j] && first.push(old_effect)[j] == first[j]);
        }
    }
    assert forall|j: int|
        0 <= j < longer.len() && first.push(old_effect)[j] != #[trigger] longer[j] implies
        changes.contains(longer[j]) by {
        if j < second.len() {
            assert(longer[j] == second[j] && first.push(old_effect)[j] == first[j]);
        }
    }
}

proof fn lemma_linear(
    first: Seq<EffectView>,
    second: Seq<EffectView>,
    changes: Seq<EffectView>,
    weight: GgmlCpuTensor,
    bias: GgmlCpuTensor,
    linear: XasrLinearWithBias,
)
    requires
        differ_by(first, second, changes),
    ensures
        differ_by(
            linear_uploads(first, weight, bias, linear),
            linear_uploads(second, weight, bias, linear),
            changes,
        ),
{
    let effect = weight_upload(weight, linear.weight, "xasr_linear_weight"@);
    lemma_same(first, second, changes, effect);
    lemma_same(
        first.push(effect),
        second.push(effect),
        changes,
        floats(bias, linear.bias@, "xasr_linear_bias"@),
    );
}

proof fn lemma_feed_forward(
    first: Seq<EffectView>,
    second: Seq<EffectView>,
    changes: Seq<EffectView>,
    tensors: XasrFeedForwardGraphTensors,
    weights: XasrLinearPairWeights,
)
    requires
        differ_by(first, second, changes),
    ensures
        differ_by(
            feed_forward_uploads(first, tensors, weights),
            feed_forward_uploads(second, tensors, weights),
            changes,
        ),
{
    let a = linear_uploads(first, tensors.in_proj_weight, tensors.in_proj_bias, weights.in_proj);
    let b = linear_uploads(second, tensors.in_proj_weight, tensors.in_proj_bias, weights.in_proj);
    lemma_linear(
        first,
        second,
        changes,
        tensors.in_proj_weight,
        tensors.in_proj_bias,
        weights.in_proj,
    );
    let c = linear_uploads(a, tensors.out_proj_weight, tensors.out_proj_bias, weights.out_proj);
    let d = linear_uploads(b, tensors.out_proj_weight, tensors.out_proj_bias, weights.out_proj);
    lemma_linear(
        a,
        b,
        changes,
        tensors.out_proj_weight,
        tensors.out_proj_bias,
        weights.out_proj,
    );
    let offset = floats(
        tensors.swoosh_l_offset,
        seq![SWOOSH_L_OFFSET],
        "xasr_ff_swoosh_l_offset"@,
    );
    lemma_same(c, d, changes, offset);
    lemma_same(
        c.push(offset),
        d.push(offset),
        changes,
        floats(tensors.swoosh_l_shift, seq![SWOOSH_L_SHIFT], "xasr_ff_swoosh_l_shift"@),
    );
}

/// The uploads of the attention differ by its cache.
proof fn lemma_attention(
    m: FloatModel,
    first: Seq<EffectView>,
    second: Seq<EffectView>,
    changes: Seq<EffectView>,
    tensors: XasrSelfAttentionWeightsGraphTensors,
    weights: XasrSelfAttentionWeightsWeights,
    shape: XasrLayerHeadGraphShape,
    valid_left_context: usize,
    old_key: Option<Seq<u32>>,
    key: Option<Seq<u32>>,
)
    requires
        differ_by(first, second, changes),
        changes.contains(
            floats(
                tensors.cache,
                cache_contents(
                    (shape.left_context_len * (shape.num_heads * shape.query_head_dim)) as usize,
                    key,
                ),
                "xasr_stack0_attn_cache"@,
            ),
        ),
    ensures
        differ_by(
            attention_uploads(m, first, tensors, weights, shape, valid_left_context, old_key),
            attention_uploads(m, second, tensors, weights, shape, valid_left_context, key),
            changes,
        ),
{
    let len = (shape.left_context_len * (shape.num_heads * shape.query_head_dim)) as usize;
    let old_cache = floats(
        tensors.cache,
        cache_contents(len, old_key),
        "xasr_stack0_attn_cache"@,
    );
    let cache = floats(tensors.cache, cache_contents(len, key), "xasr_stack0_attn_cache"@);
    lemma_changed(first, second, changes, old_cache, cache);
    let a = first.push(old_cache);
    let b = second.push(cache);
    let mask = floats(
        tensors.mask,
        encoder_tables::attention_mask(
            shape.left_context_len as int,
            shape.frames as int,
            valid_left_context as int,
        ),
        "xasr_stack0_attn_mask"@,
    );
    lemma_same(a, b, changes, mask);
    let positions = floats(
        tensors.pos_embedding,
        encoder_tables::position_table(
            m,
            shape.frames as int,
            shape.left_context_len as int,
            shape.pos_dim as int,
        ),
        "xasr_stack0_attn_pos"@,
    );
    lemma_same(a.push(mask), b.push(mask), changes, positions);
    let c = a.push(mask).push(positions);
    let d = b.push(mask).push(positions);
    lemma_linear(c, d, changes, tensors.in_proj_weight, tensors.in_proj_bias, weights.in_proj);
    lemma_same(
        linear_uploads(c, tensors.in_proj_weight, tensors.in_proj_bias, weights.in_proj),
        linear_uploads(d, tensors.in_proj_weight, tensors.in_proj_bias, weights.in_proj),
        changes,
        weight_upload(tensors.linear_pos_weight, weights.linear_pos, "xasr_stack0_attn_pos_w"@),
    );
}

/// The uploads of a convolution module differ by its cache.
proof fn lemma_convolution(
    m: FloatModel,
    first: Seq<EffectView>,
    second: Seq<EffectView>,
    changes: Seq<EffectView>,
    tensors: XasrConvolutionModuleGraphTensors,
    weights: XasrConvolutionModuleWeights,
    dim: usize,
    frames: usize,
    cache_len: usize,
    old_cache: Option<Seq<u32>>,
    cache: Option<Seq<u32>>,
)
    requires
        differ_by(first, second, changes),
        changes.contains(
            floats(
                tensors.cache,
                cache_contents((dim * cache_len) as usize, cache),
                "xasr_conv_cache"@,
            ),
        ),
    ensures
        differ_by(
            convolution_uploads(m, first, tensors, weights, dim, frames, cache_len, old_cache),
            convolution_uploads(m, second, tensors, weights, dim, frames, cache_len, cache),
            changes,
        ),
{
    let len = (dim * cache_len) as usize;
    let before = floats(tensors.cache, cache_contents(len, old_cache), "xasr_conv_cache"@);
    let after = floats(tensors.cache, cache_contents(len, cache), "xasr_conv_cache"@);
    lemma_changed(first, second, changes, before, after);
    let a = first.push(before);
    let b = second.push(after);
    lemma_linear(a, b, changes, tensors.in_proj_weight, tensors.in_proj_bias, weights.in_proj);
    let a = linear_uploads(a, tensors.in_proj_weight, tensors.in_proj_bias, weights.in_proj);
    let b = linear_uploads(b, tensors.in_proj_weight, tensors.in_proj_bias, weights.in_proj);
    let causal_kernel = floats(
        tensors.causal_kernel,
        weights.depthwise_causal_conv.weight.values@,
        "xasr_conv_causal_w"@,
    );
    lemma_same(a, b, changes, causal_kernel);
    let a = a.push(causal_kernel);
    let b = b.push(causal_kernel);
    let causal_bias = floats(
        tensors.causal_bias,
        weights.depthwise_causal_conv.bias@,
        "xasr_conv_causal_b"@,
    );
    lemma_same(a, b, changes, causal_bias);
    let a = a.push(causal_bias);
    let b = b.push(causal_bias);
    let chunk_kernel = floats(
        tensors.chunk_kernel,
        weights.depthwise_chunkwise_conv.weight.values@,
        "xasr_conv_chunk_w"@,
    );
    lemma_same(a, b, changes, chunk_kernel);
    let a = a.push(chunk_kernel);
    let b = b.push(chunk_kernel);
    let chunk_bias = floats(
        tensors.chunk_bias,
        weights.depthwise_chunkwise_conv.bias@,
        "xasr_conv_chunk_b"@,
    );
    lemma_same(a, b, changes, chunk_bias);
    let a = a.push(chunk_bias);
    let b = b.push(chunk_bias);
    let scale = floats(
        tensors.chunk_scale,
        encoder_tables::scale_table(m, weights, dim as int, frames as int),
        "xasr_conv_chunk_scale"@,
    );
    lemma_same(a, b, changes, scale);
    let a = a.push(scale);
    let b = b.push(scale);
    lemma_linear(a, b, changes, tensors.out_proj_weight, tensors.out_proj_bias, weights.out_proj);
    let a = linear_uploads(a, tensors.out_proj_weight, tensors.out_proj_bias, weights.out_proj);
    let b = linear_uploads(b, tensors.out_proj_weight, tensors.out_proj_bias, weights.out_proj);
    let offset = floats(
        tensors.swoosh_r_offset,
        seq![SWOOSH_R_OFFSET],
        "xasr_conv_swoosh_r_offset"@,
    );
    lemma_same(a, b, changes, offset);
    lemma_same(
        a.push(offset),
        b.push(offset),
        changes,
        floats(tensors.swoosh_r_shift, seq![SWOOSH_R_SHIFT], "xasr_conv_swoosh_r_shift"@),
    );
}

/// A cache and two linear layers: the uploads differ by the cache.
proof fn lemma_block(
    first: Seq<EffectView>,
    second: Seq<EffectView>,
    changes: Seq<EffectView>,
    old_cache: EffectView,
    cache: EffectView,
    in_weight: GgmlCpuTensor,
    in_bias: GgmlCpuTensor,
    in_proj: XasrLinearWithBias,
    out_weight: GgmlCpuTensor,
    out_bias: GgmlCpuTensor,
    out_proj: XasrLinearWithBias,
)
    requires
        differ_by(first, second, changes),
        changes.contains(cache),
        target(old_cache) == target(cache),
    ensures
        differ_by(
            linear_uploads(
                linear_uploads(first.push(old_cache), in_weight, in_bias, in_proj),
                out_weight,
                out_bias,
                out_proj,
            ),
            linear_uploads(
                linear_uploads(second.push(cache), in_weight, in_bias, in_proj),
                out_weight,
                out_bias,
                out_proj,
            ),
            changes,
        ),
{
    lemma_changed(first, second, changes, old_cache, cache);
    let a = first.push(old_cache);
    let b = second.push(cache);
    lemma_linear(a, b, changes, in_weight, in_bias, in_proj);
    lemma_linear(
        linear_uploads(a, in_weight, in_bias, in_proj),
        linear_uploads(b, in_weight, in_bias, in_proj),
        changes,
        out_weight,
        out_bias,
        out_proj,
    );
}

/// The changes hold all caches of a layer.
spec fn holds_caches(
    changes: Seq<EffectView>,
    binding: XasrZipformerLayerGraphBinding,
    cache: LayerCacheView,
) -> bool {
    let none = Seq::<EffectView>::empty();
    let six = dynamic_cache_uploads(none, binding, cache);
    forall|k: int| 0 <= k < 6 ==> changes.contains(#[trigger] six[k])
}

/// The uploads of a layer differ by its caches.
#[verifier::spinoff_prover]
#[verifier::rlimit(60)]
proof fn lemma_layer(
    m: FloatModel,
    first: Seq<EffectView>,
    second: Seq<EffectView>,
    changes: Seq<EffectView>,
    binding: XasrZipformerLayerGraphBinding,
    layer: XasrEncoderLayerWeights,
    valid_left_context: usize,
    old_cache: LayerCacheView,
    cache: LayerCacheView,
)
    requires
        differ_by(first, second, changes),
        holds_caches(changes, binding, cache),
    ensures
        differ_by(
            layer_uploads(m, first, binding, layer, valid_left_context, old_cache),
            layer_uploads(m, second, binding, layer, valid_left_context, cache),
            changes,
        ),
{
    reveal(layer_head_uploads);
    let head = binding.tensors.layer_head;
    let shape = binding.shape.layer_head;
    let lengths = cache_lengths(binding.shape);
    let six = dynamic_cache_uploads(Seq::<EffectView>::empty(), binding, cache);
    assert(changes.contains(six[0]) && changes.contains(six[1]) && changes.contains(six[2])
        && changes.contains(six[3]) && changes.contains(six[4]) && changes.contains(six[5]));
    lemma_feed_forward(first, second, changes, head.feed_forward1, layer.feed_forward1);
    let a = feed_forward_uploads(first, head.feed_forward1, layer.feed_forward1);
    let b = feed_forward_uploads(second, head.feed_forward1, layer.feed_forward1);
    lemma_attention(
        m,
        a,
        b,
        changes,
        head.attention_weights,
        layer.self_attn_weights,
        shape,
        valid_left_context,
        old_cache.key,
        cache.key,
    );
    let a = attention_uploads(
        m,
        a,
        head.attention_weights,
        layer.self_attn_weights,
        shape,
        valid_left_context,
        old_cache.key,
    );
    let b = attention_uploads(
        m,
        b,
        head.attention_weights,
        layer.self_attn_weights,
        shape,
        valid_left_context,
        cache.key,
    );
    let old_nonlin = floats(
        head.nonlin_cache,
        cache_contents(lengths.cached_nonlin_attention, old_cache.nonlin),
        "xasr_stack0_nonlin_cache"@,
    );
    lemma_block(
        a,
        b,
        changes,
        old_nonlin,
        six[1],
        head.nonlin_in_proj_weight,
        head.nonlin_in_proj_bias,
        layer.nonlin_attention.in_proj,
        head.nonlin_out_proj_weight,
        head.nonlin_out_proj_bias,
        layer.nonlin_attention.out_proj,
    );
    let a = linear_uploads(
        linear_uploads(
            a.push(old_nonlin),
            head.nonlin_in_proj_weight,
            head.nonlin_in_proj_bias,
            layer.nonlin_attention.in_proj,
        ),
        head.nonlin_out_proj_weight,
        head.nonlin_out_proj_bias,
        layer.nonlin_attention.out_proj,
    );
    let b = linear_uploads(
        linear_uploads(
            b.push(six[1]),
            head.nonlin_in_proj_weight,
            head.nonlin_in_proj_bias,
            layer.nonlin_attention.in_proj,
        ),
        head.nonlin_out_proj_weight,
        head.nonlin_out_proj_bias,
        layer.nonlin_attention.out_proj,
    );
    let old_self1 = floats(
        head.self1_cache,
        cache_contents(lengths.cached_val1, old_cache.val1),
        "xasr_stack0_self1_cache"@,
    );
    lemma_block(
        a,
        b,
        changes,
        old_self1,
        six[2],
        head.self1_in_proj_weight,
        head.self1_in_proj_bias,
        layer.self_attn1.in_proj,
        head.self1_out_proj_weight,
        head.self1_out_proj_bias,
        layer.self_attn1.out_proj,
    );
    let a = linear_uploads(
        linear_uploads(
            a.push(old_self1),
            head.self1_in_proj_weight,
            head.self1_in_proj_bias,
            layer.self_attn1.in_proj,
        ),
        head.self1_out_proj_weight,
        head.self1_out_proj_bias,
        layer.self_attn1.out_proj,
    );
    let b = linear_uploads(
        linear_uploads(
            b.push(six[2]),
            head.self1_in_proj_weight,
            head.self1_in_proj_bias,
            layer.self_attn1.in_proj,
        ),
        head.self1_out_proj_weight,
        head.self1_out_proj_bias,
        layer.self_attn1.out_proj,
    );
    lemma_convolution(
        m,
        a,
        b,
        changes,
        head.conv_module1,
        layer.conv_module1,
        shape.dim,
        shape.frames,
        shape.conv1_cache_len,
        old_cache.conv1,
        cache.conv1,
    );
    let a = convolution_uploads(
        m,
        a,
        head.conv_module1,
        layer.conv_module1,
        shape.dim,
        shape.frames,
        shape.conv1_cache_len,
        old_cache.conv1,
    );
    let b = convolution_uploads(
        m,
        b,
        head.conv_module1,
        layer.conv_module1,
        shape.dim,
        shape.frames,
        shape.conv1_cache_len,
        cache.conv1,
    );
    lemma_feed_forward(a, b, changes, head.feed_forward2, layer.feed_forward2);
    let a = feed_forward_uploads(a, head.feed_forward2, layer.feed_forward2);
    let b = feed_forward_uploads(b, head.feed_forward2, layer.feed_forward2);
    let mid = floats(
        head.bypass_mid_scale,
        layer.bypass_mid_scale@,
        "xasr_stack0_bypass_mid_scale"@,
    );
    lemma_same(a, b, changes, mid);
    let a = a.push(mid);
    let b = b.push(mid);
    assert(a == layer_head_uploads(m, first, binding, layer, valid_left_context, old_cache));
    assert(b == layer_head_uploads(m, second, binding, layer, valid_left_context, cache));
    lemma_tail(m, a, b, changes, binding, layer, old_cache, cache);
}

/// The uploads of the second half of a layer differ by its caches.
#[verifier::spinoff_prover]
proof fn lemma_tail(
    m: FloatModel,
    first: Seq<EffectView>,
    second: Seq<EffectView>,
    changes: Seq<EffectView>,
    binding: XasrZipformerLayerGraphBinding,
    layer: XasrEncoderLayerWeights,
    old_cache: LayerCacheView,
    cache: LayerCacheView,
)
    requires
        differ_by(first, second, changes),
        holds_caches(changes, binding, cache),
    ensures
        differ_by(
            tail_uploads(m, first, binding, layer, old_cache),
            tail_uploads(m, second, binding, layer, cache),
            changes,
        ),
{
    let tensors = binding.tensors;
    let tail = tensors.layer_tail;
    let shape = binding.shape.layer_tail;
    let lengths = cache_lengths(binding.shape);
    let six = dynamic_cache_uploads(Seq::<EffectView>::empty(), binding, cache);
    assert(changes.contains(six[4]) && changes.contains(six[5]));
    let old_self2 = floats(
        tensors.self2_cache,
        cache_contents(lengths.cached_val2, old_cache.val2),
        "xasr_stack0_self2_cache"@,
    );
    lemma_block(
        first,
        second,
        changes,
        old_self2,
        six[4],
        tensors.self2_in_proj_weight,
        tensors.self2_in_proj_bias,
        layer.self_attn2.in_proj,
        tensors.self2_out_proj_weight,
        tensors.self2_out_proj_bias,
        layer.self_attn2.out_proj,
    );
    let a = linear_uploads(
        linear_uploads(
            first.push(old_self2),
            tensors.self2_in_proj_weight,
            tensors.self2_in_proj_bias,
            layer.self_attn2.in_proj,
        ),
        tensors.self2_out_proj_weight,
        tensors.self2_out_proj_bias,
        layer.self_attn2.out_proj,
    );
    let b = linear_uploads(
        linear_uploads(
            second.push(six[4]),
            tensors.self2_in_proj_weight,
            tensors.self2_in_proj_bias,
            layer.self_attn2.in_proj,
        ),
        tensors.self2_out_proj_weight,
        tensors.self2_out_proj_bias,
        layer.self_attn2.out_proj,
    );
    lemma_convolution(
        m,
        a,
        b,
        changes,
        tail.conv_module2,
        layer.conv_module2,
        shape.dim,
        shape.frames,
        shape.conv_cache_len,
        old_cache.conv2,
        cache.conv2,
    );
    let a = convolution_uploads(
        m,
        a,
        tail.conv_module2,
        layer.conv_module2,
        shape.dim,
        shape.frames,
        shape.conv_cache_len,
        old_cache.conv2,
    );
    let b = convolution_uploads(
        m,
        b,
        tail.conv_module2,
        layer.conv_module2,
        shape.dim,
        shape.frames,
        shape.conv_cache_len,
        cache.conv2,
    );
    lemma_feed_forward(a, b, changes, tail.feed_forward3, layer.feed_forward3);
    let a = feed_forward_uploads(a, tail.feed_forward3, layer.feed_forward3);
    let b = feed_forward_uploads(b, tail.feed_forward3, layer.feed_forward3);
    let norm = floats(tail.norm_bias, layer.norm_bias@, "xasr_stack0_norm_bias"@);
    lemma_same(a, b, changes, norm);
    lemma_same(
        a.push(norm),
        b.push(norm),
        changes,
        floats(tail.bypass_scale, layer.bypass_scale@, "xasr_stack0_bypass_scale"@),
    );
}

/// The uploads of the second half of a layer, appended.
spec fn tail_uploads(
    m: FloatModel,
    pending: Seq<EffectView>,
    binding: XasrZipformerLayerGraphBinding,
    layer: XasrEncoderLayerWeights,
    cache: LayerCacheView,
) -> Seq<EffectView> {
    let tensors = binding.tensors;
    let tail = tensors.layer_tail;
    let shape = binding.shape.layer_tail;
    let lengths = cache_lengths(binding.shape);
    let with_self2 = linear_uploads(
        linear_uploads(
            pending.push(
                floats(
                    tensors.self2_cache,
                    cache_contents(lengths.cached_val2, cache.val2),
                    "xasr_stack0_self2_cache"@,
                ),
            ),
            tensors.self2_in_proj_weight,
            tensors.self2_in_proj_bias,
            layer.self_attn2.in_proj,
        ),
        tensors.self2_out_proj_weight,
        tensors.self2_out_proj_bias,
        layer.self_attn2.out_proj,
    );
    let with_conv2 = convolution_uploads(
        m,
        with_self2,
        tail.conv_module2,
        layer.conv_module2,
        shape.dim,
        shape.frames,
        shape.conv_cache_len,
        cache.conv2,
    );
    feed_forward_uploads(with_conv2, tail.feed_forward3, layer.feed_forward3).push(
        floats(tail.norm_bias, layer.norm_bias@, "xasr_stack0_norm_bias"@),
    ).push(floats(tail.bypass_scale, layer.bypass_scale@, "xasr_stack0_bypass_scale"@))
}

/// The uploads of the caches follow what was pending.
pub proof fn lemma_caches_follow(
    parts: PlanParts,
    pending: Seq<EffectView>,
    caches: Option<Seq<XasrEncoderLayerCache>>,
    count: int,
)
    ensures
        parts.caches_uploads(pending, caches, count).len() >= pending.len(),
        forall|j: int|
            0 <= j < pending.len() ==> #[trigger] parts.caches_uploads(pending, caches, count)[j]
                == pending[j],
    decreases count,
{
    if count > 0 {
        lemma_caches_follow(parts, pending, caches, count - 1);
    }
}

/// The caches of a layer are among the uploads of all caches.
proof fn lemma_caches_among(
    parts: PlanParts,
    pending: Seq<EffectView>,
    caches: Option<Seq<XasrEncoderLayerCache>>,
    count: int,
    i: int,
)
    requires
        0 <= i < count,
    ensures
        holds_caches(
            parts.caches_uploads(pending, caches, count),
            parts.layers[i].binding,
            cache_at(caches, parts.layers[i].cache_index as int),
        ),
    decreases count,
{
    let all = parts.caches_uploads(pending, caches, count);
    let before = parts.caches_uploads(pending, caches, count - 1);
    let binding = parts.layers[i].binding;
    let cache = cache_at(caches, parts.layers[i].cache_index as int);
    let six = dynamic_cache_uploads(Seq::<EffectView>::empty(), binding, cache);
    if i == count - 1 {
        assert forall|k: int| 0 <= k < 6 implies all.contains(#[trigger] six[k]) by {
            assert(all[before.len() + k] == six[k]);
        }
    } else {
        lemma_caches_among(parts, pending, caches, count - 1, i);
        assert forall|k: int| 0 <= k < 6 implies all.contains(#[trigger] six[k]) by {
            assert(before.contains(six[k]));
            let at = choose|at: int| 0 <= at < before.len() && before[at] == six[k];
            assert(all[at] == before[at]);
        }
    }
}

/// The uploads of the downsamplings do not differ.
proof fn lemma_downsamples(
    parts: PlanParts,
    first: Seq<EffectView>,
    second: Seq<EffectView>,
    changes: Seq<EffectView>,
    count: int,
)
    requires
        differ_by(first, second, changes),
    ensures
        differ_by(
            parts.downsamples_uploads(first, count),
            parts.downsamples_uploads(second, count),
            changes,
        ),
    decreases count,
{
    if count > 0 {
        lemma_downsamples(parts, first, second, changes, count - 1);
        let binding = parts.downsamples[count - 1];
        let shape = binding.shape;
        let a = parts.downsamples_uploads(first, count - 1);
        let b = parts.downsamples_uploads(second, count - 1);
        let channel_pad = floats(
            binding.tensors.channel_pad->0,
            zero_seq(((shape.target_dim - shape.input_dim) * shape.frames) as nat),
            "xasr_down_ch_pad"@,
        );
        let frame_pad = floats(
            binding.tensors.frame_pad->0,
            zero_seq((shape.target_dim * (shape.padded_frames() - shape.frames)) as nat),
            "xasr_down_fr_pad"@,
        );
        lemma_same(a, b, changes, channel_pad);
        lemma_same(a, b, changes, frame_pad);
        lemma_same(a.push(channel_pad), b.push(channel_pad), changes, frame_pad);
    }
}

proof fn lemma_layers(
    m: FloatModel,
    parts: PlanParts,
    first: Seq<EffectView>,
    second: Seq<EffectView>,
    changes: Seq<EffectView>,
    weights: XasrEncoderWeights,
    old_caches: Option<Seq<XasrEncoderLayerCache>>,
    caches: Option<Seq<XasrEncoderLayerCache>>,
    count: int,
)
    requires
        differ_by(first, second, changes),
        forall|i: int|
            0 <= i < count ==> holds_caches(
                changes,
                (#[trigger] parts.layers[i]).binding,
                cache_at(caches, parts.layers[i].cache_index as int),
            ),
    ensures
        differ_by(
            parts.layers_uploads(m, first, weights, old_caches, count),
            parts.layers_uploads(m, second, weights, caches, count),
            changes,
        ),
    decreases count,
{
    if count > 0 {
        lemma_layers(m, parts, first, second, changes, weights, old_caches, caches, count - 1);
        let entry = parts.layers[count - 1];
        lemma_layer(
            m,
            parts.layers_uploads(m, first, weights, old_caches, count - 1),
            parts.layers_uploads(m, second, weights, caches, count - 1),
            changes,
            entry.binding,
            parts.layer_weights(weights, count - 1),
            entry.valid_left_context,
            cache_at(old_caches, entry.cache_index as int),
            cache_at(caches, entry.cache_index as int),
        );
    }
}

proof fn lemma_combiners(
    parts: PlanParts,
    first: Seq<EffectView>,
    second: Seq<EffectView>,
    changes: Seq<EffectView>,
    weights: XasrEncoderWeights,
    count: int,
)
    requires
        differ_by(first, second, changes),
    ensures
        differ_by(
            parts.combiners_uploads(first, weights, count),
            parts.combiners_uploads(second, weights, count),
            changes,
        ),
    decreases count,
{
    if count > 0 {
        lemma_combiners(parts, first, second, changes, weights, count - 1);
        let entry = parts.combiners[count - 1];
        lemma_same(
            parts.combiners_uploads(first, weights, count - 1),
            parts.combiners_uploads(second, weights, count - 1),
            changes,
            floats(
                entry.scale,
                (weights.stacks@[entry.stack_index as int].out_combiner_bypass_scale->0)@,
                "xasr_out_combiner_scale"@,
            ),
        );
    }
}

/// A kept graph needs only its rows and caches uploaded anew: an upload of everything
/// goes into the same tensors whatever the rows and caches are, and wherever it differs
/// from the first upload, the upload of the rows and caches alone holds what has
/// changed.
pub proof fn law_cache_uploads_hold_every_change(
    m: FloatModel,
    parts: PlanParts,
    pending: Seq<EffectView>,
    later: Seq<EffectView>,
    weights: XasrEncoderWeights,
    input: GgmlCpuTensor,
    name: Seq<char>,
    old_rows: Seq<u32>,
    rows: Seq<u32>,
    old_caches: Option<Seq<XasrEncoderLayerCache>>,
    caches: Option<Seq<XasrEncoderLayerCache>>,
)
    ensures
        ({
            let before = parts.all_uploads(
                m,
                pending.push(floats(input, old_rows, name)),
                weights,
                old_caches,
            );
            let after = parts.all_uploads(
                m,
                pending.push(floats(input, rows, name)),
                weights,
                caches,
            );
            let changes = parts.caches_uploads(
                later.push(floats(input, rows, name)),
                caches,
                parts.layers.len() as int,
            );
            &&& before.len() == after.len()
            &&& forall|j: int|
                0 <= j < after.len() ==> target(before[j]) == target(#[trigger] after[j])
            &&& forall|j: int|
                0 <= j < after.len() && before[j] != #[trigger] after[j] ==> changes.contains(
                    after[j],
                )
        }),
{
    let n = parts.layers.len() as int;
    let old_given = floats(input, old_rows, name);
    let given = floats(input, rows, name);
    let changes = parts.caches_uploads(later.push(given), caches, n);
    let first = pending.push(old_given);
    let second = pending.push(given);
    assert(changes.contains(given)) by {
        lemma_caches_follow(parts, later.push(given), caches, n);
        assert(later.push(given)[later.len() as int] == given);
        assert(changes[later.len() as int] == given);
    }
    assert(differ_by(pending, pending, changes)) by {
        reveal(differ_by);
    }
    lemma_changed(pending, pending, changes, old_given, given);
    let d = parts.downsamples.len() as int;
    lemma_downsamples(parts, first, second, changes, d);
    let first = parts.downsamples_uploads(first, d);
    let second = parts.downsamples_uploads(second, d);
    assert forall|i: int| 0 <= i < n implies holds_caches(
        changes,
        (#[trigger] parts.layers[i]).binding,
        cache_at(caches, parts.layers[i].cache_index as int),
    ) by {
        lemma_caches_among(parts, later.push(given), caches, n, i);
    }
    lemma_layers(m, parts, first, second, changes, weights, old_caches, caches, n);
    lemma_combiners(
        parts,
        parts.layers_uploads(m, first, weights, old_caches, n),
        parts.layers_uploads(m, second, weights, caches, n),
        changes,
        weights,
        parts.combiners.len() as int,
    );
    reveal(differ_by);
}

} // verus!
