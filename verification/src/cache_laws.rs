//! What caches promise: zeros stand for none, and equal chunks are equal work.

use vstd::prelude::*;
use crate::bits::{ONE_BITS, ZERO_BITS};
use crate::encoder_binding::XasrZipformerLayerGraphBinding;
use crate::encoder_session::XasrFullEncoderReusableGraph;
use crate::encoder_upload::{
    cache_lengths, dynamic_cache_uploads, layer_head_uploads, layer_uploads, LayerCacheView,
    XasrEncoderLayerCache, XasrLayerCacheLengths,
};
use crate::encoder_weights::{
    XasrEncoderLayerWeights, XasrEncoderWeights, XasrSelfAttentionWeightsWeights,
};
use crate::float_ops::FloatModel;
use crate::graph::EffectView;
use crate::reference_attention::{attention_values, projected_positions, AttentionShape};
use crate::reference_conv_module::cache_or_zeros;
use crate::reference_rows::linear_rows;
use crate::rows::zero_seq;
use crate::softmax::{law_softmax_rows_lie_between_zero_and_one, rounds_in_order};

verus! {

/// No caches.
pub open spec fn no_caches() -> LayerCacheView {
    LayerCacheView { key: None, nonlin: None, val1: None, val2: None, conv1: None, conv2: None }
}

/// Caches of zeros.
pub open spec fn zero_caches(lengths: XasrLayerCacheLengths) -> LayerCacheView {
    LayerCacheView {
        key: Some(zero_seq(lengths.cached_key as nat)),
        nonlin: Some(zero_seq(lengths.cached_nonlin_attention as nat)),
        val1: Some(zero_seq(lengths.cached_val1 as nat)),
        val2: Some(zero_seq(lengths.cached_val2 as nat)),
        conv1: Some(zero_seq(lengths.cached_conv1 as nat)),
        conv2: Some(zero_seq(lengths.cached_conv2 as nat)),
    }
}

/// A layer that gets no caches gets the uploads of one that gets zeros.
pub proof fn law_zeros_stand_for_no_caches(
    m: FloatModel,
    pending: Seq<EffectView>,
    binding: XasrZipformerLayerGraphBinding,
    layer: XasrEncoderLayerWeights,
    valid_left_context: usize,
)
    ensures
        layer_uploads(m, pending, binding, layer, valid_left_context, no_caches())
            == layer_uploads(
            m,
            pending,
            binding,
            layer,
            valid_left_context,
            zero_caches(cache_lengths(binding.shape)),
        ),
        dynamic_cache_uploads(pending, binding, no_caches()) == dynamic_cache_uploads(
            pending,
            binding,
            zero_caches(cache_lengths(binding.shape)),
        ),
{
    reveal(layer_head_uploads);
}

/// On the host, too, attention without a cache is attention over a cache of
/// zeros.
pub proof fn law_attention_takes_zeros_for_no_cache(
    m: FloatModel,
    weights: XasrSelfAttentionWeightsWeights,
    rows: Seq<u32>,
    frames: usize,
    dim: usize,
    num_heads: usize,
    query_head_dim: usize,
    left_context_len: usize,
    mask: Option<Seq<bool>>,
)
    ensures
        attention_values(
            m,
            weights,
            rows,
            frames,
            dim,
            num_heads,
            query_head_dim,
            left_context_len,
            None,
            mask,
        ) == attention_values(
            m,
            weights,
            rows,
            frames,
            dim,
            num_heads,
            query_head_dim,
            left_context_len,
            Some(zero_seq((left_context_len * (num_heads * query_head_dim)) as nat)),
            mask,
        ),
{
    assert(left_context_len * (num_heads * query_head_dim) >= 0) by (nonlinear_arith);
}

/// The attention to each key lies between zero and one, where rounding keeps the order of
/// numbers.
pub proof fn law_attention_lies_between_zero_and_one(
    m: FloatModel,
    weights: XasrSelfAttentionWeightsWeights,
    rows: Seq<u32>,
    frames: usize,
    dim: usize,
    num_heads: usize,
    query_head_dim: usize,
    left_context_len: usize,
    cached_key: Option<Seq<u32>>,
    mask: Option<Seq<bool>>,
    i: int,
)
    requires
        rounds_in_order(m),
    ensures
        ({
            let attention = attention_values(
                m,
                weights,
                rows,
                frames,
                dim,
                num_heads,
                query_head_dim,
                left_context_len,
                cached_key,
                mask,
            );
            attention is Ok && 0 <= i < attention->Ok_0.weights.len() ==> ZERO_BITS
                <= attention->Ok_0.weights[i] <= ONE_BITS
        }),
{
    let shape = AttentionShape {
        num_heads: num_heads as int,
        query_head_dim: query_head_dim as int,
        pos_output_dim: weights.linear_pos.output_dim as int,
        frames: frames as int,
        left_context_len: left_context_len as int,
    };
    let attention = attention_values(
        m,
        weights,
        rows,
        frames,
        dim,
        num_heads,
        query_head_dim,
        left_context_len,
        cached_key,
        mask,
    );
    if attention is Ok && 0 <= i < attention->Ok_0.weights.len() {
        let projected = linear_rows(m, weights.in_proj, rows, frames, dim)->Ok_0;
        let cache_len = left_context_len * shape.query_dim();
        let keys = shape.all_keys(cache_or_zeros(cached_key, cache_len), projected);
        let positions = projected_positions(
            m,
            weights.linear_pos,
            frames as int,
            left_context_len as int,
        )->Ok_0;
        law_softmax_rows_lie_between_zero_and_one(
            m,
            shape.scores(m, projected, keys, positions, mask),
            (left_context_len + frames) as usize,
            i,
        );
    }
}

/// Equal chunks are equal work for a kept graph: once it holds the weights and
/// what it computes has not changed, the same rows and caches are uploaded in
/// the same way, whatever came between.
pub proof fn law_equal_chunks_are_uploaded_alike(
    first: XasrFullEncoderReusableGraph,
    second: XasrFullEncoderReusableGraph,
    m: FloatModel,
    weights: XasrEncoderWeights,
    rows: Seq<u32>,
    caches: Option<Seq<XasrEncoderLayerCache>>,
)
    requires
        first.static_uploaded,
        second.static_uploaded,
        second.plan == first.plan,
        second.input == first.input,
        second.graph.pending() == first.graph.pending(),
    ensures
        second.chunk_uploads(m, weights, rows, caches) == first.chunk_uploads(
            m,
            weights,
            rows,
            caches,
        ),
        second.chunk_refusal(weights, caches) == first.chunk_refusal(weights, caches),
{
}

} // verus!
