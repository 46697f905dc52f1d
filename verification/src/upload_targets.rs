//! No upload into an encoder graph replaces another.

use vstd::prelude::*;
use crate::attention_graph::XasrSelfAttentionWeightsGraphTensors;
use crate::embed_binding::{downsample_uploads, XasrDownsampleGraphBinding};
use crate::encoder_binding::{
    convolution_module_handles, feed_forward_handles, layer_handles, LAYER_LEAF_COUNT,
    XasrZipformerLayerGraphBinding,
};
use crate::encoder_plan::PlanParts;
use crate::encoder_session::XasrFullEncoderReusableGraph;
use crate::encoder_upload::{
    attention_uploads, cache_contents, cache_lengths, convolution_uploads, dynamic_cache_uploads,
    feed_forward_uploads, floats, layer_head_uploads, layer_uploads, linear_uploads,
    LayerCacheView, XasrEncoderLayerCache,
};
use crate::encoder_weights::{
    XasrConvolutionModuleWeights, XasrEncoderLayerWeights, XasrEncoderWeights,
    XasrLinearPairWeights, XasrSelfAttentionWeightsWeights,
};
use crate::float_ops::FloatModel;
use crate::full_upload::cache_at;
use crate::graph::{EffectView, GgmlCpuGraphBuilder, GgmlCpuTensor};
use crate::layer_graph::{XasrConvolutionModuleGraphTensors, XasrFeedForwardGraphTensors};
use crate::parity::Device;
use crate::parity_upload::place_in;
use crate::plan_spans::{
    combiner_span, disjoint, downsample_span, inside, layer_span, pads_apart, parts_apart, whole,
};
use crate::runtime_contract::XasrZipformerExecutionMetadata;
use crate::zipformer_graph::XasrLayerHeadGraphShape;

verus! {

/// The tensor that an effect uploads into.
pub open spec fn target(effect: EffectView) -> Option<int> {
    match effect {
        EffectView::UploadFloats { tensor, .. } => Some(tensor),
        EffectView::UploadIntegers { tensor, .. } => Some(tensor),
        EffectView::UploadBytes { tensor, .. } => Some(tensor),
        _ => None,
    }
}

/// All effects from `from` on are uploads, no two of them into one tensor.
pub open spec fn distinct_targets(effects: Seq<EffectView>, from: int) -> bool {
    &&& forall|i: int| from <= i < effects.len() ==> target(#[trigger] effects[i]) is Some
    &&& forall|i: int, j: int|
        from <= i < j < effects.len() ==> target(#[trigger] effects[i]) != target(
            #[trigger] effects[j],
        )
}

/// No effect from `from` on uploads into a span.
spec fn avoids(effects: Seq<EffectView>, from: int, span: (int, int)) -> bool {
    forall|i: int|
        from <= i < effects.len() ==> (target(#[trigger] effects[i]) is Some ==> !(span.0 <= target(
            effects[i],
        )->0 < span.1))
}

/// The effects are extended by uploads into ever later tensors of a span.
#[verifier::opaque]
spec fn rising(before: Seq<EffectView>, after: Seq<EffectView>, low: int, high: int) -> bool {
    &&& low <= high
    &&& before.is_prefix_of(after)
    &&& forall|i: int|
        before.len() <= i < after.len() ==> target(#[trigger] after[i]) is Some && low <= target(
            after[i],
        )->0 < high
    &&& forall|i: int, j: int|
        before.len() <= i < j < after.len() ==> target(#[trigger] after[i])->0 < target(
            #[trigger] after[j],
        )->0
}

proof fn lemma_rising_trans(
    a: Seq<EffectView>,
    b: Seq<EffectView>,
    c: Seq<EffectView>,
    low: int,
    middle: int,
    high: int,
)
    requires
        rising(a, b, low, middle),
        rising(b, c, middle, high),
    ensures
        rising(a, c, low, high),
{
    reveal(rising);
    assert forall|i: int| 0 <= i < b.len() implies c[i] == #[trigger] b[i] by {
        assert(c.take(b.len() as int)[i] == b[i]);
    }
    assert forall|i: int| 0 <= i < a.len() implies b[i] == #[trigger] a[i] by {
        assert(b.take(a.len() as int)[i] == a[i]);
    }
    assert(a =~= c.take(a.len() as int));
    assert forall|i: int| a.len() <= i < c.len() implies target(#[trigger] c[i]) is Some && low
        <= target(c[i])->0 < high by {
        if i < b.len() {
            assert(c[i] == b[i]);
        }
    }
    assert forall|i: int, j: int| a.len() <= i < j < c.len() implies target(#[trigger] c[i])->0
        < target(#[trigger] c[j])->0 by {
        if i < b.len() {
            assert(c[i] == b[i]);
            if j < b.len() {
                assert(c[j] == b[j]);
            }
        }
    }
}

proof fn lemma_rising_push(
    a: Seq<EffectView>,
    b: Seq<EffectView>,
    effect: EffectView,
    low: int,
    middle: int,
)
    requires
        rising(a, b, low, middle),
        target(effect) == Some(middle),
    ensures
        rising(a, b.push(effect), low, middle + 1),
{
    assert(rising(b, b.push(effect), middle, middle + 1)) by {
        reveal(rising);
        assert(b =~= b.push(effect).take(b.len() as int));
    }
    lemma_rising_trans(a, b, b.push(effect), low, middle, middle + 1);
}

proof fn lemma_rising_start(a: Seq<EffectView>, low: int)
    ensures
        rising(a, a, low, low),
{
    reveal(rising);
    assert(a =~= a.take(a.len() as int));
}

proof fn lemma_feed_forward_rises(
    pending: Seq<EffectView>,
    tensors: XasrFeedForwardGraphTensors,
    weights: XasrLinearPairWeights,
    base: int,
)
    requires
        tensors == feed_forward_handles(base),
        0 <= base,
        base + 6 <= usize::MAX,
    ensures
        rising(pending, feed_forward_uploads(pending, tensors, weights), base, base + 6),
{
    reveal(rising);
    let after = feed_forward_uploads(pending, tensors, weights);
    assert(pending =~= after.take(pending.len() as int));
}

proof fn lemma_attention_rises(
    m: FloatModel,
    pending: Seq<EffectView>,
    tensors: XasrSelfAttentionWeightsGraphTensors,
    weights: XasrSelfAttentionWeightsWeights,
    shape: XasrLayerHeadGraphShape,
    valid_left_context: usize,
    cached_key: Option<Seq<u32>>,
    base: int,
)
    requires
        0 <= base,
        tensors.cache.id == base,
        tensors.mask.id == base + 1,
        tensors.pos_embedding.id == base + 2,
        tensors.in_proj_weight.id == base + 3,
        tensors.in_proj_bias.id == base + 4,
        tensors.linear_pos_weight.id == base + 5,
    ensures
        rising(
            pending,
            attention_uploads(m, pending, tensors, weights, shape, valid_left_context, cached_key),
            base,
            base + 6,
        ),
{
    reveal(rising);
    let after = attention_uploads(
        m,
        pending,
        tensors,
        weights,
        shape,
        valid_left_context,
        cached_key,
    );
    assert(pending =~= after.take(pending.len() as int));
}

#[verifier::spinoff_prover]
#[verifier::rlimit(40)]
proof fn lemma_convolution_rises(
    m: FloatModel,
    pending: Seq<EffectView>,
    tensors: XasrConvolutionModuleGraphTensors,
    weights: XasrConvolutionModuleWeights,
    dim: usize,
    frames: usize,
    cache_len: usize,
    cache: Option<Seq<u32>>,
    base: int,
)
    requires
        tensors == convolution_module_handles(base),
        0 <= base,
        base + 12 <= usize::MAX,
    ensures
        rising(
            pending,
            convolution_uploads(m, pending, tensors, weights, dim, frames, cache_len, cache),
            base,
            base + 12,
        ),
{
    reveal(rising);
    let after = convolution_uploads(m, pending, tensors, weights, dim, frames, cache_len, cache);
    assert(pending =~= after.take(pending.len() as int));
}

#[verifier::spinoff_prover]
#[verifier::rlimit(60)]
proof fn lemma_layer_head_rises(
    m: FloatModel,
    pending: Seq<EffectView>,
    binding: XasrZipformerLayerGraphBinding,
    layer: XasrEncoderLayerWeights,
    valid_left_context: usize,
    cache: LayerCacheView,
    base: int,
)
    requires
        binding.tensors == layer_handles(base),
        0 <= base,
        base + LAYER_LEAF_COUNT <= usize::MAX,
    ensures
        rising(
            pending,
            layer_head_uploads(m, pending, binding, layer, valid_left_context, cache),
            base,
            base + 41,
        ),
{
    reveal(layer_handles);
    reveal(layer_head_uploads);
    let head = binding.tensors.layer_head;
    let shape = binding.shape.layer_head;
    let e1 = feed_forward_uploads(pending, head.feed_forward1, layer.feed_forward1);
    lemma_feed_forward_rises(pending, head.feed_forward1, layer.feed_forward1, base);
    let e2 = attention_uploads(
        m,
        e1,
        head.attention_weights,
        layer.self_attn_weights,
        shape,
        valid_left_context,
        cache.key,
    );
    lemma_attention_rises(
        m,
        e1,
        head.attention_weights,
        layer.self_attn_weights,
        shape,
        valid_left_context,
        cache.key,
        base + 6,
    );
    lemma_rising_trans(pending, e1, e2, base, base + 6, base + 12);
    let lengths = cache_lengths(binding.shape);
    let p1 = e2.push(
        floats(
            head.nonlin_cache,
            cache_contents(lengths.cached_nonlin_attention, cache.nonlin),
            "xasr_stack0_nonlin_cache"@,
        ),
    );
    let p2 = linear_uploads(
        p1,
        head.nonlin_in_proj_weight,
        head.nonlin_in_proj_bias,
        layer.nonlin_attention.in_proj,
    );
    let e3 = linear_uploads(
        p2,
        head.nonlin_out_proj_weight,
        head.nonlin_out_proj_bias,
        layer.nonlin_attention.out_proj,
    );
    let p3 = e3.push(
        floats(
            head.self1_cache,
            cache_contents(lengths.cached_val1, cache.val1),
            "xasr_stack0_self1_cache"@,
        ),
    );
    let p4 = linear_uploads(
        p3,
        head.self1_in_proj_weight,
        head.self1_in_proj_bias,
        layer.self_attn1.in_proj,
    );
    let e4 = linear_uploads(
        p4,
        head.self1_out_proj_weight,
        head.self1_out_proj_bias,
        layer.self_attn1.out_proj,
    );
    assert(rising(e2, e4, base + 12, base + 22)) by {
        reveal(rising);
        assert(e2 =~= e4.take(e2.len() as int));
    }
    lemma_rising_trans(pending, e2, e4, base, base + 12, base + 22);
    let e5 = convolution_uploads(
        m,
        e4,
        head.conv_module1,
        layer.conv_module1,
        shape.dim,
        shape.frames,
        shape.conv1_cache_len,
        cache.conv1,
    );
    lemma_convolution_rises(
        m,
        e4,
        head.conv_module1,
        layer.conv_module1,
        shape.dim,
        shape.frames,
        shape.conv1_cache_len,
        cache.conv1,
        base + 22,
    );
    lemma_rising_trans(pending, e4, e5, base, base + 22, base + 34);
    let e6 = feed_forward_uploads(e5, head.feed_forward2, layer.feed_forward2);
    lemma_feed_forward_rises(e5, head.feed_forward2, layer.feed_forward2, base + 34);
    lemma_rising_trans(pending, e5, e6, base, base + 34, base + 40);
    lemma_rising_push(
        pending,
        e6,
        floats(
            head.bypass_mid_scale,
            layer.bypass_mid_scale@,
            "xasr_stack0_bypass_mid_scale"@,
        ),
        base,
        base + 40,
    );
}

#[verifier::spinoff_prover]
#[verifier::rlimit(60)]
proof fn lemma_layer_rises(
    m: FloatModel,
    pending: Seq<EffectView>,
    binding: XasrZipformerLayerGraphBinding,
    layer: XasrEncoderLayerWeights,
    valid_left_context: usize,
    cache: LayerCacheView,
    base: int,
)
    requires
        binding.tensors == layer_handles(base),
        0 <= base,
        base + LAYER_LEAF_COUNT <= usize::MAX,
    ensures
        rising(
            pending,
            layer_uploads(m, pending, binding, layer, valid_left_context, cache),
            base,
            base + LAYER_LEAF_COUNT,
        ),
{
    reveal(layer_handles);
    let tensors = binding.tensors;
    let tail = tensors.layer_tail;
    let shape = binding.shape.layer_tail;
    let lengths = cache_lengths(binding.shape);
    let e1 = layer_head_uploads(m, pending, binding, layer, valid_left_context, cache);
    lemma_layer_head_rises(m, pending, binding, layer, valid_left_context, cache, base);
    let p1 = e1.push(
        floats(
            tensors.self2_cache,
            cache_contents(lengths.cached_val2, cache.val2),
            "xasr_stack0_self2_cache"@,
        ),
    );
    let p2 = linear_uploads(
        p1,
        tensors.self2_in_proj_weight,
        tensors.self2_in_proj_bias,
        layer.self_attn2.in_proj,
    );
    let e2 = linear_uploads(
        p2,
        tensors.self2_out_proj_weight,
        tensors.self2_out_proj_bias,
        layer.self_attn2.out_proj,
    );
    assert(rising(e1, e2, base + 41, base + 46)) by {
        reveal(rising);
        assert(e1 =~= e2.take(e1.len() as int));
    }
    lemma_rising_trans(pending, e1, e2, base, base + 41, base + 46);
    let e3 = convolution_uploads(
        m,
        e2,
        tail.conv_module2,
        layer.conv_module2,
        shape.dim,
        shape.frames,
        shape.conv_cache_len,
        cache.conv2,
    );
    lemma_convolution_rises(
        m,
        e2,
        tail.conv_module2,
        layer.conv_module2,
        shape.dim,
        shape.frames,
        shape.conv_cache_len,
        cache.conv2,
        base + 46,
    );
    lemma_rising_trans(pending, e2, e3, base, base + 46, base + 58);
    let e4 = feed_forward_uploads(e3, tail.feed_forward3, layer.feed_forward3);
    lemma_feed_forward_rises(e3, tail.feed_forward3, layer.feed_forward3, base + 58);
    lemma_rising_trans(pending, e3, e4, base, base + 58, base + 64);
    let norm = floats(
        tail.norm_bias,
        layer.norm_bias@,
        "xasr_stack0_norm_bias"@,
    );
    lemma_rising_push(pending, e4, norm, base, base + 64);
    lemma_rising_push(
        pending,
        e4.push(norm),
        floats(
            tail.bypass_scale,
            layer.bypass_scale@,
            "xasr_stack0_bypass_scale"@,
        ),
        base,
        base + 65,
    );
}

proof fn lemma_caches_rise(
    pending: Seq<EffectView>,
    binding: XasrZipformerLayerGraphBinding,
    cache: LayerCacheView,
    base: int,
)
    requires
        binding.tensors == layer_handles(base),
        0 <= base,
        base + LAYER_LEAF_COUNT <= usize::MAX,
    ensures
        rising(
            pending,
            dynamic_cache_uploads(pending, binding, cache),
            base,
            base + LAYER_LEAF_COUNT,
        ),
{
    reveal(layer_handles);
    reveal(rising);
    let after = dynamic_cache_uploads(pending, binding, cache);
    assert(pending =~= after.take(pending.len() as int));
}

proof fn lemma_downsample_rises(pending: Seq<EffectView>, binding: XasrDownsampleGraphBinding)
    requires
        pads_apart(binding),
    ensures
        rising(
            pending,
            downsample_uploads(pending, binding),
            downsample_span(binding).0,
            downsample_span(binding).1,
        ),
{
    reveal(rising);
    let after = downsample_uploads(pending, binding);
    assert(pending =~= after.take(pending.len() as int));
}

/// Uploads into a span that none before uploaded into.
proof fn lemma_distinct_grows(
    before: Seq<EffectView>,
    after: Seq<EffectView>,
    from: int,
    span: (int, int),
)
    requires
        0 <= from <= before.len(),
        rising(before, after, span.0, span.1),
        distinct_targets(before, from),
        avoids(before, from, span),
    ensures
        distinct_targets(after, from),
        before.is_prefix_of(after),
{
    reveal(rising);
    assert forall|i: int| 0 <= i < before.len() implies after[i] == #[trigger] before[i] by {
        assert(after.take(before.len() as int)[i] == before[i]);
    }
    assert forall|i: int| from <= i < after.len() implies target(#[trigger] after[i]) is Some by {
        if i < before.len() {
            assert(after[i] == before[i]);
        }
    }
    assert forall|i: int, j: int| from <= i < j < after.len() implies target(#[trigger] after[i])
        != target(#[trigger] after[j]) by {
        if i < before.len() {
            assert(after[i] == before[i]);
            if j < before.len() {
                assert(after[j] == before[j]);
            }
        }
    }
}

proof fn lemma_avoids_grows(
    before: Seq<EffectView>,
    after: Seq<EffectView>,
    from: int,
    block: (int, int),
    span: (int, int),
)
    requires
        0 <= from <= before.len(),
        rising(before, after, block.0, block.1),
        avoids(before, from, span),
        disjoint(block, span),
    ensures
        avoids(after, from, span),
{
    reveal(rising);
    assert forall|i: int| 0 <= i < before.len() implies after[i] == #[trigger] before[i] by {
        assert(after.take(before.len() as int)[i] == before[i]);
    }
    assert forall|i: int| from <= i < after.len() implies (target(#[trigger] after[i]) is Some
        ==> !(span.0 <= target(after[i])->0 < span.1)) by {
        if i < before.len() {
            assert(after[i] == before[i]);
        }
    }
}

impl PlanParts {
    /// A span that no downsampling of the first `count` has a leaf in.
    spec fn clear_of_downsamples(self, span: (int, int), count: int) -> bool {
        forall|k: int|
            0 <= k < count ==> disjoint(downsample_span(#[trigger] self.downsamples[k]), span)
    }

    /// A span that no layer of the first `count` has a leaf in.
    spec fn clear_of_layers(self, span: (int, int), count: int) -> bool {
        forall|i: int| 0 <= i < count ==> disjoint(layer_span(#[trigger] self.layers[i]), span)
    }

    /// A span that no combiner of the first `count` has a leaf in.
    spec fn clear_of_combiners(self, span: (int, int), count: int) -> bool {
        forall|c: int|
            0 <= c < count ==> disjoint(combiner_span(#[trigger] self.combiners[c]), span)
    }

    proof fn lemma_downsamples_settle(
        self,
        floor: int,
        ceiling: int,
        pending: Seq<EffectView>,
        from: int,
        count: int,
        span: (int, int),
    )
        requires
            parts_apart(self, floor, ceiling),
            0 <= from <= pending.len(),
            0 <= count <= self.downsamples.len(),
            distinct_targets(pending, from),
            avoids(pending, from, (floor, ceiling)),
            avoids(pending, from, span),
            self.clear_of_downsamples(span, count),
        ensures
            distinct_targets(self.downsamples_uploads(pending, count), from),
            pending.is_prefix_of(self.downsamples_uploads(pending, count)),
            avoids(self.downsamples_uploads(pending, count), from, span),
        decreases count,
    {
        if count > 0 {
            reveal(parts_apart);
            let binding = self.downsamples[count - 1];
            let own = downsample_span(binding);
            let before = self.downsamples_uploads(pending, count - 1);
            let after = downsample_uploads(before, binding);
            self.lemma_downsamples_settle(floor, ceiling, pending, from, count - 1, span);
            assert(avoids(pending, from, own)) by {
                assert(inside(own, floor, ceiling));
            }
            assert(self.clear_of_downsamples(own, count - 1));
            self.lemma_downsamples_settle(floor, ceiling, pending, from, count - 1, own);
            lemma_downsample_rises(before, binding);
            lemma_distinct_grows(before, after, from, own);
            lemma_avoids_grows(before, after, from, own, span);
            lemma_prefix_trans(pending, before, after);
        } else {
            assert(pending =~= pending.take(pending.len() as int));
        }
    }

    #[verifier::spinoff_prover]
    proof fn lemma_layers_settle(
        self,
        floor: int,
        ceiling: int,
        m: FloatModel,
        pending: Seq<EffectView>,
        weights: XasrEncoderWeights,
        caches: Option<Seq<XasrEncoderLayerCache>>,
        from: int,
        count: int,
        span: (int, int),
    )
        requires
            parts_apart(self, floor, ceiling),
            ceiling <= usize::MAX,
            0 <= from <= pending.len(),
            0 <= count <= self.layers.len(),
            distinct_targets(pending, from),
            forall|i: int|
                0 <= i < self.layers.len() ==> avoids(
                    pending,
                    from,
                    layer_span(#[trigger] self.layers[i]),
                ),
            avoids(pending, from, span),
            self.clear_of_layers(span, count),
        ensures
            distinct_targets(self.layers_uploads(m, pending, weights, caches, count), from),
            pending.is_prefix_of(self.layers_uploads(m, pending, weights, caches, count)),
            avoids(self.layers_uploads(m, pending, weights, caches, count), from, span),
        decreases count,
    {
        if count > 0 {
            reveal(parts_apart);
            let entry = self.layers[count - 1];
            let own = layer_span(entry);
            let before = self.layers_uploads(m, pending, weights, caches, count - 1);
            let after = self.layers_uploads(m, pending, weights, caches, count);
            self.lemma_layers_settle(
                floor,
                ceiling,
                m,
                pending,
                weights,
                caches,
                from,
                count - 1,
                span,
            );
            assert(self.clear_of_layers(own, count - 1));
            self.lemma_layers_settle(
                floor,
                ceiling,
                m,
                pending,
                weights,
                caches,
                from,
                count - 1,
                own,
            );
            assert(inside(own, floor, ceiling) && whole(entry));
            lemma_layer_rises(
                m,
                before,
                entry.binding,
                self.layer_weights(weights, count - 1),
                entry.valid_left_context,
                cache_at(caches, entry.cache_index as int),
                own.0,
            );
            lemma_distinct_grows(before, after, from, own);
            lemma_avoids_grows(before, after, from, own, span);
            lemma_prefix_trans(pending, before, after);
        } else {
            assert(pending =~= pending.take(pending.len() as int));
        }
    }

    proof fn lemma_caches_settle(
        self,
        floor: int,
        ceiling: int,
        pending: Seq<EffectView>,
        caches: Option<Seq<XasrEncoderLayerCache>>,
        from: int,
        count: int,
        span: (int, int),
    )
        requires
            parts_apart(self, floor, ceiling),
            ceiling <= usize::MAX,
            0 <= from <= pending.len(),
            0 <= count <= self.layers.len(),
            distinct_targets(pending, from),
            avoids(pending, from, (floor, ceiling)),
            avoids(pending, from, span),
            self.clear_of_layers(span, count),
        ensures
            distinct_targets(self.caches_uploads(pending, caches, count), from),
            pending.is_prefix_of(self.caches_uploads(pending, caches, count)),
            avoids(self.caches_uploads(pending, caches, count), from, span),
        decreases count,
    {
        if count > 0 {
            reveal(parts_apart);
            let entry = self.layers[count - 1];
            let own = layer_span(entry);
            let before = self.caches_uploads(pending, caches, count - 1);
            let after = self.caches_uploads(pending, caches, count);
            self.lemma_caches_settle(floor, ceiling, pending, caches, from, count - 1, span);
            assert(inside(own, floor, ceiling) && whole(entry));
            assert(self.clear_of_layers(own, count - 1));
            self.lemma_caches_settle(floor, ceiling, pending, caches, from, count - 1, own);
            lemma_caches_rise(
                before,
                entry.binding,
                cache_at(caches, entry.cache_index as int),
                own.0,
            );
            lemma_distinct_grows(before, after, from, own);
            lemma_avoids_grows(before, after, from, own, span);
            lemma_prefix_trans(pending, before, after);
        } else {
            assert(pending =~= pending.take(pending.len() as int));
        }
    }

    proof fn lemma_combiners_settle(
        self,
        floor: int,
        ceiling: int,
        pending: Seq<EffectView>,
        weights: XasrEncoderWeights,
        from: int,
        count: int,
        span: (int, int),
    )
        requires
            parts_apart(self, floor, ceiling),
            0 <= from <= pending.len(),
            0 <= count <= self.combiners.len(),
            distinct_targets(pending, from),
            forall|c: int|
                0 <= c < self.combiners.len() ==> avoids(
                    pending,
                    from,
                    combiner_span(#[trigger] self.combiners[c]),
                ),
            avoids(pending, from, span),
            self.clear_of_combiners(span, count),
        ensures
            distinct_targets(self.combiners_uploads(pending, weights, count), from),
            pending.is_prefix_of(self.combiners_uploads(pending, weights, count)),
            avoids(self.combiners_uploads(pending, weights, count), from, span),
        decreases count,
    {
        if count > 0 {
            reveal(parts_apart);
            let own = combiner_span(self.combiners[count - 1]);
            let before = self.combiners_uploads(pending, weights, count - 1);
            let after = self.combiners_uploads(pending, weights, count);
            self.lemma_combiners_settle(floor, ceiling, pending, weights, from, count - 1, span);
            assert(self.clear_of_combiners(own, count - 1));
            self.lemma_combiners_settle(floor, ceiling, pending, weights, from, count - 1, own);
            lemma_rising_start(before, own.0);
            lemma_rising_push(before, before, after.last(), own.0, own.0);
            assert(after =~= before.push(after.last()));
            lemma_distinct_grows(before, after, from, own);
            lemma_avoids_grows(before, after, from, own, span);
            lemma_prefix_trans(pending, before, after);
        } else {
            assert(pending =~= pending.take(pending.len() as int));
        }
    }
}

proof fn lemma_prefix_trans(a: Seq<EffectView>, b: Seq<EffectView>, c: Seq<EffectView>)
    requires
        a.is_prefix_of(b),
        b.is_prefix_of(c),
    ensures
        a.is_prefix_of(c),
{
    assert forall|i: int| 0 <= i < a.len() implies a[i] == c[i] by {
        assert(b.take(a.len() as int)[i] == a[i]);
        assert(c.take(b.len() as int)[i] == b[i]);
    }
    assert(a =~= c.take(a.len() as int));
}

/// No upload of the weights and caches of an encoder graph replaces another:
/// each goes into a tensor of its own, and none into a tensor that an upload
/// before them went into.
pub proof fn law_no_upload_replaces_another(
    parts: PlanParts,
    floor: int,
    ceiling: int,
    m: FloatModel,
    pending: Seq<EffectView>,
    weights: XasrEncoderWeights,
    caches: Option<Seq<XasrEncoderLayerCache>>,
    from: int,
)
    requires
        parts_apart(parts, floor, ceiling),
        ceiling <= usize::MAX,
        0 <= from <= pending.len(),
        distinct_targets(pending, from),
        forall|i: int|
            from <= i < pending.len() ==> !(floor <= target(#[trigger] pending[i])->0 < ceiling),
    ensures
        pending.is_prefix_of(parts.all_uploads(m, pending, weights, caches)),
        distinct_targets(parts.all_uploads(m, pending, weights, caches), from),
{
    let d = parts.downsamples.len() as int;
    let n = parts.layers.len() as int;
    let with_downsamples = parts.downsamples_uploads(pending, d);
    let with_layers = parts.layers_uploads(m, with_downsamples, weights, caches, n);
    assert(avoids(pending, from, (floor, ceiling)));
    let nothing = (0int, 0int);
    assert(avoids(pending, from, nothing));
    assert(parts.clear_of_downsamples(nothing, d)) by {
        reveal(parts_apart);
        assert forall|k: int| 0 <= k < d implies disjoint(
            downsample_span(#[trigger] parts.downsamples[k]),
            nothing,
        ) by {
            assert(inside(downsample_span(parts.downsamples[k]), floor, ceiling));
        }
    }
    assert(parts.clear_of_layers(nothing, n)) by {
        reveal(parts_apart);
    }
    assert(parts.clear_of_combiners(nothing, parts.combiners.len() as int)) by {
        reveal(parts_apart);
    }
    parts.lemma_downsamples_settle(floor, ceiling, pending, from, d, nothing);
    assert forall|i: int| 0 <= i < n implies avoids(
        with_downsamples,
        from,
        layer_span(#[trigger] parts.layers[i]),
    ) by {
        let span = layer_span(parts.layers[i]);
        assert(avoids(pending, from, span) && parts.clear_of_downsamples(span, d)) by {
            reveal(parts_apart);
            assert(inside(span, floor, ceiling));
        }
        parts.lemma_downsamples_settle(floor, ceiling, pending, from, d, span);
    }
    parts.lemma_layers_settle(
        floor,
        ceiling,
        m,
        with_downsamples,
        weights,
        caches,
        from,
        n,
        nothing,
    );
    assert forall|c: int| 0 <= c < parts.combiners.len() implies avoids(
        with_layers,
        from,
        combiner_span(#[trigger] parts.combiners[c]),
    ) by {
        let span = combiner_span(parts.combiners[c]);
        assert(avoids(pending, from, span) && parts.clear_of_downsamples(span, d)
            && parts.clear_of_layers(span, n)) by {
            reveal(parts_apart);
            assert(inside(span, floor, ceiling));
        }
        parts.lemma_downsamples_settle(floor, ceiling, pending, from, d, span);
        parts.lemma_layers_settle(
            floor,
            ceiling,
            m,
            with_downsamples,
            weights,
            caches,
            from,
            n,
            span,
        );
    }
    parts.lemma_combiners_settle(
        floor,
        ceiling,
        with_layers,
        weights,
        from,
        parts.combiners.len() as int,
        nothing,
    );
    lemma_prefix_trans(pending, with_downsamples, with_layers);
    lemma_prefix_trans(
        pending,
        with_layers,
        parts.all_uploads(m, pending, weights, caches),
    );
}

/// What a chunk uploads into a kept graph, its rows and then all weights or
/// the caches alone, goes into as many tensors as there are uploads.
pub proof fn law_chunk_uploads_have_tensors_of_their_own(
    kept: XasrFullEncoderReusableGraph,
    metadata: XasrZipformerExecutionMetadata,
    weights: XasrEncoderWeights,
    m: FloatModel,
    rows: Seq<u32>,
    caches: Option<Seq<XasrEncoderLayerCache>>,
)
    requires
        kept.built_for(metadata, weights),
    ensures
        kept.graph.pending().is_prefix_of(kept.chunk_uploads(m, weights, rows, caches)),
        distinct_targets(
            kept.chunk_uploads(m, weights, rows, caches),
            kept.graph.pending().len() as int,
        ),
{
    let pending = kept.graph.pending();
    let from = pending.len() as int;
    let parts = kept.plan.parts@;
    let floor = kept.input.id + 1;
    let ceiling = kept.graph@.len() as int;
    let with_rows = pending.push(
        floats(kept.input, rows, "xasr_full_input"@),
    );
    kept.graph.lemma_view_len();
    assert(pending =~= with_rows.take(from));
    if kept.static_uploaded {
        let nothing = (0int, 0int);
        assert(parts.clear_of_layers(nothing, parts.layers.len() as int)) by {
            reveal(parts_apart);
        }
        assert(avoids(with_rows, from, (floor, ceiling)));
        assert(avoids(with_rows, from, nothing));
        parts.lemma_caches_settle(
            floor,
            ceiling,
            with_rows,
            caches,
            from,
            parts.layers.len() as int,
            nothing,
        );
    } else {
        law_no_upload_replaces_another(
            parts,
            floor,
            ceiling,
            m,
            with_rows,
            weights,
            caches,
            from,
        );
    }
    lemma_prefix_trans(pending, with_rows, kept.chunk_uploads(m, weights, rows, caches));
}

/// No two uploads among the effects go into one tensor.
pub open spec fn uploads_apart(effects: Seq<EffectView>) -> bool {
    forall|i: int, j: int|
        0 <= i < j < effects.len() && target(#[trigger] effects[i]) is Some ==> target(effects[i])
            != target(#[trigger] effects[j])
}

/// The device with the uploads in its leaves.
pub open spec fn filled(
    device: Device,
    graph: GgmlCpuGraphBuilder,
    effects: Seq<EffectView>,
) -> Device {
    Device {
        leaves: |leaf: int, i0: int, i1: int, i2: int, i3: int|
            {
                let j = choose|j: int|
                    0 <= j < effects.len() && target(#[trigger] effects[j]) == Some(leaf);
                if exists|j: int|
                    0 <= j < effects.len() && target(#[trigger] effects[j]) == Some(leaf) {
                    match effects[j] {
                        EffectView::UploadFloats { values, .. } => values[place_in(
                            graph@[leaf],
                            i0,
                            i1,
                            i2,
                            i3,
                        )],
                        _ => (device.leaves)(leaf, i0, i1, i2, i3),
                    }
                } else {
                    (device.leaves)(leaf, i0, i1, i2, i3)
                }
            },
        ..device
    }
}

/// Uploads into tensors of their own can all be carried out: the device that
/// holds each of them has done so.
pub proof fn law_uploads_apart_can_be_carried_out(
    device: Device,
    graph: GgmlCpuGraphBuilder,
    effects: Seq<EffectView>,
)
    requires
        uploads_apart(effects),
    ensures
        filled(device, graph, effects).carried_out(graph, effects),
{
    let after = filled(device, graph, effects);
    assert forall|k: int| 0 <= k < effects.len() implies after.carries_out(
        graph,
        #[trigger] effects[k],
    ) by {
        if let EffectView::UploadFloats { tensor, values, name } = effects[k] {
            let j = choose|j: int|
                0 <= j < effects.len() && target(#[trigger] effects[j]) == Some(tensor);
            assert(target(effects[k]) == Some(tensor));
            assert(j == k);
        }
    }
}

/// The uploads of the rows, weights and caches of an encoder graph can all be
/// carried out, after marks that upload nothing.
pub proof fn law_an_encoder_graph_can_be_filled(
    device: Device,
    graph: GgmlCpuGraphBuilder,
    parts: PlanParts,
    input: GgmlCpuTensor,
    marks: Seq<EffectView>,
    rows: Seq<u32>,
    name: Seq<char>,
    m: FloatModel,
    weights: XasrEncoderWeights,
    caches: Option<Seq<XasrEncoderLayerCache>>,
)
    requires
        parts_apart(parts, input.id + 1, graph@.len() as int),
        forall|i: int| 0 <= i < marks.len() ==> target(#[trigger] marks[i]) is None,
    ensures
        ({
            let uploads = parts.all_uploads(
                m,
                marks.push(floats(input, rows, name)),
                weights,
                caches,
            );
            filled(device, graph, uploads).carried_out(graph, uploads)
        }),
{
    let pending = marks.push(floats(input, rows, name));
    let from = marks.len() as int;
    let uploads = parts.all_uploads(m, pending, weights, caches);
    graph.lemma_view_len();
    law_no_upload_replaces_another(
        parts,
        input.id + 1,
        graph@.len() as int,
        m,
        pending,
        weights,
        caches,
        from,
    );
    assert forall|i: int, j: int|
        0 <= i < j < uploads.len() && target(#[trigger] uploads[i]) is Some implies target(
        uploads[i],
    ) != target(#[trigger] uploads[j]) by {
        if i < from {
            assert(uploads.take(pending.len() as int)[i] == pending[i]);
            assert(pending[i] == marks[i]);
        }
    }
    law_uploads_apart_can_be_carried_out(device, graph, uploads);
}

} // verus!
