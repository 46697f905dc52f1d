//! What a device holds when chunk after chunk is run on one kept graph.

use vstd::prelude::*;
use crate::attention_graph::XasrSelfAttentionWeightsGraphTensors;
use crate::cache_laws::{law_zeros_stand_for_no_caches, zero_caches};
use crate::encoder_binding::XasrZipformerLayerGraphBinding;
use crate::encoder_plan::PlanParts;
use crate::encoder_session::XasrFullEncoderReusableGraph;
use crate::encoder_upload::{
    attention_uploads, cache_contents, cache_lengths, convolution_uploads, dynamic_cache_uploads,
    feed_forward_uploads, floats, layer_head_uploads, layer_uploads, linear_uploads,
    LayerCacheView, XasrEncoderLayerCache,
};
use crate::encoder_weights::{
    XasrConvolutionModuleWeights, XasrEncoderLayerWeights, XasrEncoderWeights,
    XasrLinearPairWeights, XasrLinearWithBias, XasrSelfAttentionWeightsWeights,
};
use crate::float_ops::FloatModel;
use crate::full_upload::cache_at;
use crate::graph::{EffectView, GgmlCpuTensor};
use crate::kept_uploads::{law_cache_uploads_hold_every_change, lemma_caches_follow};
use crate::layer_graph::{XasrConvolutionModuleGraphTensors, XasrFeedForwardGraphTensors};
use crate::runtime_contract::XasrZipformerExecutionMetadata;
use crate::upload_targets::{
    distinct_targets, law_chunk_uploads_have_tensors_of_their_own, target,
};
use crate::zipformer_graph::XasrLayerHeadGraphShape;

verus! {

/// What each tensor holds after the effects: the last upload into it, or else what it held
/// before.
pub open spec fn held(before: Map<int, EffectView>, effects: Seq<EffectView>) -> Map<
    int,
    EffectView,
>
    decreases effects.len(),
{
    if effects.len() == 0 {
        before
    } else {
        let earlier = held(before, effects.drop_last());
        match target(effects.last()) {
            Some(tensor) => earlier.insert(tensor, effects.last()),
            None => earlier,
        }
    }
}

/// The last upload into a tensor is what it holds.
pub proof fn lemma_held_upload(before: Map<int, EffectView>, effects: Seq<EffectView>, j: int)
    requires
        0 <= j < effects.len(),
        target(effects[j]) is Some,
        forall|i: int|
            j < i < effects.len() ==> target(#[trigger] effects[i]) != target(effects[j]),
    ensures
        held(before, effects).contains_key(target(effects[j])->0),
        held(before, effects)[target(effects[j])->0] == effects[j],
    decreases effects.len(),
{
    let last = effects.len() - 1;
    if j < last {
        let earlier = effects.drop_last();
        assert(earlier[j] == effects[j]);
        assert forall|i: int| j < i < earlier.len() implies target(#[trigger] earlier[i])
            != target(earlier[j]) by {
            assert(earlier[i] == effects[i]);
        }
        lemma_held_upload(before, earlier, j);
        assert(target(effects[last]) != target(effects[j]));
    }
}

/// A tensor holds the same as long as nothing is uploaded into it.
proof fn lemma_held_else(
    before: Map<int, EffectView>,
    effects: Seq<EffectView>,
    from: int,
    tensor: int,
)
    requires
        0 <= from <= effects.len(),
        forall|i: int|
            from <= i < effects.len() ==> target(#[trigger] effects[i]) != Some(tensor),
    ensures
        held(before, effects).contains_key(tensor) == held(
            before,
            effects.take(from),
        ).contains_key(tensor),
        held(before, effects)[tensor] == held(before, effects.take(from))[tensor],
    decreases effects.len(),
{
    if from < effects.len() {
        let earlier = effects.drop_last();
        assert forall|i: int| from <= i < earlier.len() implies target(#[trigger] earlier[i])
            != Some(tensor) by {
            assert(earlier[i] == effects[i]);
        }
        lemma_held_else(before, earlier, from, tensor);
        assert(earlier.take(from) =~= effects.take(from));
        assert(target(effects[effects.len() - 1]) != Some(tensor));
    } else {
        assert(effects.take(from) =~= effects);
    }
}

/// The effect is among those from `from` on.
spec fn occurs(effects: Seq<EffectView>, from: int, effect: EffectView) -> bool {
    exists|j: int| from <= j < effects.len() && #[trigger] effects[j] == effect
}

/// An upload of the changes alone leaves what an upload of everything leaves.
proof fn lemma_changes_suffice(
    before: Map<int, EffectView>,
    first: Seq<EffectView>,
    second: Seq<EffectView>,
    changes: Seq<EffectView>,
    from: int,
)
    requires
        0 <= from <= second.len(),
        first.len() == second.len(),
        first.take(from) == second.take(from),
        distinct_targets(first, from),
        distinct_targets(second, from),
        distinct_targets(changes, 0),
        forall|j: int|
            0 <= j < second.len() ==> target(first[j]) == target(#[trigger] second[j]),
        forall|j: int|
            0 <= j < second.len() && first[j] != #[trigger] second[j] ==> changes.contains(
                second[j],
            ),
        forall|k: int| 0 <= k < changes.len() ==> occurs(second, from, #[trigger] changes[k]),
    ensures
        held(held(before, first), changes) == held(before, second),
{
    let kept = held(before, first);
    let after = held(kept, changes);
    let whole = held(before, second);
    assert forall|t: int| (#[trigger] after.dom().contains(t)) == whole.dom().contains(t)
        && after[t] == whole[t] by {
        if exists|j: int| from <= j < second.len() && target(#[trigger] second[j]) == Some(t) {
            let j = choose|j: int|
                from <= j < second.len() && target(#[trigger] second[j]) == Some(t);
            lemma_held_upload(before, second, j);
            if exists|k: int| 0 <= k < changes.len() && target(#[trigger] changes[k]) == Some(t) {
                let k = choose|k: int|
                    0 <= k < changes.len() && target(#[trigger] changes[k]) == Some(t);
                lemma_held_upload(kept, changes, k);
                assert(occurs(second, from, changes[k]));
                let at = choose|at: int|
                    from <= at < second.len() && #[trigger] second[at] == changes[k];
                assert(at == j);
            } else {
                assert(first[j] == second[j]) by {
                    if first[j] != second[j] {
                        assert(changes.contains(second[j]));
                        let k = choose|k: int|
                            0 <= k < changes.len() && changes[k] == second[j];
                        assert(target(changes[k]) == Some(t));
                    }
                }
                assert forall|i: int| j < i < first.len() implies target(#[trigger] first[i])
                    != target(first[j]) by {
                    assert(target(first[i]) == target(second[i]));
                }
                lemma_held_upload(before, first, j);
                lemma_held_else(kept, changes, 0, t);
                assert(changes.take(0) =~= Seq::<EffectView>::empty());
            }
        } else {
            assert forall|k: int| 0 <= k < changes.len() implies target(#[trigger] changes[k])
                != Some(t) by {
                assert(occurs(second, from, changes[k]));
                let at = choose|at: int|
                    from <= at < second.len() && #[trigger] second[at] == changes[k];
                assert(target(second[at]) != Some(t));
            }
            assert forall|i: int| from <= i < first.len() implies target(#[trigger] first[i])
                != Some(t) by {
                assert(target(first[i]) == target(second[i]));
            }
            lemma_held_else(before, second, from, t);
            lemma_held_else(before, first, from, t);
            lemma_held_else(kept, changes, 0, t);
            assert(changes.take(0) =~= Seq::<EffectView>::empty());
        }
    }
    assert(after.dom() =~= whole.dom());
    assert forall|t: int| after.dom().contains(t) implies #[trigger] after[t] == whole[t] by {
        assert(after.dom().contains(t));
    }
    assert(after =~= whole);
}

/// The effects are extended.
#[verifier::opaque]
spec fn extends(longer: Seq<EffectView>, effects: Seq<EffectView>) -> bool {
    &&& effects.len() <= longer.len()
    &&& forall|j: int| 0 <= j < effects.len() ==> #[trigger] longer[j] == effects[j]
}

proof fn lemma_extends_trans(a: Seq<EffectView>, b: Seq<EffectView>, c: Seq<EffectView>)
    requires
        extends(b, a),
        extends(c, b),
    ensures
        extends(c, a),
{
    reveal(extends);
    assert forall|j: int| 0 <= j < a.len() implies #[trigger] c[j] == a[j] by {
        assert(b[j] == a[j]);
    }
}

proof fn lemma_push_extends(effects: Seq<EffectView>, effect: EffectView)
    ensures
        extends(effects.push(effect), effects),
{
    reveal(extends);
}

proof fn lemma_occurs_in_longer(
    longer: Seq<EffectView>,
    effects: Seq<EffectView>,
    from: int,
    effect: EffectView,
)
    requires
        extends(longer, effects),
        0 <= from,
        occurs(effects, from, effect),
    ensures
        occurs(longer, from, effect),
{
    reveal(extends);
    let j = choose|j: int| from <= j < effects.len() && #[trigger] effects[j] == effect;
    assert(longer[j] == effects[j]);
}

proof fn lemma_pushed_occurs(effects: Seq<EffectView>, from: int, effect: EffectView)
    requires
        0 <= from <= effects.len(),
    ensures
        occurs(effects.push(effect), from, effect),
{
    assert(effects.push(effect)[effects.len() as int] == effect);
}

proof fn lemma_linear_extends(
    effects: Seq<EffectView>,
    weight: GgmlCpuTensor,
    bias: GgmlCpuTensor,
    linear: XasrLinearWithBias,
)
    ensures
        extends(linear_uploads(effects, weight, bias, linear), effects),
{
    reveal(extends);
}

proof fn lemma_feed_forward_extends(
    effects: Seq<EffectView>,
    tensors: XasrFeedForwardGraphTensors,
    weights: XasrLinearPairWeights,
)
    ensures
        extends(feed_forward_uploads(effects, tensors, weights), effects),
{
    reveal(extends);
}

/// The uploads of the attention begin with its cache.
proof fn lemma_attention_extends(
    m: FloatModel,
    effects: Seq<EffectView>,
    tensors: XasrSelfAttentionWeightsGraphTensors,
    weights: XasrSelfAttentionWeightsWeights,
    shape: XasrLayerHeadGraphShape,
    valid_left_context: usize,
    key: Option<Seq<u32>>,
)
    ensures
        extends(
            attention_uploads(m, effects, tensors, weights, shape, valid_left_context, key),
            effects.push(
                floats(
                    tensors.cache,
                    cache_contents(
                        (shape.left_context_len * (shape.num_heads * shape.query_head_dim))
                            as usize,
                        key,
                    ),
                    "xasr_stack0_attn_cache"@,
                ),
            ),
        ),
{
    reveal(extends);
}

/// The uploads of a convolution module begin with its cache.
proof fn lemma_convolution_extends(
    m: FloatModel,
    effects: Seq<EffectView>,
    tensors: XasrConvolutionModuleGraphTensors,
    weights: XasrConvolutionModuleWeights,
    dim: usize,
    frames: usize,
    cache_len: usize,
    cache: Option<Seq<u32>>,
)
    ensures
        extends(
            convolution_uploads(m, effects, tensors, weights, dim, frames, cache_len, cache),
            effects.push(
                floats(
                    tensors.cache,
                    cache_contents((dim * cache_len) as usize, cache),
                    "xasr_conv_cache"@,
                ),
            ),
        ),
{
    reveal(extends);
}

/// A cache and two linear layers.
spec fn block(
    effects: Seq<EffectView>,
    cache: EffectView,
    in_weight: GgmlCpuTensor,
    in_bias: GgmlCpuTensor,
    in_proj: XasrLinearWithBias,
    out_weight: GgmlCpuTensor,
    out_bias: GgmlCpuTensor,
    out_proj: XasrLinearWithBias,
) -> Seq<EffectView> {
    linear_uploads(
        linear_uploads(effects.push(cache), in_weight, in_bias, in_proj),
        out_weight,
        out_bias,
        out_proj,
    )
}

proof fn lemma_block_extends(
    effects: Seq<EffectView>,
    cache: EffectView,
    in_weight: GgmlCpuTensor,
    in_bias: GgmlCpuTensor,
    in_proj: XasrLinearWithBias,
    out_weight: GgmlCpuTensor,
    out_bias: GgmlCpuTensor,
    out_proj: XasrLinearWithBias,
)
    ensures
        extends(
            block(
                effects,
                cache,
                in_weight,
                in_bias,
                in_proj,
                out_weight,
                out_bias,
                out_proj,
            ),
            effects.push(cache),
        ),
{
    let a = linear_uploads(effects.push(cache), in_weight, in_bias, in_proj);
    lemma_linear_extends(effects.push(cache), in_weight, in_bias, in_proj);
    lemma_linear_extends(a, out_weight, out_bias, out_proj);
    lemma_extends_trans(
        effects.push(cache),
        a,
        linear_uploads(a, out_weight, out_bias, out_proj),
    );
}

/// The effects hold the caches of the first half of a layer.
spec fn holds_head_caches(
    effects: Seq<EffectView>,
    from: int,
    binding: XasrZipformerLayerGraphBinding,
    cache: LayerCacheView,
) -> bool {
    let six = dynamic_cache_uploads(Seq::<EffectView>::empty(), binding, cache);
    occurs(effects, from, six[0]) && occurs(effects, from, six[1]) && occurs(effects, from, six[2])
        && occurs(effects, from, six[3])
}

/// Adds a cache and what follows it.
proof fn lemma_cache_added(
    effects: Seq<EffectView>,
    cache: EffectView,
    longer: Seq<EffectView>,
    from: int,
)
    requires
        extends(longer, effects.push(cache)),
        0 <= from <= effects.len(),
    ensures
        extends(longer, effects),
        occurs(longer, from, cache),
        from <= longer.len(),
{
    lemma_pushed_occurs(effects, from, cache);
    lemma_occurs_in_longer(longer, effects.push(cache), from, cache);
    lemma_push_extends(effects, cache);
    lemma_extends_trans(effects, effects.push(cache), longer);
    reveal(extends);
}

/// The uploads of the first half of a layer hold its caches.
#[verifier::spinoff_prover]
#[verifier::rlimit(60)]
proof fn lemma_head_holds_caches(
    m: FloatModel,
    pending: Seq<EffectView>,
    binding: XasrZipformerLayerGraphBinding,
    layer: XasrEncoderLayerWeights,
    valid_left_context: usize,
    cache: LayerCacheView,
)
    ensures
        extends(
            layer_head_uploads(m, pending, binding, layer, valid_left_context, cache),
            pending,
        ),
        holds_head_caches(
            layer_head_uploads(m, pending, binding, layer, valid_left_context, cache),
            pending.len() as int,
            binding,
            cache,
        ),
{
    reveal(layer_head_uploads);
    let from = pending.len() as int;
    let head = binding.tensors.layer_head;
    let shape = binding.shape.layer_head;
    let six = dynamic_cache_uploads(Seq::<EffectView>::empty(), binding, cache);
    let e1 = feed_forward_uploads(pending, head.feed_forward1, layer.feed_forward1);
    lemma_feed_forward_extends(pending, head.feed_forward1, layer.feed_forward1);
    let e2 = attention_uploads(
        m,
        e1,
        head.attention_weights,
        layer.self_attn_weights,
        shape,
        valid_left_context,
        cache.key,
    );
    lemma_attention_extends(
        m,
        e1,
        head.attention_weights,
        layer.self_attn_weights,
        shape,
        valid_left_context,
        cache.key,
    );
    assert(from <= e1.len()) by {
        reveal(extends);
    }
    lemma_cache_added(e1, six[0], e2, from);
    lemma_extends_trans(pending, e1, e2);
    let e3 = block(
        e2,
        six[1],
        head.nonlin_in_proj_weight,
        head.nonlin_in_proj_bias,
        layer.nonlin_attention.in_proj,
        head.nonlin_out_proj_weight,
        head.nonlin_out_proj_bias,
        layer.nonlin_attention.out_proj,
    );
    lemma_block_extends(
        e2,
        six[1],
        head.nonlin_in_proj_weight,
        head.nonlin_in_proj_bias,
        layer.nonlin_attention.in_proj,
        head.nonlin_out_proj_weight,
        head.nonlin_out_proj_bias,
        layer.nonlin_attention.out_proj,
    );
    lemma_cache_added(e2, six[1], e3, from);
    lemma_extends_trans(pending, e2, e3);
    lemma_occurs_in_longer(e3, e2, from, six[0]);
    let e4 = block(
        e3,
        six[2],
        head.self1_in_proj_weight,
        head.self1_in_proj_bias,
        layer.self_attn1.in_proj,
        head.self1_out_proj_weight,
        head.self1_out_proj_bias,
        layer.self_attn1.out_proj,
    );
    lemma_block_extends(
        e3,
        six[2],
        head.self1_in_proj_weight,
        head.self1_in_proj_bias,
        layer.self_attn1.in_proj,
        head.self1_out_proj_weight,
        head.self1_out_proj_bias,
        layer.self_attn1.out_proj,
    );
    lemma_cache_added(e3, six[2], e4, from);
    lemma_extends_trans(pending, e3, e4);
    lemma_occurs_in_longer(e4, e3, from, six[0]);
    lemma_occurs_in_longer(e4, e3, from, six[1]);
    let e5 = convolution_uploads(
        m,
        e4,
        head.conv_module1,
        layer.conv_module1,
        shape.dim,
        shape.frames,
        shape.conv1_cache_len,
        cache.conv1,
    );
    lemma_convolution_extends(
        m,
        e4,
        head.conv_module1,
        layer.conv_module1,
        shape.dim,
        shape.frames,
        shape.conv1_cache_len,
        cache.conv1,
    );
    lemma_cache_added(e4, six[3], e5, from);
    lemma_extends_trans(pending, e4, e5);
    lemma_occurs_in_longer(e5, e4, from, six[0]);
    lemma_occurs_in_longer(e5, e4, from, six[1]);
    lemma_occurs_in_longer(e5, e4, from, six[2]);
    let e6 = feed_forward_uploads(e5, head.feed_forward2, layer.feed_forward2);
    lemma_feed_forward_extends(e5, head.feed_forward2, layer.feed_forward2);
    let mid = floats(
        head.bypass_mid_scale,
        layer.bypass_mid_scale@,
        "xasr_stack0_bypass_mid_scale"@,
    );
    lemma_push_extends(e6, mid);
    lemma_extends_trans(e5, e6, e6.push(mid));
    lemma_extends_trans(pending, e5, e6.push(mid));
    lemma_occurs_in_longer(e6.push(mid), e5, from, six[0]);
    lemma_occurs_in_longer(e6.push(mid), e5, from, six[1]);
    lemma_occurs_in_longer(e6.push(mid), e5, from, six[2]);
    lemma_occurs_in_longer(e6.push(mid), e5, from, six[3]);
    assert(e6.push(mid) == layer_head_uploads(
        m,
        pending,
        binding,
        layer,
        valid_left_context,
        cache,
    ));
}

/// The effects hold the caches of a layer.
spec fn holds_layer_caches(
    effects: Seq<EffectView>,
    from: int,
    binding: XasrZipformerLayerGraphBinding,
    cache: LayerCacheView,
) -> bool {
    let six = dynamic_cache_uploads(Seq::<EffectView>::empty(), binding, cache);
    forall|k: int| 0 <= k < 6 ==> occurs(effects, from, #[trigger] six[k])
}

/// The uploads of a layer hold its caches.
#[verifier::spinoff_prover]
#[verifier::rlimit(60)]
proof fn lemma_layer_holds_caches(
    m: FloatModel,
    pending: Seq<EffectView>,
    binding: XasrZipformerLayerGraphBinding,
    layer: XasrEncoderLayerWeights,
    valid_left_context: usize,
    cache: LayerCacheView,
)
    ensures
        extends(
            layer_uploads(m, pending, binding, layer, valid_left_context, cache),
            pending,
        ),
        holds_layer_caches(
            layer_uploads(m, pending, binding, layer, valid_left_context, cache),
            pending.len() as int,
            binding,
            cache,
        ),
{
    let from = pending.len() as int;
    let tensors = binding.tensors;
    let tail = tensors.layer_tail;
    let shape = binding.shape.layer_tail;
    let six = dynamic_cache_uploads(Seq::<EffectView>::empty(), binding, cache);
    let e1 = layer_head_uploads(m, pending, binding, layer, valid_left_context, cache);
    lemma_head_holds_caches(m, pending, binding, layer, valid_left_context, cache);
    assert(from <= e1.len()) by {
        reveal(extends);
    }
    let e2 = block(
        e1,
        six[4],
        tensors.self2_in_proj_weight,
        tensors.self2_in_proj_bias,
        layer.self_attn2.in_proj,
        tensors.self2_out_proj_weight,
        tensors.self2_out_proj_bias,
        layer.self_attn2.out_proj,
    );
    lemma_block_extends(
        e1,
        six[4],
        tensors.self2_in_proj_weight,
        tensors.self2_in_proj_bias,
        layer.self_attn2.in_proj,
        tensors.self2_out_proj_weight,
        tensors.self2_out_proj_bias,
        layer.self_attn2.out_proj,
    );
    lemma_cache_added(e1, six[4], e2, from);
    let e3 = convolution_uploads(
        m,
        e2,
        tail.conv_module2,
        layer.conv_module2,
        shape.dim,
        shape.frames,
        shape.conv_cache_len,
        cache.conv2,
    );
    lemma_convolution_extends(
        m,
        e2,
        tail.conv_module2,
        layer.conv_module2,
        shape.dim,
        shape.frames,
        shape.conv_cache_len,
        cache.conv2,
    );
    lemma_cache_added(e2, six[5], e3, from);
    lemma_extends_trans(e1, e2, e3);
    let e4 = feed_forward_uploads(e3, tail.feed_forward3, layer.feed_forward3);
    lemma_feed_forward_extends(e3, tail.feed_forward3, layer.feed_forward3);
    let norm = floats(tail.norm_bias, layer.norm_bias@, "xasr_stack0_norm_bias"@);
    let bypass = floats(tail.bypass_scale, layer.bypass_scale@, "xasr_stack0_bypass_scale"@);
    let all = e4.push(norm).push(bypass);
    lemma_push_extends(e4, norm);
    lemma_push_extends(e4.push(norm), bypass);
    lemma_extends_trans(e4, e4.push(norm), all);
    lemma_extends_trans(e3, e4, all);
    lemma_extends_trans(e2, e3, all);
    lemma_extends_trans(e1, e2, all);
    lemma_extends_trans(pending, e1, all);
    assert(all == layer_uploads(m, pending, binding, layer, valid_left_context, cache));
    lemma_occurs_in_longer(all, e1, from, six[0]);
    lemma_occurs_in_longer(all, e1, from, six[1]);
    lemma_occurs_in_longer(all, e1, from, six[2]);
    lemma_occurs_in_longer(all, e1, from, six[3]);
    lemma_occurs_in_longer(all, e2, from, six[4]);
    lemma_occurs_in_longer(all, e3, from, six[5]);
    assert forall|k: int| 0 <= k < 6 implies occurs(all, from, #[trigger] six[k]) by {
        assert(k == 0 || k == 1 || k == 2 || k == 3 || k == 4 || k == 5);
    }
}

/// The uploads of the layers hold all their caches.
proof fn lemma_layers_hold_caches(
    m: FloatModel,
    parts: PlanParts,
    pending: Seq<EffectView>,
    weights: XasrEncoderWeights,
    caches: Option<Seq<XasrEncoderLayerCache>>,
    from: int,
    count: int,
)
    requires
        0 <= from <= pending.len(),
    ensures
        extends(parts.layers_uploads(m, pending, weights, caches, count), pending),
        forall|i: int|
            0 <= i < count ==> holds_layer_caches(
                parts.layers_uploads(m, pending, weights, caches, count),
                from,
                (#[trigger] parts.layers[i]).binding,
                cache_at(caches, parts.layers[i].cache_index as int),
            ),
    decreases count,
{
    if count > 0 {
        lemma_layers_hold_caches(m, parts, pending, weights, caches, from, count - 1);
        let before = parts.layers_uploads(m, pending, weights, caches, count - 1);
        let after = parts.layers_uploads(m, pending, weights, caches, count);
        let entry = parts.layers[count - 1];
        let cache = cache_at(caches, entry.cache_index as int);
        lemma_layer_holds_caches(
            m,
            before,
            entry.binding,
            parts.layer_weights(weights, count - 1),
            entry.valid_left_context,
            cache,
        );
        lemma_extends_trans(pending, before, after);
        assert(pending.len() <= before.len()) by {
            reveal(extends);
        }
        assert forall|i: int| 0 <= i < count implies holds_layer_caches(
            after,
            from,
            (#[trigger] parts.layers[i]).binding,
            cache_at(caches, parts.layers[i].cache_index as int),
        ) by {
            let own = cache_at(caches, parts.layers[i].cache_index as int);
            let six = dynamic_cache_uploads(
                Seq::<EffectView>::empty(),
                parts.layers[i].binding,
                own,
            );
            assert forall|k: int| 0 <= k < 6 implies occurs(after, from, #[trigger] six[k]) by {
                if i < count - 1 {
                    assert(holds_layer_caches(before, from, parts.layers[i].binding, own));
                    assert(occurs(before, from, six[k]));
                    lemma_occurs_in_longer(after, before, from, six[k]);
                } else {
                    assert(occurs(after, before.len() as int, six[k]));
                    let j = choose|j: int|
                        before.len() <= j < after.len() && #[trigger] after[j] == six[k];
                    assert(from <= j);
                }
            }
        }
    } else {
        reveal(extends);
    }
}

proof fn lemma_downsamples_extend(parts: PlanParts, pending: Seq<EffectView>, count: int)
    ensures
        extends(parts.downsamples_uploads(pending, count), pending),
    decreases count,
{
    if count > 0 {
        lemma_downsamples_extend(parts, pending, count - 1);
    }
    reveal(extends);
}

proof fn lemma_combiners_extend(
    parts: PlanParts,
    pending: Seq<EffectView>,
    weights: XasrEncoderWeights,
    count: int,
)
    ensures
        extends(parts.combiners_uploads(pending, weights, count), pending),
    decreases count,
{
    if count > 0 {
        lemma_combiners_extend(parts, pending, weights, count - 1);
    }
    reveal(extends);
}

/// An upload of the caches is that of the caches of one of the layers.
proof fn lemma_cache_of_a_layer(
    parts: PlanParts,
    pending: Seq<EffectView>,
    caches: Option<Seq<XasrEncoderLayerCache>>,
    count: int,
    at: int,
) -> (found: (int, int))
    requires
        pending.len() <= at < parts.caches_uploads(pending, caches, count).len(),
    ensures
        0 <= found.0 < count,
        0 <= found.1 < 6,
        parts.caches_uploads(pending, caches, count)[at] == dynamic_cache_uploads(
            Seq::<EffectView>::empty(),
            parts.layers[found.0].binding,
            cache_at(caches, parts.layers[found.0].cache_index as int),
        )[found.1],
    decreases count,
{
    let before = parts.caches_uploads(pending, caches, count - 1);
    let all = parts.caches_uploads(pending, caches, count);
    if count > 0 {
        if at < before.len() {
            assert(all[at] == before[at]);
            lemma_cache_of_a_layer(parts, pending, caches, count - 1, at)
        } else {
            (count - 1, at - before.len())
        }
    } else {
        (0, 0)
    }
}

/// An upload of everything holds the rows and all caches.
proof fn lemma_all_hold_changes(
    m: FloatModel,
    parts: PlanParts,
    pending: Seq<EffectView>,
    weights: XasrEncoderWeights,
    given: EffectView,
    caches: Option<Seq<XasrEncoderLayerCache>>,
    k: int,
)
    requires
        0 <= k < parts.caches_uploads(seq![given], caches, parts.layers.len() as int).len(),
    ensures
        occurs(
            parts.all_uploads(m, pending.push(given), weights, caches),
            pending.len() as int,
            parts.caches_uploads(seq![given], caches, parts.layers.len() as int)[k],
        ),
{
    let n = parts.layers.len() as int;
    let d = parts.downsamples.len() as int;
    let from = pending.len() as int;
    let changes = parts.caches_uploads(seq![given], caches, n);
    let start = pending.push(given);
    let with_downsamples = parts.downsamples_uploads(start, d);
    let with_layers = parts.layers_uploads(m, with_downsamples, weights, caches, n);
    let all = parts.all_uploads(m, start, weights, caches);
    lemma_downsamples_extend(parts, start, d);
    assert(from <= with_downsamples.len()) by {
        reveal(extends);
    }
    lemma_layers_hold_caches(m, parts, with_downsamples, weights, caches, from, n);
    lemma_combiners_extend(parts, with_layers, weights, parts.combiners.len() as int);
    if k == 0 {
        lemma_caches_follow(parts, seq![given], caches, n);
        assert(changes[0] == seq![given][0]);
        lemma_pushed_occurs(pending, from, given);
        lemma_extends_trans(start, with_downsamples, with_layers);
        lemma_extends_trans(start, with_layers, all);
        lemma_occurs_in_longer(all, start, from, given);
    } else {
        let found = lemma_cache_of_a_layer(parts, seq![given], caches, n, k);
        let entry = parts.layers[found.0];
        let cache = cache_at(caches, entry.cache_index as int);
        let six = dynamic_cache_uploads(Seq::<EffectView>::empty(), entry.binding, cache);
        assert(holds_layer_caches(with_layers, from, entry.binding, cache));
        assert(occurs(with_layers, from, six[found.1]));
        lemma_occurs_in_longer(all, with_layers, from, six[found.1]);
    }
}

impl XasrFullEncoderReusableGraph {
    /// The graph as it is kept between chunks: it has its weights, and nothing is
    /// pending.
    pub open spec fn kept_as(self, fresh: Self) -> bool {
        &&& self.static_uploaded
        &&& self.plan == fresh.plan
        &&& self.input == fresh.input
        &&& self.graph@ == fresh.graph@
        &&& self.graph.pending().len() == 0
    }
}

/// A chunk that is run on a kept graph leaves the device holding what it would hold had
/// the graph been filled for that chunk alone: nothing of the chunk before it is left.
pub proof fn law_a_later_chunk_is_held_like_a_first(
    fresh: XasrFullEncoderReusableGraph,
    kept: XasrFullEncoderReusableGraph,
    metadata: XasrZipformerExecutionMetadata,
    weights: XasrEncoderWeights,
    m: FloatModel,
    before: Map<int, EffectView>,
    old_rows: Seq<u32>,
    old_caches: Option<Seq<XasrEncoderLayerCache>>,
    rows: Seq<u32>,
    caches: Option<Seq<XasrEncoderLayerCache>>,
)
    requires
        fresh.built_for(metadata, weights),
        !fresh.static_uploaded,
        kept.built_for(metadata, weights),
        kept.kept_as(fresh),
    ensures
        held(
            held(before, fresh.chunk_uploads(m, weights, old_rows, old_caches)),
            kept.chunk_uploads(m, weights, rows, caches),
        ) == held(before, fresh.chunk_uploads(m, weights, rows, caches)),
{
    let parts = fresh.plan.parts@;
    let pending = fresh.graph.pending();
    let from = pending.len() as int;
    let name = "xasr_full_input"@;
    let given = floats(fresh.input, rows, name);
    let first = fresh.chunk_uploads(m, weights, old_rows, old_caches);
    let second = fresh.chunk_uploads(m, weights, rows, caches);
    let changes = kept.chunk_uploads(m, weights, rows, caches);
    let none = Seq::<EffectView>::empty();
    assert(kept.graph.pending() =~= none);
    assert(none.push(given) =~= seq![given]);
    law_chunk_uploads_have_tensors_of_their_own(
        fresh,
        metadata,
        weights,
        m,
        old_rows,
        old_caches,
    );
    law_chunk_uploads_have_tensors_of_their_own(fresh, metadata, weights, m, rows, caches);
    law_chunk_uploads_have_tensors_of_their_own(kept, metadata, weights, m, rows, caches);
    law_cache_uploads_hold_every_change(
        m,
        parts,
        pending,
        none,
        weights,
        fresh.input,
        name,
        old_rows,
        rows,
        old_caches,
        caches,
    );
    assert(first.take(from) == second.take(from));
    assert forall|k: int| 0 <= k < changes.len() implies occurs(
        second,
        from,
        #[trigger] changes[k],
    ) by {
        lemma_all_hold_changes(m, parts, pending, weights, given, caches, k);
    }
    lemma_changes_suffice(before, first, second, changes, from);
}

/// Rows and caches of chunks that are run one after the other.
pub struct ChunkInput {
    pub rows: Seq<u32>,
    pub caches: Option<Seq<XasrEncoderLayerCache>>,
}

/// What the device holds after chunks: the first is run on the fresh graph, and each
/// after it on the graph that was kept.
pub open spec fn held_after(
    fresh: XasrFullEncoderReusableGraph,
    kept: XasrFullEncoderReusableGraph,
    weights: XasrEncoderWeights,
    m: FloatModel,
    before: Map<int, EffectView>,
    chunks: Seq<ChunkInput>,
) -> Map<int, EffectView>
    decreases chunks.len(),
{
    if chunks.len() == 0 {
        before
    } else {
        let last = chunks.last();
        if chunks.len() == 1 {
            held(before, fresh.chunk_uploads(m, weights, last.rows, last.caches))
        } else {
            held(
                held_after(fresh, kept, weights, m, before, chunks.drop_last()),
                kept.chunk_uploads(m, weights, last.rows, last.caches),
            )
        }
    }
}

/// However many chunks were run on a kept graph, the device holds what the last of them
/// alone would have left.
pub proof fn law_chunks_leave_what_the_last_leaves(
    fresh: XasrFullEncoderReusableGraph,
    kept: XasrFullEncoderReusableGraph,
    metadata: XasrZipformerExecutionMetadata,
    weights: XasrEncoderWeights,
    m: FloatModel,
    before: Map<int, EffectView>,
    chunks: Seq<ChunkInput>,
)
    requires
        fresh.built_for(metadata, weights),
        !fresh.static_uploaded,
        kept.built_for(metadata, weights),
        kept.kept_as(fresh),
        chunks.len() > 0,
    ensures
        held_after(fresh, kept, weights, m, before, chunks) == held(
            before,
            fresh.chunk_uploads(m, weights, chunks.last().rows, chunks.last().caches),
        ),
    decreases chunks.len(),
{
    if chunks.len() > 1 {
        let earlier = chunks.drop_last();
        law_chunks_leave_what_the_last_leaves(fresh, kept, metadata, weights, m, before, earlier);
        law_a_later_chunk_is_held_like_a_first(
            fresh,
            kept,
            metadata,
            weights,
            m,
            before,
            earlier.last().rows,
            earlier.last().caches,
            chunks.last().rows,
            chunks.last().caches,
        );
    }
}

/// Equal chunks are equal work, whatever is run between them: after each the device holds
/// the same.
pub proof fn law_equal_chunks_are_held_alike(
    fresh: XasrFullEncoderReusableGraph,
    kept: XasrFullEncoderReusableGraph,
    metadata: XasrZipformerExecutionMetadata,
    weights: XasrEncoderWeights,
    m: FloatModel,
    before: Map<int, EffectView>,
    chunks: Seq<ChunkInput>,
    i: int,
    j: int,
)
    requires
        fresh.built_for(metadata, weights),
        !fresh.static_uploaded,
        kept.built_for(metadata, weights),
        kept.kept_as(fresh),
        0 <= i <= j < chunks.len(),
        chunks[i] == chunks[j],
    ensures
        held_after(fresh, kept, weights, m, before, chunks.take(i + 1)) == held_after(
            fresh,
            kept,
            weights,
            m,
            before,
            chunks.take(j + 1),
        ),
{
    let a = chunks.take(i + 1);
    let b = chunks.take(j + 1);
    assert(a.last() == chunks[i] && b.last() == chunks[j]);
    law_chunks_leave_what_the_last_leaves(fresh, kept, metadata, weights, m, before, a);
    law_chunks_leave_what_the_last_leaves(fresh, kept, metadata, weights, m, before, b);
}

/// The caches are zeros, for every layer of the encoder.
pub open spec fn all_zeros(parts: PlanParts, caches: Option<Seq<XasrEncoderLayerCache>>) -> bool {
    forall|i: int|
        0 <= i < parts.layers.len() ==> cache_at(
            caches,
            (#[trigger] parts.layers[i]).cache_index as int,
        ) == zero_caches(cache_lengths(parts.layers[i].binding.shape))
}

proof fn lemma_zeros_for_none(
    m: FloatModel,
    parts: PlanParts,
    pending: Seq<EffectView>,
    weights: XasrEncoderWeights,
    caches: Option<Seq<XasrEncoderLayerCache>>,
    count: int,
)
    requires
        all_zeros(parts, caches),
        count <= parts.layers.len(),
    ensures
        parts.layers_uploads(m, pending, weights, caches, count) == parts.layers_uploads(
            m,
            pending,
            weights,
            None,
            count,
        ),
        parts.caches_uploads(pending, caches, count) == parts.caches_uploads(
            pending,
            None,
            count,
        ),
    decreases count,
{
    if count > 0 {
        lemma_zeros_for_none(m, parts, pending, weights, caches, count - 1);
        let entry = parts.layers[count - 1];
        law_zeros_stand_for_no_caches(
            m,
            parts.layers_uploads(m, pending, weights, caches, count - 1),
            entry.binding,
            parts.layer_weights(weights, count - 1),
            entry.valid_left_context,
        );
        law_zeros_stand_for_no_caches(
            m,
            parts.caches_uploads(pending, caches, count - 1),
            entry.binding,
            parts.layer_weights(weights, count - 1),
            entry.valid_left_context,
        );
    }
}

/// A chunk without caches is uploaded like one whose caches are all zeros, on a fresh graph
/// and on a kept one.
pub proof fn law_zero_chunk_caches_stand_for_none(
    kept: XasrFullEncoderReusableGraph,
    weights: XasrEncoderWeights,
    m: FloatModel,
    rows: Seq<u32>,
    caches: Option<Seq<XasrEncoderLayerCache>>,
)
    requires
        all_zeros(kept.plan.parts@, caches),
    ensures
        kept.chunk_uploads(m, weights, rows, caches) == kept.chunk_uploads(
            m,
            weights,
            rows,
            None,
        ),
{
    let parts = kept.plan.parts@;
    let n = parts.layers.len() as int;
    let with_rows = kept.graph.pending().push(floats(kept.input, rows, "xasr_full_input"@));
    lemma_zeros_for_none(m, parts, with_rows, weights, caches, n);
    lemma_zeros_for_none(
        m,
        parts,
        parts.downsamples_uploads(with_rows, parts.downsamples.len() as int),
        weights,
        caches,
        n,
    );
}

/// A kept graph computes the caches of every layer of the encoder: as many as its stacks
/// have layers.
pub proof fn law_every_layer_has_its_caches(
    kept: XasrFullEncoderReusableGraph,
    metadata: XasrZipformerExecutionMetadata,
    weights: XasrEncoderWeights,
)
    requires
        kept.built_for(metadata, weights),
    ensures
        ({
            let task = kept.task(metadata, weights);
            &&& kept.plan.parts@.layers.len() == task.layer_start(metadata.num_stacks as int)
            &&& kept.output_specs@.len() == 1 + 6 * task.layer_start(metadata.num_stacks as int)
        }),
{
    kept.plan.lemma_outputs_len(kept.plan.captured(true));
}

} // verus!
