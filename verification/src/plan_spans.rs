//! Where the leaves of an encoder graph stand, and that none is shared.

use vstd::prelude::*;
use crate::embed_binding::XasrDownsampleGraphBinding;
use crate::encoder_binding::{layer_handles, LAYER_LEAF_COUNT};
use crate::encoder_plan::{PlanParts, XasrOutCombinerGraphUpload, XasrZipformerLayerGraphUpload};

verus! {

/// The leaves of a layer: from the first to after the last.
pub open spec fn layer_span(entry: XasrZipformerLayerGraphUpload) -> (int, int) {
    let base = entry.binding.tensors.layer_head.feed_forward1.in_proj_weight.id as int;
    (base, base + LAYER_LEAF_COUNT)
}

/// The leaves of a layer follow its first without a gap.
pub open spec fn whole(entry: XasrZipformerLayerGraphUpload) -> bool {
    entry.binding.tensors == layer_handles(layer_span(entry).0)
}

/// The leaves of a downsampling.
pub open spec fn downsample_span(binding: XasrDownsampleGraphBinding) -> (int, int) {
    match (binding.tensors.channel_pad, binding.tensors.frame_pad) {
        (Some(channels), Some(frames)) => (channels.id as int, frames.id + 1),
        (Some(channels), None) => (channels.id as int, channels.id + 1),
        (None, Some(frames)) => (frames.id as int, frames.id + 1),
        (None, None) => (0, 0),
    }
}

/// The two paddings of a downsampling are two leaves.
pub open spec fn pads_apart(binding: XasrDownsampleGraphBinding) -> bool {
    binding.tensors.channel_pad is Some && binding.tensors.frame_pad is Some ==> (
    binding.tensors.channel_pad->0).id < (binding.tensors.frame_pad->0).id
}

/// The leaf of a combiner.
pub open spec fn combiner_span(entry: XasrOutCombinerGraphUpload) -> (int, int) {
    (entry.scale.id as int, entry.scale.id + 1)
}

/// Two spans have no leaf in common.
pub open spec fn disjoint(a: (int, int), b: (int, int)) -> bool {
    a.1 <= b.0 || b.1 <= a.0
}

/// A span lies between two positions, or is empty.
pub open spec fn inside(span: (int, int), floor: int, ceiling: int) -> bool {
    span == (0int, 0int) || (floor <= span.0 && span.0 < span.1 && span.1 <= ceiling)
}

/// The layers after the first `from` stand one after the other between two positions.
pub open spec fn layers_follow(
    layers: Seq<XasrZipformerLayerGraphUpload>,
    from: int,
    floor: int,
    ceiling: int,
) -> bool {
    &&& forall|i: int|
        from <= i < layers.len() ==> whole(#[trigger] layers[i]) && inside(
            layer_span(layers[i]),
            floor,
            ceiling,
        )
    &&& forall|i: int, j: int|
        from <= i < j < layers.len() ==> layer_span(#[trigger] layers[i]).1 <= layer_span(
            #[trigger] layers[j],
        ).0
}

/// All leaves of the parts stand between two positions, and no two parts share one.
#[verifier::opaque]
pub open spec fn parts_apart(parts: PlanParts, floor: int, ceiling: int) -> bool {
    &&& 0 <= floor <= ceiling
    &&& forall|i: int|
        0 <= i < parts.layers.len() ==> whole(#[trigger] parts.layers[i]) && inside(
            layer_span(parts.layers[i]),
            floor,
            ceiling,
        )
    &&& forall|i: int, j: int|
        0 <= i < j < parts.layers.len() ==> disjoint(
            layer_span(#[trigger] parts.layers[i]),
            layer_span(#[trigger] parts.layers[j]),
        )
    &&& forall|k: int|
        0 <= k < parts.downsamples.len() ==> pads_apart(#[trigger] parts.downsamples[k]) && inside(
            downsample_span(parts.downsamples[k]),
            floor,
            ceiling,
        )
    &&& forall|k: int, l: int|
        0 <= k < l < parts.downsamples.len() ==> disjoint(
            downsample_span(#[trigger] parts.downsamples[k]),
            downsample_span(#[trigger] parts.downsamples[l]),
        )
    &&& forall|c: int|
        0 <= c < parts.combiners.len() ==> inside(
            combiner_span(#[trigger] parts.combiners[c]),
            floor,
            ceiling,
        )
    &&& forall|c: int, d: int|
        0 <= c < d < parts.combiners.len() ==> disjoint(
            combiner_span(#[trigger] parts.combiners[c]),
            combiner_span(#[trigger] parts.combiners[d]),
        )
    &&& forall|i: int, k: int|
        0 <= i < parts.layers.len() && 0 <= k < parts.downsamples.len() ==> disjoint(
            layer_span(#[trigger] parts.layers[i]),
            downsample_span(#[trigger] parts.downsamples[k]),
        )
    &&& forall|i: int, c: int|
        0 <= i < parts.layers.len() && 0 <= c < parts.combiners.len() ==> disjoint(
            layer_span(#[trigger] parts.layers[i]),
            combiner_span(#[trigger] parts.combiners[c]),
        )
    &&& forall|k: int, c: int|
        0 <= k < parts.downsamples.len() && 0 <= c < parts.combiners.len() ==> disjoint(
            downsample_span(#[trigger] parts.downsamples[k]),
            combiner_span(#[trigger] parts.combiners[c]),
        )
}

/// Without parts there is nothing to share.
pub proof fn lemma_apart_empty(parts: PlanParts, position: int)
    requires
        0 <= position,
        parts.layers.len() == 0,
        parts.downsamples.len() == 0,
        parts.combiners.len() == 0,
    ensures
        parts_apart(parts, position, position),
{
    reveal(parts_apart);
}

/// The bounds may be wider.
pub proof fn lemma_apart_wider(
    parts: PlanParts,
    floor: int,
    ceiling: int,
    lower: int,
    higher: int,
)
    requires
        parts_apart(parts, floor, ceiling),
        lower == floor || 0 <= lower <= floor,
        ceiling <= higher,
    ensures
        parts_apart(parts, lower, higher),
{
    reveal(parts_apart);
}

/// Layers are added above all parts.
pub proof fn lemma_apart_layers(
    parts: PlanParts,
    longer: PlanParts,
    floor: int,
    ceiling: int,
    higher: int,
)
    requires
        parts_apart(parts, floor, ceiling),
        ceiling <= higher,
        longer.downsamples == parts.downsamples,
        longer.combiners == parts.combiners,
        parts.layers.len() <= longer.layers.len(),
        forall|i: int|
            0 <= i < parts.layers.len() ==> #[trigger] longer.layers[i] == parts.layers[i],
        layers_follow(longer.layers, parts.layers.len() as int, ceiling, higher),
    ensures
        parts_apart(longer, floor, higher),
{
    reveal(parts_apart);
    let n = parts.layers.len() as int;
    assert forall|i: int| 0 <= i < longer.layers.len() implies whole(#[trigger] longer.layers[i])
        && inside(layer_span(longer.layers[i]), floor, higher) by {
        if i < n {
            assert(longer.layers[i] == parts.layers[i]);
        }
    }
    assert forall|i: int, j: int| 0 <= i < j < longer.layers.len() implies disjoint(
        layer_span(#[trigger] longer.layers[i]),
        layer_span(#[trigger] longer.layers[j]),
    ) by {
        if i < n {
            assert(longer.layers[i] == parts.layers[i]);
            if j < n {
                assert(longer.layers[j] == parts.layers[j]);
            }
        }
    }
    assert forall|i: int, k: int|
        0 <= i < longer.layers.len() && 0 <= k < longer.downsamples.len() implies disjoint(
        layer_span(#[trigger] longer.layers[i]),
        downsample_span(#[trigger] longer.downsamples[k]),
    ) by {
        if i < n {
            assert(longer.layers[i] == parts.layers[i]);
        }
        assert(inside(downsample_span(parts.downsamples[k]), floor, ceiling));
    }
    assert forall|i: int, c: int|
        0 <= i < longer.layers.len() && 0 <= c < longer.combiners.len() implies disjoint(
        layer_span(#[trigger] longer.layers[i]),
        combiner_span(#[trigger] longer.combiners[c]),
    ) by {
        if i < n {
            assert(longer.layers[i] == parts.layers[i]);
        }
        assert(inside(combiner_span(parts.combiners[c]), floor, ceiling));
    }
}

/// A downsampling is added above all parts.
pub proof fn lemma_apart_downsample(
    parts: PlanParts,
    longer: PlanParts,
    binding: XasrDownsampleGraphBinding,
    floor: int,
    ceiling: int,
    higher: int,
)
    requires
        parts_apart(parts, floor, ceiling),
        ceiling <= higher,
        longer.layers == parts.layers,
        longer.combiners == parts.combiners,
        longer.downsamples == parts.downsamples.push(binding),
        pads_apart(binding),
        inside(downsample_span(binding), ceiling, higher),
    ensures
        parts_apart(longer, floor, higher),
{
    reveal(parts_apart);
}

/// A combiner is added above all parts.
pub proof fn lemma_apart_combiner(
    parts: PlanParts,
    longer: PlanParts,
    combiner: XasrOutCombinerGraphUpload,
    floor: int,
    ceiling: int,
    higher: int,
)
    requires
        parts_apart(parts, floor, ceiling),
        ceiling <= higher,
        longer.layers == parts.layers,
        longer.downsamples == parts.downsamples,
        longer.combiners == parts.combiners.push(combiner),
        inside(combiner_span(combiner), ceiling, higher),
    ensures
        parts_apart(longer, floor, higher),
{
    reveal(parts_apart);
}

} // verus!
