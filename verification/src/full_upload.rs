//! What is uploaded into the graph of the whole encoder.

use vstd::prelude::*;
use vstd::string::StringExecFns;
use crate::attention_graph::attention_weights_refusal;
use crate::embed_binding::{downsample_upload_refusal, downsample_uploads};
use crate::encoder_binding::partly_noted;
use crate::encoder_error::XasrEncoderGraphError;
use crate::encoder_plan::{layer_built, PlanParts, PlanTask};
use crate::encoder_upload::{
    dynamic_cache_uploads, dynamic_caches_refusal, floats, layer_cache_view, layer_upload_refusal,
    layer_uploads, lemma_noted_is_partly_noted, lemma_partly_noted_trans, upload_f32, uploads,
    LayerCacheView, XasrEncoderLayerCache,
};
use crate::encoder_weights::{XasrEncoderLayerWeights, XasrEncoderWeights};
use crate::float_ops;
use crate::float_ops::{FloatModel, FloatOps};
use crate::full_encoder::{XasrFullEncoderGraphParts, XasrFullEncoderGraphPlan};
use crate::graph::{EffectView, GgmlCpuGraphBuilder};
use crate::tensor_value::TensorValue;
use crate::text;
use crate::text::decimal;
use crate::zipformer_graph;

verus! {

/// The caches of layer `index`: those given for it, or none.
pub open spec fn cache_at(
    caches: Option<Seq<XasrEncoderLayerCache>>,
    index: int,
) -> LayerCacheView {
    match caches {
        Some(all) => if 0 <= index < all.len() {
            layer_cache_view(Some(&all[index]))
        } else {
            layer_cache_view(None)
        },
        None => layer_cache_view(None),
    }
}

/// The caches by their contents.
pub open spec fn caches_view(caches: Option<&[XasrEncoderLayerCache]>) -> Option<
    Seq<XasrEncoderLayerCache>,
> {
    match caches {
        Some(all) => Some(all@),
        None => None,
    }
}

impl PlanParts {
    /// The weights of layer `index`.
    pub open spec fn layer_weights(
        self,
        weights: XasrEncoderWeights,
        index: int,
    ) -> XasrEncoderLayerWeights {
        weights.stacks@[self.layers[index].stack_index as int].layers@[
            self.layers[index].layer_index as int
        ]
    }

    /// Layer `index` belongs to the graph and to the weights.
    pub open spec fn layer_fits(
        self,
        graph: GgmlCpuGraphBuilder,
        weights: XasrEncoderWeights,
        index: int,
    ) -> bool {
        let entry = self.layers[index];
        let head = entry.binding.shape.layer_head;
        &&& entry.stack_index < weights.stacks@.len()
        &&& entry.layer_index < weights.stacks@[entry.stack_index as int].layers@.len()
        &&& entry.binding.tensors.within(graph)
        &&& head.pos_dim > 0 || head.left_context_len + head.frames * 2 <= 1
    }

    /// Downsampling `index` belongs to the graph.
    pub open spec fn downsample_fits(self, graph: GgmlCpuGraphBuilder, index: int) -> bool {
        let entry = self.downsamples[index];
        &&& entry.tensors.within(graph)
        &&& entry.tensors.channel_pad is Some ==> entry.shape.target_dim >= entry.shape.input_dim
        &&& entry.tensors.frame_pad is Some ==> entry.shape.factor > 0
    }

    /// Combiner `index` belongs to the graph and to the weights.
    pub open spec fn combiner_fits(
        self,
        graph: GgmlCpuGraphBuilder,
        weights: XasrEncoderWeights,
        index: int,
    ) -> bool {
        let entry = self.combiners[index];
        &&& entry.stack_index < weights.stacks@.len()
        &&& graph.has(entry.scale)
    }

    /// All parts belong to the graph and to the weights.
    pub open spec fn fits(self, graph: GgmlCpuGraphBuilder, weights: XasrEncoderWeights) -> bool {
        &&& forall|i: int|
            0 <= i < self.layers.len() ==> #[trigger] self.layer_fits(graph, weights, i)
        &&& forall|i: int|
            0 <= i < self.downsamples.len() ==> #[trigger] self.downsample_fits(graph, i)
        &&& forall|i: int|
            0 <= i < self.combiners.len() ==> #[trigger] self.combiner_fits(graph, weights, i)
    }

    /// Why one of the first `count` downsamplings cannot be uploaded.
    pub open spec fn downsamples_refusal(self, count: int) -> Option<Seq<char>>
        decreases count,
    {
        if count <= 0 {
            None
        } else if self.downsamples_refusal(count - 1) is Some {
            self.downsamples_refusal(count - 1)
        } else {
            downsample_upload_refusal(
                self.downsamples[count - 1].tensors,
                self.downsamples[count - 1].shape,
            )
        }
    }

    /// The uploads of the first `count` downsamplings, appended.
    pub open spec fn downsamples_uploads(
        self,
        pending: Seq<EffectView>,
        count: int,
    ) -> Seq<EffectView>
        decreases count,
    {
        if count <= 0 {
            pending
        } else {
            downsample_uploads(
                self.downsamples_uploads(pending, count - 1),
                self.downsamples[count - 1],
            )
        }
    }

    /// Why one of the first `count` layers cannot be uploaded.
    pub open spec fn layers_refusal(
        self,
        weights: XasrEncoderWeights,
        caches: Option<Seq<XasrEncoderLayerCache>>,
        count: int,
    ) -> Option<Seq<char>>
        decreases count,
    {
        if count <= 0 {
            None
        } else if self.layers_refusal(weights, caches, count - 1) is Some {
            self.layers_refusal(weights, caches, count - 1)
        } else {
            let entry = self.layers[count - 1];
            layer_upload_refusal(
                self.layer_weights(weights, count - 1),
                entry.binding.shape,
                entry.valid_left_context,
                cache_at(caches, entry.cache_index as int),
            )
        }
    }

    /// The uploads of the first `count` layers, appended.
    pub open spec fn layers_uploads(
        self,
        m: FloatModel,
        pending: Seq<EffectView>,
        weights: XasrEncoderWeights,
        caches: Option<Seq<XasrEncoderLayerCache>>,
        count: int,
    ) -> Seq<EffectView>
        decreases count,
    {
        if count <= 0 {
            pending
        } else {
            let entry = self.layers[count - 1];
            layer_uploads(
                m,
                self.layers_uploads(m, pending, weights, caches, count - 1),
                entry.binding,
                self.layer_weights(weights, count - 1),
                entry.valid_left_context,
                cache_at(caches, entry.cache_index as int),
            )
        }
    }

    /// Why the caches of one of the first `count` layers cannot be uploaded.
    pub open spec fn caches_refusal(
        self,
        caches: Option<Seq<XasrEncoderLayerCache>>,
        count: int,
    ) -> Option<Seq<char>>
        decreases count,
    {
        if count <= 0 {
            None
        } else if self.caches_refusal(caches, count - 1) is Some {
            self.caches_refusal(caches, count - 1)
        } else {
            let entry = self.layers[count - 1];
            dynamic_caches_refusal(entry.binding.shape, cache_at(caches, entry.cache_index as int))
        }
    }

    /// The uploads of the caches of the first `count` layers, appended.
    pub open spec fn caches_uploads(
        self,
        pending: Seq<EffectView>,
        caches: Option<Seq<XasrEncoderLayerCache>>,
        count: int,
    ) -> Seq<EffectView>
        decreases count,
    {
        if count <= 0 {
            pending
        } else {
            let entry = self.layers[count - 1];
            dynamic_cache_uploads(
                self.caches_uploads(pending, caches, count - 1),
                entry.binding,
                cache_at(caches, entry.cache_index as int),
            )
        }
    }

    /// Why one of the first `count` combiners cannot be uploaded.
    pub open spec fn combiners_refusal(
        self,
        weights: XasrEncoderWeights,
        count: int,
    ) -> Option<Seq<char>>
        decreases count,
    {
        if count <= 0 {
            None
        } else if self.combiners_refusal(weights, count - 1) is Some {
            self.combiners_refusal(weights, count - 1)
        } else {
            let stack = self.combiners[count - 1].stack_index;
            if weights.stacks@[stack as int].out_combiner_bypass_scale is None {
                Some("stack"@ + decimal(stack as nat) + " missing out_combiner bypass scale"@)
            } else {
                None
            }
        }
    }

    /// The uploads of the first `count` combiners, appended: their scales.
    pub open spec fn combiners_uploads(
        self,
        pending: Seq<EffectView>,
        weights: XasrEncoderWeights,
        count: int,
    ) -> Seq<EffectView>
        decreases count,
    {
        if count <= 0 {
            pending
        } else {
            let entry = self.combiners[count - 1];
            self.combiners_uploads(pending, weights, count - 1).push(
                floats(
                    entry.scale,
                    (weights.stacks@[entry.stack_index as int].out_combiner_bypass_scale->0)@,
                    "xasr_out_combiner_scale"@,
                ),
            )
        }
    }

    /// Why the weights and caches cannot be uploaded.
    pub open spec fn upload_refusal(
        self,
        weights: XasrEncoderWeights,
        caches: Option<Seq<XasrEncoderLayerCache>>,
    ) -> Option<Seq<char>> {
        let downsamples = self.downsamples_refusal(self.downsamples.len() as int);
        let layers = self.layers_refusal(weights, caches, self.layers.len() as int);
        if downsamples is Some {
            downsamples
        } else if layers is Some {
            layers
        } else {
            self.combiners_refusal(weights, self.combiners.len() as int)
        }
    }

    /// The uploads of the weights and caches, appended.
    pub open spec fn all_uploads(
        self,
        m: FloatModel,
        pending: Seq<EffectView>,
        weights: XasrEncoderWeights,
        caches: Option<Seq<XasrEncoderLayerCache>>,
    ) -> Seq<EffectView> {
        self.combiners_uploads(
            self.layers_uploads(
                m,
                self.downsamples_uploads(pending, self.downsamples.len() as int),
                weights,
                caches,
                self.layers.len() as int,
            ),
            weights,
            self.combiners.len() as int,
        )
    }

    proof fn lemma_downsamples_refusal_monotone(self, count: int, longer: int)
        requires
            0 <= count <= longer,
            self.downsamples_refusal(count) is Some,
        ensures
            self.downsamples_refusal(longer) == self.downsamples_refusal(count),
        decreases longer,
    {
        if count < longer {
            self.lemma_downsamples_refusal_monotone(count, longer - 1);
        }
    }

    proof fn lemma_layers_refusal_monotone(
        self,
        weights: XasrEncoderWeights,
        caches: Option<Seq<XasrEncoderLayerCache>>,
        count: int,
        longer: int,
    )
        requires
            0 <= count <= longer,
            self.layers_refusal(weights, caches, count) is Some,
        ensures
            self.layers_refusal(weights, caches, longer) == self.layers_refusal(
                weights,
                caches,
                count,
            ),
        decreases longer,
    {
        if count < longer {
            self.lemma_layers_refusal_monotone(weights, caches, count, longer - 1);
        }
    }

    proof fn lemma_caches_refusal_monotone(
        self,
        caches: Option<Seq<XasrEncoderLayerCache>>,
        count: int,
        longer: int,
    )
        requires
            0 <= count <= longer,
            self.caches_refusal(caches, count) is Some,
        ensures
            self.caches_refusal(caches, longer) == self.caches_refusal(caches, count),
        decreases longer,
    {
        if count < longer {
            self.lemma_caches_refusal_monotone(caches, count, longer - 1);
        }
    }

    proof fn lemma_combiners_refusal_monotone(
        self,
        weights: XasrEncoderWeights,
        count: int,
        longer: int,
    )
        requires
            0 <= count <= longer,
            self.combiners_refusal(weights, count) is Some,
        ensures
            self.combiners_refusal(weights, longer) == self.combiners_refusal(weights, count),
        decreases longer,
    {
        if count < longer {
            self.lemma_combiners_refusal_monotone(weights, count, longer - 1);
        }
    }
}

fn cache_of(caches: Option<&[XasrEncoderLayerCache]>, index: usize) -> (cache: Option<
    &XasrEncoderLayerCache,
>)
    ensures
        layer_cache_view(cache) == cache_at(caches_view(caches), index as int),
{
    match caches {
        Some(all) => if index < all.len() {
            Some(&all[index])
        } else {
            None
        },
        None => None,
    }
}

fn upload_downsamples(
    graph: &mut GgmlCpuGraphBuilder,
    parts: &XasrFullEncoderGraphParts,
) -> (result: Result<(), XasrEncoderGraphError>)
    requires
        forall|i: int|
            0 <= i < parts@.downsamples.len() ==> #[trigger] parts@.downsample_fits(*old(graph), i),
    ensures
        uploads(
            result,
            *old(graph),
            *final(graph),
            parts@.downsamples_refusal(parts@.downsamples.len() as int),
            true,
            parts@.downsamples_uploads(old(graph).pending(), parts@.downsamples.len() as int),
        ),
{
    let ghost p = parts@;
    let mut i: usize = 0;
    proof {
        lemma_noted_is_partly_noted(*graph, *graph);
    }
    while i < parts.downsample_uploads.len()
        invariant
            i <= parts.downsample_uploads.len(),
            p == parts@,
            forall|j: int|
                0 <= j < p.downsamples.len() ==> #[trigger] p.downsample_fits(*old(graph), j),
            partly_noted(*old(graph), *graph),
            p.downsamples_refusal(i as int) is None,
            graph.pending() == p.downsamples_uploads(old(graph).pending(), i as int),
        decreases parts.downsample_uploads.len() - i,
    {
        let ghost before = *graph;
        assert(p.downsample_fits(*old(graph), i as int));
        let uploaded = parts.downsample_uploads[i].upload(graph);
        proof {
            lemma_partly_noted_trans(*old(graph), before, *graph);
            if p.downsamples_refusal(i + 1) is Some {
                p.lemma_downsamples_refusal_monotone(i + 1, p.downsamples.len() as int);
            }
        }
        uploaded?;
        i = i + 1;
    }
    Ok(())
}

#[verifier::spinoff_prover]
pub fn upload_layers<O: FloatOps>(
    ops: &O,
    graph: &mut GgmlCpuGraphBuilder,
    weights: &XasrEncoderWeights,
    parts: &XasrFullEncoderGraphParts,
    caches: Option<&[XasrEncoderLayerCache]>,
) -> (result: Result<(), XasrEncoderGraphError>)
    requires
        forall|i: int|
            0 <= i < parts@.layers.len() ==> #[trigger] parts@.layer_fits(
                *old(graph),
                *weights,
                i,
            ),
    ensures
        uploads(
            result,
            *old(graph),
            *final(graph),
            parts@.layers_refusal(*weights, caches_view(caches), parts@.layers.len() as int),
            float_ops::functional(ops),
            parts@.layers_uploads(
                float_ops::model(ops),
                old(graph).pending(),
                *weights,
                caches_view(caches),
                parts@.layers.len() as int,
            ),
        ),
{
    let ghost p = parts@;
    let ghost all = caches_view(caches);
    let mut i: usize = 0;
    proof {
        lemma_noted_is_partly_noted(*graph, *graph);
    }
    while i < parts.layer_uploads.len()
        invariant
            i <= parts.layer_uploads.len(),
            p == parts@,
            all == caches_view(caches),
            forall|j: int|
                0 <= j < p.layers.len() ==> #[trigger] p.layer_fits(*old(graph), *weights, j),
            partly_noted(*old(graph), *graph),
            p.layers_refusal(*weights, all, i as int) is None,
            float_ops::functional(ops) ==> graph.pending() == p.layers_uploads(
                float_ops::model(ops),
                old(graph).pending(),
                *weights,
                all,
                i as int,
            ),
        decreases parts.layer_uploads.len() - i,
    {
        let ghost before = *graph;
        assert(p.layer_fits(*old(graph), *weights, i as int));
        let entry = &parts.layer_uploads[i];
        let layer = &weights.stacks[entry.stack_index].layers[entry.layer_index];
        proof {
            reveal(zipformer_graph::XasrZipformerLayerGraphTensors::within);
        }
        let uploaded = entry.binding.upload(
            ops,
            graph,
            layer,
            entry.valid_left_context,
            cache_of(caches, entry.cache_index),
        );
        proof {
            lemma_partly_noted_trans(*old(graph), before, *graph);
            if p.layers_refusal(*weights, all, i + 1) is Some {
                p.lemma_layers_refusal_monotone(*weights, all, i + 1, p.layers.len() as int);
            }
        }
        uploaded?;
        i = i + 1;
    }
    Ok(())
}

fn upload_combiners(
    graph: &mut GgmlCpuGraphBuilder,
    weights: &XasrEncoderWeights,
    parts: &XasrFullEncoderGraphParts,
) -> (result: Result<(), XasrEncoderGraphError>)
    requires
        forall|i: int|
            0 <= i < parts@.combiners.len() ==> #[trigger] parts@.combiner_fits(
                *old(graph),
                *weights,
                i,
            ),
    ensures
        uploads(
            result,
            *old(graph),
            *final(graph),
            parts@.combiners_refusal(*weights, parts@.combiners.len() as int),
            true,
            parts@.combiners_uploads(
                old(graph).pending(),
                *weights,
                parts@.combiners.len() as int,
            ),
        ),
{
    let ghost p = parts@;
    let mut i: usize = 0;
    proof {
        lemma_noted_is_partly_noted(*graph, *graph);
    }
    while i < parts.out_combiner_uploads.len()
        invariant
            i <= parts.out_combiner_uploads.len(),
            p == parts@,
            forall|j: int|
                0 <= j < p.combiners.len() ==> #[trigger] p.combiner_fits(
                    *old(graph),
                    *weights,
                    j,
                ),
            partly_noted(*old(graph), *graph),
            p.combiners_refusal(*weights, i as int) is None,
            graph.pending() == p.combiners_uploads(old(graph).pending(), *weights, i as int),
        decreases parts.out_combiner_uploads.len() - i,
    {
        let ghost before = *graph;
        assert(p.combiner_fits(*old(graph), *weights, i as int));
        let entry = parts.out_combiner_uploads[i];
        match &weights.stacks[entry.stack_index].out_combiner_bypass_scale {
            Some(scale) => {
                upload_f32(graph, entry.scale, scale.as_slice(), "xasr_out_combiner_scale");
            },
            None => {
                proof {
                    p.lemma_combiners_refusal_monotone(
                        *weights,
                        i + 1,
                        p.combiners.len() as int,
                    );
                }
                let mut reason = text::copy_text("stack");
                text::push_number(&mut reason, entry.stack_index);
                reason.append(" missing out_combiner bypass scale");
                return Err(XasrEncoderGraphError::Shape { reason });
            },
        }
        proof {
            lemma_noted_is_partly_noted(before, *graph);
            lemma_partly_noted_trans(*old(graph), before, *graph);
        }
        i = i + 1;
    }
    Ok(())
}

/// Uploads weights, tables, padding and caches of the whole encoder.
#[verifier::spinoff_prover]
pub fn upload_all<O: FloatOps>(
    ops: &O,
    graph: &mut GgmlCpuGraphBuilder,
    weights: &XasrEncoderWeights,
    parts: &XasrFullEncoderGraphParts,
    caches: Option<&[XasrEncoderLayerCache]>,
) -> (result: Result<(), XasrEncoderGraphError>)
    requires
        parts@.fits(*old(graph), *weights),
    ensures
        uploads(
            result,
            *old(graph),
            *final(graph),
            parts@.upload_refusal(*weights, caches_view(caches)),
            float_ops::functional(ops),
            parts@.all_uploads(
                float_ops::model(ops),
                old(graph).pending(),
                *weights,
                caches_view(caches),
            ),
        ),
{
    upload_downsamples(graph, parts)?;
    let ghost g1 = *graph;
    proof {
        lemma_fits_noted(*old(graph), g1, parts@, *weights);
    }
    let layers = upload_layers(ops, graph, weights, parts, caches);
    let ghost g2 = *graph;
    proof {
        lemma_partly_noted_trans(*old(graph), g1, g2);
        lemma_fits_noted(*old(graph), g2, parts@, *weights);
    }
    layers?;
    let combiners = upload_combiners(graph, weights, parts);
    proof {
        lemma_partly_noted_trans(*old(graph), g2, *graph);
    }
    combiners
}

/// Uploads the caches of all layers alone.
#[verifier::spinoff_prover]
pub fn upload_caches(
    graph: &mut GgmlCpuGraphBuilder,
    parts: &XasrFullEncoderGraphParts,
    caches: Option<&[XasrEncoderLayerCache]>,
) -> (result: Result<(), XasrEncoderGraphError>)
    requires
        forall|i: int|
            0 <= i < parts@.layers.len() ==> (#[trigger] parts@.layers[i]).binding.tensors.within(
                *old(graph),
            ),
    ensures
        uploads(
            result,
            *old(graph),
            *final(graph),
            parts@.caches_refusal(caches_view(caches), parts@.layers.len() as int),
            true,
            parts@.caches_uploads(
                old(graph).pending(),
                caches_view(caches),
                parts@.layers.len() as int,
            ),
        ),
{
    let ghost p = parts@;
    let ghost all = caches_view(caches);
    let mut i: usize = 0;
    proof {
        lemma_noted_is_partly_noted(*graph, *graph);
    }
    while i < parts.layer_uploads.len()
        invariant
            i <= parts.layer_uploads.len(),
            p == parts@,
            all == caches_view(caches),
            forall|j: int|
                0 <= j < p.layers.len() ==> (#[trigger] p.layers[j]).binding.tensors.within(
                    *old(graph),
                ),
            partly_noted(*old(graph), *graph),
            p.caches_refusal(all, i as int) is None,
            graph.pending() == p.caches_uploads(old(graph).pending(), all, i as int),
        decreases parts.layer_uploads.len() - i,
    {
        let ghost before = *graph;
        let entry = &parts.layer_uploads[i];
        assert(p.layers[i as int].binding.tensors.within(*old(graph)));
        proof {
            reveal(zipformer_graph::XasrZipformerLayerGraphTensors::within);
        }
        let uploaded = entry.binding.upload_dynamic_caches(
            graph,
            cache_of(caches, entry.cache_index),
        );
        proof {
            lemma_partly_noted_trans(*old(graph), before, *graph);
            if p.caches_refusal(all, i + 1) is Some {
                p.lemma_caches_refusal_monotone(all, i + 1, p.layers.len() as int);
            }
        }
        uploaded?;
        i = i + 1;
    }
    Ok(())
}

/// Parts that belong to a graph belong to it when only effects were noted.
pub proof fn lemma_fits_noted(
    before: GgmlCpuGraphBuilder,
    after: GgmlCpuGraphBuilder,
    parts: PlanParts,
    weights: XasrEncoderWeights,
)
    requires
        parts.fits(before, weights),
        after@ == before@,
    ensures
        parts.fits(after, weights),
{
    reveal(zipformer_graph::XasrZipformerLayerGraphTensors::within);
    assert forall|i: int| 0 <= i < parts.layers.len() implies #[trigger] parts.layer_fits(
        after,
        weights,
        i,
    ) by {
        assert(parts.layer_fits(before, weights, i));
    }
    assert forall|i: int| 0 <= i < parts.downsamples.len() implies #[trigger] parts.downsample_fits(
        after,
        i,
    ) by {
        assert(parts.downsample_fits(before, i));
    }
    assert forall|i: int| 0 <= i < parts.combiners.len() implies #[trigger] parts.combiner_fits(
        after,
        weights,
        i,
    ) by {
        assert(parts.combiner_fits(before, weights, i));
    }
}

/// Every layer of the first `count` stacks stands in one of them.
pub proof fn lemma_stack_of_layer(task: PlanTask, count: int, index: int) -> (s: int)
    requires
        0 <= count,
        0 <= index < task.layer_start(count),
    ensures
        0 <= s < count,
        task.layer_start(s) <= index < task.layer_start(s + 1),
    decreases count,
{
    if count > 0 && index < task.layer_start(count - 1) {
        lemma_stack_of_layer(task, count - 1, index)
    } else {
        count - 1
    }
}

/// The parts of a built graph belong to it and to the weights it was built
/// from, so everything can be uploaded.
pub proof fn law_built_plan_can_be_uploaded(
    task: PlanTask,
    graph: GgmlCpuGraphBuilder,
    plan: XasrFullEncoderGraphPlan,
    x: TensorValue,
)
    requires
        task.covered(),
        task.plan_built(graph, plan, x),
    ensures
        plan.parts@.fits(graph, task.weights),
{
    let parts = plan.parts@;
    let n = task.stack_count();
    reveal(zipformer_graph::layer_refusal);
    reveal(attention_weights_refusal);
    assert forall|i: int| 0 <= i < parts.layers.len() implies #[trigger] parts.layer_fits(
        graph,
        task.weights,
        i,
    ) by {
        let s = lemma_stack_of_layer(task, n, i);
        assert(task.stack_built(graph, parts, x, s));
        let trunk = task.trunk_value(graph, parts, x, s);
        let from = task.layer_start(s);
        assert(layer_built(
            graph,
            task.branch_input(graph, parts, s, trunk),
            task.stack(s),
            task.site(s),
            parts.layers,
            from,
            i,
        ));
        assert(task.layer_start(s + 1) == from + task.stack(s).layers@.len());
    }
    assert forall|i: int| 0 <= i < parts.downsamples.len() implies #[trigger] parts.downsample_fits(
        graph,
        i,
    ) by {
        if i < n - 1 {
            assert(task.stack_built(graph, parts, x, i + 1));
        }
    }
    assert forall|i: int| 0 <= i < parts.combiners.len() implies #[trigger] parts.combiner_fits(
        graph,
        task.weights,
        i,
    ) by {
        assert(task.stack_built(graph, parts, x, i + 1));
    }
}

} // verus!
