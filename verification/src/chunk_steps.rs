//! A chunk of a stream, step by step: what is run next and with what, given what
//! the device gave back.

use vstd::prelude::*;
use crate::embed_binding;
use crate::embed_run::EmbedRun;
use crate::encoder_binding::{input_marks, partly_noted};
use crate::encoder_error::{of_shape, outcome, Refusal, XasrEncoderGraphError};
use crate::encoder_graph::{
    XasrEncoderChunkOutput, XasrEncoderChunkState, XasrEncoderEmbedOwnedOutput,
    XasrZipformerEncoderGraph,
};
use crate::encoder_rows::XasrEncoderFeatureInput;
use crate::encoder_session::{cache_holds, take_chunk_output, XasrFullEncoderReusableGraph};
use crate::encoder_upload::{floats, XasrEncoderLayerCache};
use crate::float_ops;
use crate::float_ops::FloatOps;
use crate::full_upload::caches_view;
use crate::graph;
use crate::graph::{EffectView, GgmlCpuGraphBuilder};

verus! {

/// What a chunk waits for.
pub enum ChunkStep {
    /// One run of this graph: the rows and the next cache of the embedding.
    Embedding { graph: GgmlCpuGraphBuilder, run: EmbedRun },
    /// A session on the device for a graph of the encoder.
    Session { built: XasrFullEncoderReusableGraph, embed: XasrEncoderEmbedOwnedOutput },
    /// A run of the kept graph, whose uploads wait.
    Encoding { embed_states: Vec<u32> },
}

/// The cache of the embedding that the last chunk left.
pub open spec fn left_states(state: Option<&XasrEncoderChunkState>) -> Option<Seq<u32>> {
    match state {
        Some(left) => Some(left.embed_states@),
        None => None,
    }
}

/// The caches of the layers that the last chunk left.
pub open spec fn left_caches(state: Option<&XasrEncoderChunkState>) -> Option<
    Seq<XasrEncoderLayerCache>,
> {
    match state {
        Some(left) => Some(left.layer_caches@),
        None => None,
    }
}

fn states_of(state: Option<&XasrEncoderChunkState>) -> (states: Option<&[u32]>)
    ensures
        float_ops::option_view(states) == left_states(state),
{
    match state {
        Some(left) => Some(left.embed_states.as_slice()),
        None => None,
    }
}

fn caches_of(state: Option<&XasrEncoderChunkState>) -> (caches: Option<&[XasrEncoderLayerCache]>)
    ensures
        caches_view(caches) == left_caches(state),
{
    match state {
        Some(left) => Some(left.layer_caches.as_slice()),
        None => None,
    }
}

impl XasrZipformerEncoderGraph {
    /// Why a chunk cannot begin.
    pub open spec fn chunk_start_refusal(
        self,
        input: XasrEncoderFeatureInput,
        states: Option<Seq<u32>>,
    ) -> Option<Refusal> {
        if self.chunk_input_refusal(input) is Some {
            of_shape(self.chunk_input_refusal(input))
        } else {
            self.embed_plan_refusal(input, states)
        }
    }

    /// The first step of a chunk: its embedding.
    pub fn begin_chunk(
        &self,
        input: &XasrEncoderFeatureInput,
        state: Option<&XasrEncoderChunkState>,
    ) -> (result: Result<ChunkStep, XasrEncoderGraphError>)
        ensures
            outcome(result, self.chunk_start_refusal(*input, left_states(state))),
            result is Ok ==> {
                &&& result->Ok_0 is Embedding
                &&& {
                    let graph = result->Ok_0->graph;
                    let run = result->Ok_0->run;
                    &&& self.embed_planned(graph, 0, *input, run)
                    &&& graph::nodes_extend(
                        embed_binding::embed_nodes(
                            Seq::empty(),
                            self.spec_weights().embed,
                            run.binding.shape,
                        ),
                        graph.recorded(),
                    )
                    &&& graph.pending() == embed_binding::embed_uploads(
                        input_marks(Seq::empty(), run.binding.inputs()).push(
                            (EffectView::SetOutput { tensor: run.output.rows.id as int }),
                        ).push(
                            (EffectView::SetOutput {
                                tensor: run.output.new_embed_states.id as int,
                            }),
                        ).push(
                            floats(
                                run.binding.tensors.features,
                                input.rows@,
                                "xasr_encoder_embed_features"@,
                            ),
                        ),
                        run.binding.tensors.embed,
                        self.spec_weights().embed,
                        run.binding.shape,
                        left_states(state),
                    )
                }
            },
    {
        self.check_chunk_input(input)?;
        let mut graph = GgmlCpuGraphBuilder::new();
        assert(graph.pending() =~= Seq::<EffectView>::empty());
        let run = self.plan_embed(&mut graph, input, states_of(state))?;
        Ok(ChunkStep::Embedding { graph, run })
    }

    /// What is promised of an upload into the kept graph.
    pub open spec fn chunk_in_kept_graph<O: FloatOps>(
        before: Self,
        after: Self,
        ops: &O,
        rows: Seq<u32>,
        caches: Option<Seq<XasrEncoderLayerCache>>,
        uploaded: bool,
    ) -> bool {
        let old_graph = before.reuse()->0;
        let new_graph = after.reuse()->0;
        &&& after.reuse() is Some
        &&& new_graph.fits_chunk(old_graph.frames, old_graph.dim, old_graph.valid_left_context)
        &&& new_graph.plan == old_graph.plan
        &&& new_graph.input == old_graph.input
        &&& new_graph.output_specs == old_graph.output_specs
        &&& new_graph.static_uploaded
        &&& partly_noted(old_graph.graph, new_graph.graph)
        &&& uploaded && (old_graph.static_uploaded || float_ops::functional(ops))
            ==> new_graph.graph.pending() == old_graph.chunk_uploads(
            float_ops::model(ops),
            before.spec_weights(),
            rows,
            caches,
        )
    }

    /// The step after the embedding.  The frames of the input count as valid left
    /// context.  A kept graph for chunks of this shape gets the rows; else one is
    /// built.
    #[verifier::spinoff_prover]
    pub fn chunk_embedded<O: FloatOps>(
        &mut self,
        ops: &O,
        input: &XasrEncoderFeatureInput,
        state: Option<&XasrEncoderChunkState>,
        run: &EmbedRun,
        outputs: Vec<Vec<u32>>,
    ) -> (result: Result<ChunkStep, XasrEncoderGraphError>)
        requires
            old(self).wf(),
            old(self).complete(),
            outputs@.len() >= 2,
        ensures
            final(self).wf(),
            final(self).complete(),
            final(self).same_encoder(*old(self)),
            ({
                let frames = run.binding.shape.embed_frames;
                let dim = run.binding.shape.output_dim;
                let rows = outputs@[0]@;
                let caches = left_caches(state);
                let refusal = old(self).full_input_refusal(
                    rows.len() as int,
                    frames,
                    dim,
                    input.frames,
                    caches,
                );
                if refusal is Some {
                    &&& outcome(result, of_shape(refusal))
                    &&& final(self).reuse() == old(self).reuse()
                } else if old(self).kept_for(frames, dim, input.frames) {
                    &&& outcome(
                        result,
                        of_shape(
                            (old(self).reuse()->0).chunk_refusal(
                                old(self).spec_weights(),
                                caches,
                            ),
                        ),
                    )
                    &&& Self::chunk_in_kept_graph(
                        *old(self),
                        *final(self),
                        ops,
                        rows,
                        caches,
                        result is Ok,
                    )
                    &&& result is Ok ==> result->Ok_0 is Encoding
                        && result->Ok_0->embed_states == outputs@[1]
                } else {
                    &&& outcome(result, old(self).rebuild_refusal(frames, dim, input.frames))
                    &&& final(self).reuse() == old(self).reuse()
                    &&& result is Ok ==> {
                        &&& result->Ok_0 is Session
                        &&& {
                            let built = result->Ok_0->built;
                            let embed = result->Ok_0->embed;
                            &&& built.built_for(old(self).spec_metadata(), old(self).spec_weights())
                            &&& built.fits_chunk(frames, dim, input.frames)
                            &&& !built.static_uploaded
                            &&& float_ops::functional(ops) ==> old(self).task(
                                frames,
                                dim,
                                input.frames,
                                true,
                            ).weighs(float_ops::model(ops), built.plan.parts@)
                            &&& built.graph.pending() == old(self).task(
                                frames,
                                dim,
                                input.frames,
                                true,
                            ).plan_marks(
                                seq![EffectView::SetInput { tensor: built.input.id as int }],
                                built.plan,
                            )
                            &&& embed.frames == frames
                            &&& embed.dim == dim
                            &&& embed.rows == outputs@[0]
                            &&& embed.new_embed_states == outputs@[1]
                        }
                    }
                }
            }),
    {
        let embed = Self::finish_embed(run, outputs);
        let caches = caches_of(state);
        self.check_full_input(
            embed.rows.as_slice(),
            embed.frames,
            embed.dim,
            input.frames,
            caches,
        )?;
        if self.needs_rebuild(embed.frames, embed.dim, input.frames) {
            let built = self.build_reusable(ops, embed.frames, embed.dim, input.frames)?;
            return Ok(ChunkStep::Session { built, embed });
        }
        self.upload_chunk(ops, embed.rows.as_slice(), caches)?;
        Ok(ChunkStep::Encoding { embed_states: embed.new_embed_states })
    }

    /// The step after a session was started: the graph is kept and gets the rows.
    pub fn chunk_session_started<O: FloatOps>(
        &mut self,
        ops: &O,
        state: Option<&XasrEncoderChunkState>,
        built: XasrFullEncoderReusableGraph,
        embed: XasrEncoderEmbedOwnedOutput,
    ) -> (result: Result<ChunkStep, XasrEncoderGraphError>)
        requires
            old(self).wf(),
            old(self).complete(),
            built.built_for(old(self).spec_metadata(), old(self).spec_weights()),
        ensures
            final(self).wf(),
            final(self).complete(),
            final(self).same_encoder(*old(self)),
            outcome(
                result,
                of_shape(built.chunk_refusal(old(self).spec_weights(), left_caches(state))),
            ),
            final(self).reuse() is Some,
            ({
                let kept = final(self).reuse()->0;
                &&& kept.fits_chunk(built.frames, built.dim, built.valid_left_context)
                &&& kept.plan == built.plan
                &&& kept.input == built.input
                &&& kept.output_specs == built.output_specs
                &&& kept.static_uploaded
                &&& partly_noted(built.graph, kept.graph)
                &&& result is Ok && (built.static_uploaded || float_ops::functional(ops))
                    ==> kept.graph.pending() == built.chunk_uploads(
                    float_ops::model(ops),
                    old(self).spec_weights(),
                    embed.rows@,
                    left_caches(state),
                )
            }),
            result is Ok ==> result->Ok_0 is Encoding && result->Ok_0->embed_states
                == embed.new_embed_states,
    {
        self.keep(built);
        self.upload_chunk(ops, embed.rows.as_slice(), caches_of(state))?;
        Ok(ChunkStep::Encoding { embed_states: embed.new_embed_states })
    }

    /// The last step: the rows of the chunk and what it leaves.
    pub fn chunk_encoded(&mut self, embed_states: Vec<u32>, outputs: Vec<Vec<u32>>) -> (chunk:
        XasrEncoderChunkOutput)
        requires
            old(self).wf(),
            old(self).reuse() is Some,
            outputs@.len() >= 1 + 6 * (old(self).reuse()->0).plan.parts@.layers.len(),
        ensures
            final(self).wf(),
            final(self).same_encoder(*old(self)),
            final(self).reuse() is Some,
            ({
                let kept = old(self).reuse()->0;
                let after = final(self).reuse()->0;
                &&& after.fits_chunk(kept.frames, kept.dim, kept.valid_left_context)
                &&& after.plan == kept.plan
                &&& after.input == kept.input
                &&& after.output_specs == kept.output_specs
                &&& after.static_uploaded == kept.static_uploaded
                &&& after.graph@ == kept.graph@
                &&& after.graph.recorded() == kept.graph.recorded()
                &&& after.graph.pending().len() == 0
                &&& chunk.output.frames == kept.plan.output.frames
                &&& chunk.output.dim == kept.plan.output.dim
                &&& chunk.output.rows == outputs@[0]
                &&& chunk.state.embed_states == embed_states
                &&& chunk.state.layer_caches@.len() == kept.plan.parts@.layers.len()
                &&& forall|i: int|
                    0 <= i < chunk.state.layer_caches@.len() ==> cache_holds(
                        #[trigger] chunk.state.layer_caches@[i],
                        outputs@,
                        1 + 6 * i,
                    )
            }),
    {
        let encoded = match self.reusable() {
            Some(kept) => kept.finish_chunk(outputs),
            None => {
                assert(false);
                take_chunk_output(0, 0, 0, outputs)
            },
        };
        self.clear_effects();
        XasrEncoderChunkOutput {
            output: encoded.output,
            state: XasrEncoderChunkState { embed_states, layer_caches: encoded.layer_caches },
        }
    }
}

} // verus!
