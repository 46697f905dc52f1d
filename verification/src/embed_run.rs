//! Planning the graph of the embedding and taking its results.

use vstd::prelude::*;
use crate::embed_binding;
use crate::embed_binding::XasrEncoderEmbedGraphBinding;
use crate::embed_graph;
use crate::embed_graph::{apply_encoder_embed_graph, XasrEncoderEmbedGraphOutput};
use crate::encoder_binding::input_marks;
use crate::encoder_error::{
    at_stage, map_ggml_stage, of_shape, outcome, shape_error, Refusal, XasrEncoderGraphError,
};
use crate::encoder_graph::{XasrEncoderEmbedOwnedOutput, XasrZipformerEncoderGraph};
use crate::encoder_rows::{rows_refusal, validate_rows_len, XasrEncoderFeatureInput};
use crate::encoder_upload::floats;
use crate::float_ops;
use crate::graph;
use crate::graph::{EffectView, GgmlCpuGraphBuilder};
use crate::tensor_value::{Shape4, TensorValue};

verus! {

/// A graph for the embedding and what to read back from it.
#[derive(Debug)]
pub struct EmbedRun {
    pub binding: XasrEncoderEmbedGraphBinding,
    pub output: XasrEncoderEmbedGraphOutput,
    pub rows_len: usize,
    pub cache_len: usize,
}

/// What the embedding computes does not change while the graph grows.
pub proof fn lemma_embed_in_grown(
    before: GgmlCpuGraphBuilder,
    after: GgmlCpuGraphBuilder,
    tensors: embed_graph::XasrEncoderEmbedGraphTensors,
    features: TensorValue,
    shape: embed_graph::XasrEncoderEmbedGraphShape,
)
    requires
        tensors.within(before),
        after.builds_on(before),
    ensures
        tensors.applied(after, features, shape) == tensors.applied(before, features, shape),
        tensors.next_cache(after, features, shape) == tensors.next_cache(before, features, shape),
        tensors.within(after),
{
    assert(tensors.subsampled(after, features, shape) == tensors.subsampled(
        before,
        features,
        shape,
    ));
    let state = tensors.subsampled(before, features, shape);
    assert(tensors.convnext(after, state, shape) == tensors.convnext(before, state, shape));
}

impl XasrZipformerEncoderGraph {
    /// Why the embedding of a chunk cannot be planned.
    pub open spec fn embed_plan_refusal(
        self,
        input: XasrEncoderFeatureInput,
        embed_states: Option<Seq<u32>>,
    ) -> Option<Refusal> {
        let weights = self.spec_weights().embed;
        let rows = rows_refusal(
            input.rows@.len() as int,
            input.frames,
            input.feature_dim,
            "encoder embed feature input"@,
        );
        let alloc = embed_binding::embed_allocation_refusal(
            weights,
            input.frames,
            input.feature_dim,
        );
        let shape = embed_binding::embed_shape(weights, input.frames, input.feature_dim);
        let uploads = embed_binding::embed_upload_refusal(shape, embed_states);
        if self.spec_config() is None {
            Some(
                Refusal::Shape { reason: "GGML encoder embed backend requires a graph config"@ },
            )
        } else if rows is Some {
            of_shape(rows)
        } else if alloc is Some {
            at_stage("encoder_embed_alloc"@, alloc)
        } else if embed_graph::embed_refusal(shape) is Some {
            at_stage("encoder_embed_graph"@, embed_graph::embed_refusal(shape))
        } else if uploads is Some {
            of_shape(uploads)
        } else if shape.embed_frames * shape.output_dim > usize::MAX {
            Some(Refusal::Shape { reason: "xasr encoder embed output length overflows"@ })
        } else {
            None
        }
    }

    /// The embedding stands in the graph.
    pub open spec fn embed_planned(
        self,
        graph: GgmlCpuGraphBuilder,
        base: int,
        input: XasrEncoderFeatureInput,
        run: EmbedRun,
    ) -> bool {
        let shape = embed_binding::embed_shape(
            self.spec_weights().embed,
            input.frames,
            input.feature_dim,
        );
        let binding = run.binding;
        let features = TensorValue::leaf(
            base,
            (Shape4 { ne0: input.feature_dim, ne1: input.frames, ne2: 1, ne3: 1 }),
        );
        &&& binding.shape == shape
        &&& binding.tensors == embed_binding::embed_handles(base)
        &&& binding.within(graph)
        &&& graph.value(binding.tensors.features) == features
        &&& graph.has_dense(run.output.rows)
        &&& graph.value(run.output.rows) == binding.tensors.embed.applied(graph, features, shape)
        &&& graph.has_dense(run.output.new_embed_states)
        &&& graph.value(run.output.new_embed_states) == binding.tensors.embed.next_cache(
            graph,
            features,
            shape,
        )
        &&& run.rows_len == shape.embed_frames * shape.output_dim
        &&& run.cache_len == shape.channels * shape.cache_frames * shape.embed_width
    }

    /// Plans the embedding of a chunk.
    #[verifier::spinoff_prover]
    #[verifier::rlimit(40)]
    pub fn plan_embed(
        &self,
        graph: &mut GgmlCpuGraphBuilder,
        input: &XasrEncoderFeatureInput,
        embed_states: Option<&[u32]>,
    ) -> (result: Result<EmbedRun, XasrEncoderGraphError>)
        ensures
            outcome(
                result,
                self.embed_plan_refusal(*input, float_ops::option_view(embed_states)),
            ),
            final(graph).builds_on(*old(graph)),
            result is Ok ==> {
                let run = result->Ok_0;
                &&& self.embed_planned(*final(graph), old(graph)@.len() as int, *input, run)
                &&& graph::nodes_extend(
                    embed_binding::embed_nodes(
                        old(graph).recorded(),
                        self.spec_weights().embed,
                        run.binding.shape,
                    ),
                    final(graph).recorded(),
                )
                &&& final(graph).pending() == embed_binding::embed_uploads(
                    input_marks(old(graph).pending(), run.binding.inputs()).push(
                        (EffectView::SetOutput { tensor: run.output.rows.id as int }),
                    ).push(
                        (EffectView::SetOutput { tensor: run.output.new_embed_states.id as int }),
                    ).push(
                        floats(
                            run.binding.tensors.features,
                            input.rows@,
                            "xasr_encoder_embed_features"@,
                        ),
                    ),
                    run.binding.tensors.embed,
                    self.spec_weights().embed,
                    run.binding.shape,
                    float_ops::option_view(embed_states),
                )
            },
    {
        let ghost base = graph@.len() as int;
        proof {
            graph.lemma_view_len();
        }
        if self.config().is_none() {
            return Err(shape_error("GGML encoder embed backend requires a graph config"));
        }
        let weights = &self.weights().embed;
        validate_rows_len(
            input.rows.as_slice(),
            input.frames,
            input.feature_dim,
            "encoder embed feature input",
        )?;
        let allocated = XasrEncoderEmbedGraphBinding::new(
            graph,
            weights,
            input.frames,
            input.feature_dim,
        );
        let binding = map_ggml_stage("encoder_embed_alloc", allocated)?;
        let ghost g1 = *graph;
        binding.set_inputs(graph);
        let features = binding.tensors.features;
        let ghost leaf = graph.value(features);
        proof {
            g1.lemma_leaf_value(base);
            assert(features.id == base);
        }
        let applied = apply_encoder_embed_graph(
            graph,
            features,
            binding.tensors.embed,
            binding.shape,
        );
        let output = map_ggml_stage("encoder_embed_graph", applied)?;
        graph.set_output(output.rows);
        graph.set_output(output.new_embed_states);
        graph.set_f32_slice(features, input.rows.as_slice(), "xasr_encoder_embed_features");
        proof {
            lemma_embed_in_grown(g1, *graph, binding.tensors.embed, leaf, binding.shape);
        }
        binding.upload(graph, weights, embed_states)?;
        proof {
            lemma_embed_in_grown(g1, *graph, binding.tensors.embed, leaf, binding.shape);
        }
        let rows_len = match binding.shape.embed_frames.checked_mul(binding.shape.output_dim) {
            Some(len) => len,
            None => return Err(shape_error("xasr encoder embed output length overflows")),
        };
        let planes = match binding.shape.channels.checked_mul(binding.shape.cache_frames) {
            Some(len) => len,
            None => return Err(shape_error("xasr encoder embed cache length overflows")),
        };
        let cache_len = match planes.checked_mul(binding.shape.embed_width) {
            Some(len) => len,
            None => return Err(shape_error("xasr encoder embed cache length overflows")),
        };
        Ok(EmbedRun { binding, output, rows_len, cache_len })
    }

    /// The results of an embedding: its rows, then its next cache.
    pub fn finish_embed(
        run: &EmbedRun,
        outputs: Vec<Vec<u32>>,
    ) -> (embed: XasrEncoderEmbedOwnedOutput)
        requires
            outputs@.len() >= 2,
        ensures
            embed.frames == run.binding.shape.embed_frames,
            embed.dim == run.binding.shape.output_dim,
            embed.rows == outputs@[0],
            embed.new_embed_states == outputs@[1],
    {
        let mut outputs = outputs;
        let rows = outputs.remove(0);
        let new_embed_states = outputs.remove(0);
        XasrEncoderEmbedOwnedOutput {
            frames: run.binding.shape.embed_frames,
            dim: run.binding.shape.output_dim,
            rows,
            new_embed_states,
        }
    }
}

} // verus!
