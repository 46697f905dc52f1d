//! What an encoder needs, and the way of rows through it.

use vstd::prelude::*;
use crate::encoder_error::Refusal;
use crate::encoder_graph::{validation_refusal, XasrZipformerEncoderGraph};
use crate::encoder_rows::XasrEncoderFeatureInput;
use crate::encoder_weights::XasrEncoderWeights;
use crate::float_ops::FloatModel;
use crate::layer_laws::LayerSizes;
use crate::reference_embedding::{embed_values, EmbedValues};
use crate::reference_encoder::{layers_values, tail_values};
use crate::runtime_contract::XasrZipformerExecutionMetadata;
use crate::stack_laws::after_layers;

verus! {

/// Metadata and weights belong together exactly if there is a stack, every list has an entry
/// for each stack, there are weights for each, and the first stack is as wide and as deep as
/// it is written down.
pub proof fn law_metadata_and_weights_belong_together_exactly_if_they_fit(
    metadata: XasrZipformerExecutionMetadata,
    weights: XasrEncoderWeights,
)
    ensures
        validation_refusal(metadata, weights) is None <==> {
            let n = metadata.num_stacks;
            &&& n > 0
            &&& metadata.num_encoder_layers@.len() >= n
            &&& metadata.encoder_dims@.len() >= n
            &&& metadata.query_head_dims@.len() >= n
            &&& metadata.num_heads@.len() >= n
            &&& metadata.left_context_len@.len() >= n
            &&& metadata.downsampling_factors@.len() >= n
            &&& weights.stacks@.len() >= n
            &&& weights.stacks@[0].dim == metadata.encoder_dims@[0]
            &&& weights.stacks@[0].layers@.len() == metadata.num_encoder_layers@[0]
        },
{
}

/// Embedded rows go through the layers of the first stack, with the heads and the left
/// context that are written down for it, and then through the rest of the encoder.
#[verifier::spinoff_prover]
pub proof fn law_rows_go_through_the_first_stack_and_the_rest(
    encoder: XasrZipformerEncoderGraph,
    m: FloatModel,
    rows: Seq<u32>,
    frames: usize,
    dim: usize,
    filled: usize,
) -> (first: Seq<u32>)
    requires
        encoder.encoded_rows(m, rows, frames, dim, filled) is Ok,
    ensures
        ({
            let metadata = encoder.spec_metadata();
            let weights = encoder.spec_weights();
            let stack = weights.stacks@[0];
            &&& filled > 0
            &&& dim == stack.dim
            &&& rows.len() == frames * dim
            &&& after_layers(
                m,
                stack.layers@,
                rows,
                (LayerSizes {
                    frames,
                    dim,
                    heads: metadata.num_heads@[0],
                    head_dim: metadata.query_head_dims@[0],
                    left: metadata.left_context_len@[0],
                    filled,
                }),
                stack.layers@.len() as int,
            ) == Ok::<Seq<u32>, (int, Seq<char>)>(first)
            &&& tail_values(m, metadata, weights, first, frames, dim, filled) == Ok::<
                Seq<u32>,
                Refusal,
            >(encoder.encoded_rows(m, rows, frames, dim, filled)->Ok_0)
        }),
{
    reveal(after_layers);
    let metadata = encoder.spec_metadata();
    let layers = encoder.spec_weights().stacks@[0].layers@;
    layers_values(
        m,
        layers,
        rows,
        frames,
        dim,
        metadata.num_heads@[0],
        metadata.query_head_dims@[0],
        metadata.left_context_len@[0],
        filled,
        layers.len() as int,
    )->Ok_0
}

/// Features of an utterance are embedded with the weights of the encoder, and nothing is kept
/// from before.
pub proof fn law_features_are_embedded_from_nothing(
    encoder: XasrZipformerEncoderGraph,
    m: FloatModel,
    input: XasrEncoderFeatureInput,
)
    requires
        encoder.embedded_features(m, input) is Ok,
    ensures
        embed_values(
            m,
            encoder.spec_weights().embed,
            input.rows@,
            input.frames,
            input.feature_dim,
            None,
        ) == Ok::<EmbedValues, Seq<char>>(encoder.embedded_features(m, input)->Ok_0),
{
}

} // verus!
