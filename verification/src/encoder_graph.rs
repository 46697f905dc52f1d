//! The encoder: from features, or embedded rows, to the rows that the joiner
//! reads.
//!
//! A graph is planned here and computed elsewhere: a `plan_*` function records
//! the operations and uploads and says which tensors to read back, and a
//! `finish_*` function takes what was read.

use vstd::prelude::*;
use vstd::string::StringExecFns;
use crate::encoder_error::{shape_error, XasrEncoderGraphError};
use crate::encoder_plan::norms_present;
use crate::encoder_rows::{XasrEncoderFeatureInput, XasrEncoderGraphOutput};
use crate::encoder_binding::partly_noted;
use crate::encoder_session::{
    input_value, lemma_plan_built_in_grown, XasrFullEncoderReusableGraph,
};
use crate::float_ops;
use crate::float_ops::FloatOps;
use crate::full_upload::caches_view;
use crate::encoder_tables::shape_outcome;
use crate::encoder_upload::XasrEncoderLayerCache;
use crate::encoder_weights::{XasrEncoderStackWeights, XasrEncoderWeights};
use crate::graph_config::GgmlCpuGraphConfig;
use crate::runtime_contract;
use crate::runtime_contract::XasrZipformerExecutionMetadata;
use crate::text;
use crate::text::decimal;

verus! {

/// How the encoder is computed.
#[derive(Clone, Copy, Debug, PartialEq, Eq, Structural)]
pub enum XasrEncoderGraphBackend {
    /// On the host, operation by operation.
    Reference,
    /// A graph for the first stack, the rest on the host.
    GgmlCpuStack0,
    /// A graph from the embedded rows to the output.
    GgmlCpuFullEncoder,
}

/// What a chunk leaves behind for the next one.
#[derive(Clone, Debug, PartialEq)]
pub struct XasrEncoderChunkState {
    pub embed_states: Vec<u32>,
    pub layer_caches: Vec<XasrEncoderLayerCache>,
}

/// Rows of a chunk and what it leaves behind.
#[derive(Clone, Debug, PartialEq)]
pub struct XasrEncoderChunkOutput {
    pub output: XasrEncoderGraphOutput,
    pub state: XasrEncoderChunkState,
}

/// Rows of the embedding and its next cache.
#[derive(Clone, Debug, PartialEq)]
pub struct XasrEncoderEmbedOwnedOutput {
    pub frames: usize,
    pub dim: usize,
    pub rows: Vec<u32>,
    pub new_embed_states: Vec<u32>,
}

/// The text of a metadata list that is too short.
pub open spec fn short_list_text(name: Seq<char>, len: int, num_stacks: usize) -> Seq<char> {
    "metadata "@ + name + " has "@ + decimal(len as nat) + " entries, expected at least "@
        + decimal(num_stacks as nat)
}

/// Why metadata and weights do not belong together.
pub open spec fn validation_refusal(
    metadata: XasrZipformerExecutionMetadata,
    weights: XasrEncoderWeights,
) -> Option<Seq<char>> {
    let n = metadata.num_stacks;
    let stack0 = weights.stacks@[0];
    if n == 0 {
        Some("metadata num_stacks must include stack0"@)
    } else if metadata.num_encoder_layers@.len() < n {
        Some(
            short_list_text(
                "num_encoder_layers"@,
                metadata.num_encoder_layers@.len() as int,
                n,
            ),
        )
    } else if metadata.encoder_dims@.len() < n {
        Some(short_list_text("encoder_dims"@, metadata.encoder_dims@.len() as int, n))
    } else if metadata.query_head_dims@.len() < n {
        Some(short_list_text("query_head_dims"@, metadata.query_head_dims@.len() as int, n))
    } else if metadata.num_heads@.len() < n {
        Some(short_list_text("num_heads"@, metadata.num_heads@.len() as int, n))
    } else if metadata.left_context_len@.len() < n {
        Some(short_list_text("left_context_len"@, metadata.left_context_len@.len() as int, n))
    } else if metadata.downsampling_factors@.len() < n {
        Some(
            short_list_text(
                "downsampling_factors"@,
                metadata.downsampling_factors@.len() as int,
                n,
            ),
        )
    } else if weights.stacks@.len() < n {
        Some(
            "weights include "@ + decimal(weights.stacks@.len()) + " stack(s), metadata requires "@
                + decimal(n as nat),
        )
    } else if stack0.dim != metadata.encoder_dims@[0] {
        Some(
            "stack0 dim "@ + decimal(stack0.dim as nat) + " does not match metadata "@ + decimal(
                metadata.encoder_dims@[0] as nat,
            ),
        )
    } else if stack0.layers@.len() != metadata.num_encoder_layers@[0] {
        Some(
            "stack0 has "@ + decimal(stack0.layers@.len()) + " layer(s), metadata declares "@
                + decimal(metadata.num_encoder_layers@[0] as nat),
        )
    } else {
        None
    }
}

fn check_list(
    name: &str,
    len: usize,
    num_stacks: usize,
) -> (result: Result<(), XasrEncoderGraphError>)
    ensures
        shape_outcome(
            result,
            if len < num_stacks {
                Some(short_list_text(name@, len as int, num_stacks))
            } else {
                None
            },
        ),
{
    if len < num_stacks {
        let mut reason = text::copy_text("metadata ");
        reason.append(name);
        reason.append(" has ");
        text::push_number(&mut reason, len);
        reason.append(" entries, expected at least ");
        text::push_number(&mut reason, num_stacks);
        return Err(XasrEncoderGraphError::Shape { reason });
    }
    Ok(())
}

/// Checks that metadata and weights belong together.
pub fn validate_metadata_and_weights(
    metadata: &XasrZipformerExecutionMetadata,
    weights: &XasrEncoderWeights,
) -> (result: Result<(), XasrEncoderGraphError>)
    ensures
        shape_outcome(result, validation_refusal(*metadata, *weights)),
{
    let n = metadata.num_stacks;
    if n == 0 {
        return Err(shape_error("metadata num_stacks must include stack0"));
    }
    check_list("num_encoder_layers", metadata.num_encoder_layers.len(), n)?;
    check_list("encoder_dims", metadata.encoder_dims.len(), n)?;
    check_list("query_head_dims", metadata.query_head_dims.len(), n)?;
    check_list("num_heads", metadata.num_heads.len(), n)?;
    check_list("left_context_len", metadata.left_context_len.len(), n)?;
    check_list("downsampling_factors", metadata.downsampling_factors.len(), n)?;
    if weights.stacks.len() < n {
        let mut reason = text::copy_text("weights include ");
        text::push_number(&mut reason, weights.stacks.len());
        reason.append(" stack(s), metadata requires ");
        text::push_number(&mut reason, n);
        return Err(XasrEncoderGraphError::Shape { reason });
    }
    let stack0 = &weights.stacks[0];
    if stack0.dim != metadata.encoder_dims[0] {
        let mut reason = text::copy_text("stack0 dim ");
        text::push_number(&mut reason, stack0.dim);
        reason.append(" does not match metadata ");
        text::push_number(&mut reason, metadata.encoder_dims[0]);
        return Err(XasrEncoderGraphError::Shape { reason });
    }
    if stack0.layers.len() != metadata.num_encoder_layers[0] {
        let mut reason = text::copy_text("stack0 has ");
        text::push_number(&mut reason, stack0.layers.len());
        reason.append(" layer(s), metadata declares ");
        text::push_number(&mut reason, metadata.num_encoder_layers[0]);
        return Err(XasrEncoderGraphError::Shape { reason });
    }
    Ok(())
}

/// The encoder of a model.
pub struct XasrZipformerEncoderGraph {
    metadata: XasrZipformerExecutionMetadata,
    weights: XasrEncoderWeights,
    backend: XasrEncoderGraphBackend,
    ggml_config: Option<GgmlCpuGraphConfig>,
    full_encoder_reuse: Option<XasrFullEncoderReusableGraph>,
}

impl XasrZipformerEncoderGraph {
    pub closed spec fn spec_metadata(self) -> XasrZipformerExecutionMetadata {
        self.metadata
    }

    pub closed spec fn spec_weights(self) -> XasrEncoderWeights {
        self.weights
    }

    pub closed spec fn spec_backend(self) -> XasrEncoderGraphBackend {
        self.backend
    }

    pub closed spec fn spec_config(self) -> Option<GgmlCpuGraphConfig> {
        self.ggml_config
    }

    /// The graph kept from the last chunk.
    pub closed spec fn reuse(self) -> Option<XasrFullEncoderReusableGraph> {
        self.full_encoder_reuse
    }

    /// Metadata and weights belong together, a graph backend is configured, and
    /// a kept graph is that of this encoder.
    pub open spec fn wf(self) -> bool {
        &&& validation_refusal(self.spec_metadata(), self.spec_weights()) is None
        &&& self.spec_config() is None <==> self.spec_backend()
            == XasrEncoderGraphBackend::Reference
        &&& self.reuse() is Some ==> (self.reuse()->0).built_for(
            self.spec_metadata(),
            self.spec_weights(),
        )
    }

    /// Every layer has a norm scale, and the layers can be counted.
    pub open spec fn complete(self) -> bool {
        &&& runtime_contract::total(self.spec_metadata().num_encoder_layers@) <= usize::MAX
        &&& forall|s: int|
            0 <= s < self.spec_metadata().num_stacks ==> norms_present(
                #[trigger] self.spec_weights().stacks@[s],
            )
    }

    /// Only the kept graph differs.
    pub open spec fn same_encoder(self, other: Self) -> bool {
        &&& self.spec_metadata() == other.spec_metadata()
        &&& self.spec_weights() == other.spec_weights()
        &&& self.spec_backend() == other.spec_backend()
        &&& self.spec_config() == other.spec_config()
    }

    /// An encoder that is computed on the host.
    pub fn new_reference(
        metadata: XasrZipformerExecutionMetadata,
        weights: XasrEncoderWeights,
    ) -> (result: Result<Self, XasrEncoderGraphError>)
        ensures
            shape_outcome(result, validation_refusal(metadata, weights)),
            result is Ok ==> {
                &&& result->Ok_0.wf()
                &&& result->Ok_0.spec_metadata() == metadata
                &&& result->Ok_0.spec_weights() == weights
                &&& result->Ok_0.spec_backend() == XasrEncoderGraphBackend::Reference
                &&& result->Ok_0.spec_config() is None
                &&& result->Ok_0.reuse() is None
            },
    {
        validate_metadata_and_weights(&metadata, &weights)?;
        Ok(
            XasrZipformerEncoderGraph {
                metadata,
                weights,
                backend: XasrEncoderGraphBackend::Reference,
                ggml_config: None,
                full_encoder_reuse: None,
            },
        )
    }

    /// An encoder whose first stack is a graph.
    pub fn new_ggml_cpu_stack0(
        metadata: XasrZipformerExecutionMetadata,
        weights: XasrEncoderWeights,
        config: GgmlCpuGraphConfig,
    ) -> (result: Result<Self, XasrEncoderGraphError>)
        ensures
            shape_outcome(result, validation_refusal(metadata, weights)),
            result is Ok ==> {
                &&& result->Ok_0.wf()
                &&& result->Ok_0.spec_metadata() == metadata
                &&& result->Ok_0.spec_weights() == weights
                &&& result->Ok_0.spec_backend() == XasrEncoderGraphBackend::GgmlCpuStack0
                &&& result->Ok_0.spec_config() == Some(config)
                &&& result->Ok_0.reuse() is None
            },
    {
        validate_metadata_and_weights(&metadata, &weights)?;
        Ok(
            XasrZipformerEncoderGraph {
                metadata,
                weights,
                backend: XasrEncoderGraphBackend::GgmlCpuStack0,
                ggml_config: Some(config),
                full_encoder_reuse: None,
            },
        )
    }

    /// An encoder that is one graph.
    pub fn new_ggml_cpu_full_encoder(
        metadata: XasrZipformerExecutionMetadata,
        weights: XasrEncoderWeights,
        config: GgmlCpuGraphConfig,
    ) -> (result: Result<Self, XasrEncoderGraphError>)
        ensures
            shape_outcome(result, validation_refusal(metadata, weights)),
            result is Ok ==> {
                &&& result->Ok_0.wf()
                &&& result->Ok_0.spec_metadata() == metadata
                &&& result->Ok_0.spec_weights() == weights
                &&& result->Ok_0.spec_backend() == XasrEncoderGraphBackend::GgmlCpuFullEncoder
                &&& result->Ok_0.spec_config() == Some(config)
                &&& result->Ok_0.reuse() is None
            },
    {
        validate_metadata_and_weights(&metadata, &weights)?;
        Ok(
            XasrZipformerEncoderGraph {
                metadata,
                weights,
                backend: XasrEncoderGraphBackend::GgmlCpuFullEncoder,
                ggml_config: Some(config),
                full_encoder_reuse: None,
            },
        )
    }

    /// How the encoder is computed.
    pub fn backend(&self) -> (backend: XasrEncoderGraphBackend)
        ensures
            backend == self.spec_backend(),
    {
        self.backend
    }

    /// The dimensions of the model.
    pub fn metadata(&self) -> (metadata: &XasrZipformerExecutionMetadata)
        ensures
            *metadata == self.spec_metadata(),
    {
        &self.metadata
    }

    /// The weights of the model.
    pub fn weights(&self) -> (weights: &XasrEncoderWeights)
        ensures
            *weights == self.spec_weights(),
    {
        &self.weights
    }

    /// The configuration of the graph runners.
    pub fn config(&self) -> (config: Option<GgmlCpuGraphConfig>)
        ensures
            config == self.spec_config(),
    {
        self.ggml_config
    }

    /// The graph kept from the last chunk.
    pub fn reusable(&self) -> (reuse: Option<&XasrFullEncoderReusableGraph>)
        ensures
            reuse is Some <==> self.reuse() is Some,
            reuse is Some ==> *(reuse->0) == self.reuse()->0,
    {
        match &self.full_encoder_reuse {
            Some(reuse) => Some(reuse),
            None => None,
        }
    }

    /// Keeps a graph for the chunks to come.
    pub fn keep(&mut self, reuse: XasrFullEncoderReusableGraph)
        requires
            old(self).wf(),
            reuse.built_for(old(self).spec_metadata(), old(self).spec_weights()),
        ensures
            final(self).wf(),
            final(self).same_encoder(*old(self)),
            final(self).reuse() == Some(reuse),
    {
        self.full_encoder_reuse = Some(reuse);
    }

    /// Uploads a chunk into the kept graph.
    pub fn upload_chunk<O: FloatOps>(
        &mut self,
        ops: &O,
        rows: &[u32],
        caches: Option<&[XasrEncoderLayerCache]>,
    ) -> (result: Result<(), XasrEncoderGraphError>)
        requires
            old(self).wf(),
        ensures
            final(self).wf(),
            final(self).same_encoder(*old(self)),
            match old(self).reuse() {
                None => {
                    &&& result is Err
                    &&& result->Err_0.is_shape(
                        "GGML full encoder reusable graph was not initialized"@,
                    )
                    &&& final(self).reuse() is None
                },
                Some(before) => {
                    let after = final(self).reuse()->0;
                    &&& final(self).reuse() is Some
                    &&& shape_outcome(
                        result,
                        before.chunk_refusal(old(self).spec_weights(), caches_view(caches)),
                    )
                    &&& after.fits_chunk(before.frames, before.dim, before.valid_left_context)
                    &&& after.plan == before.plan
                    &&& after.input == before.input
                    &&& after.output_specs == before.output_specs
                    &&& after.static_uploaded
                    &&& partly_noted(before.graph, after.graph)
                    &&& result is Ok && (before.static_uploaded || float_ops::functional(ops))
                        ==> after.graph.pending() == before.chunk_uploads(
                        float_ops::model(ops),
                        old(self).spec_weights(),
                        rows@,
                        caches_view(caches),
                    )
                },
            },
    {
        match &mut self.full_encoder_reuse {
            Some(reuse) => reuse.upload_chunk(ops, &self.metadata, &self.weights, rows, caches),
            None => Err(shape_error("GGML full encoder reusable graph was not initialized")),
        }
    }

    /// Takes the effects that wait for the kept graph to be run.
    pub fn clear_effects(&mut self)
        requires
            old(self).wf(),
        ensures
            final(self).wf(),
            final(self).same_encoder(*old(self)),
            final(self).reuse() is Some <==> old(self).reuse() is Some,
            old(self).reuse() is Some ==> {
                let before = old(self).reuse()->0;
                let after = final(self).reuse()->0;
                &&& after.fits_chunk(before.frames, before.dim, before.valid_left_context)
                &&& after.plan == before.plan
                &&& after.input == before.input
                &&& after.output_specs == before.output_specs
                &&& after.static_uploaded == before.static_uploaded
                &&& after.graph@ == before.graph@
                &&& after.graph.recorded() == before.graph.recorded()
                &&& after.graph.pending().len() == 0
            },
    {
        match &mut self.full_encoder_reuse {
            Some(reuse) => {
                let ghost before = *reuse;
                reuse.graph.clear_effects();
                proof {
                    lemma_plan_built_in_grown(
                        before.task(self.metadata, self.weights),
                        before.graph,
                        reuse.graph,
                        before.plan,
                        input_value(before.input, before.frames, before.dim),
                    );
                }
            },
            None => {},
        }
    }

    /// Why the first stack cannot be used.
    pub open spec fn stack0_refusal(self) -> Option<Seq<char>> {
        let stack = self.spec_weights().stacks@[0];
        if self.spec_weights().stacks@.len() == 0 {
            Some("encoder weights do not include stack0"@)
        } else if stack.stack != 0 || stack.downsampling_factor != 1 {
            Some(
                "stack0 contract drift: stack="@ + decimal(stack.stack as nat)
                    + ", downsampling_factor="@ + decimal(stack.downsampling_factor as nat),
            )
        } else {
            None
        }
    }

    /// The first stack, which keeps the frame rate.
    pub fn stack0(&self) -> (result: Result<&XasrEncoderStackWeights, XasrEncoderGraphError>)
        ensures
            shape_outcome(result, self.stack0_refusal()),
            result is Ok ==> *(result->Ok_0) == self.spec_weights().stacks@[0],
    {
        if self.weights.stacks.len() == 0 {
            return Err(shape_error("encoder weights do not include stack0"));
        }
        let stack = &self.weights.stacks[0];
        if stack.stack != 0 || stack.downsampling_factor != 1 {
            let mut reason = text::copy_text("stack0 contract drift: stack=");
            text::push_number(&mut reason, stack.stack);
            reason.append(", downsampling_factor=");
            text::push_number(&mut reason, stack.downsampling_factor);
            return Err(XasrEncoderGraphError::Shape { reason });
        }
        Ok(stack)
    }

    /// Why features are not those of the model.
    pub open spec fn features_refusal(self, input: XasrEncoderFeatureInput) -> Option<Seq<char>> {
        if input.feature_dim != self.spec_metadata().feature_dim {
            Some(
                "feature_dim "@ + decimal(input.feature_dim as nat) + " does not match metadata "@
                    + decimal(self.spec_metadata().feature_dim as nat),
            )
        } else {
            None
        }
    }

    /// Checks that features are those of the model.
    pub fn check_features(&self, input: &XasrEncoderFeatureInput) -> (result: Result<
        (),
        XasrEncoderGraphError,
    >)
        ensures
            shape_outcome(result, self.features_refusal(*input)),
    {
        if input.feature_dim != self.metadata.feature_dim {
            let mut reason = text::copy_text("feature_dim ");
            text::push_number(&mut reason, input.feature_dim);
            reason.append(" does not match metadata ");
            text::push_number(&mut reason, self.metadata.feature_dim);
            return Err(XasrEncoderGraphError::Shape { reason });
        }
        Ok(())
    }

    /// Why a chunk of features cannot be encoded.
    pub open spec fn chunk_input_refusal(
        self,
        input: XasrEncoderFeatureInput,
    ) -> Option<Seq<char>> {
        if self.spec_backend() != XasrEncoderGraphBackend::GgmlCpuFullEncoder {
            Some("streaming chunk execution requires GgmlCpuFullEncoder backend"@)
        } else {
            self.features_refusal(input)
        }
    }

    /// Checks that a chunk of features can be encoded.
    pub fn check_chunk_input(&self, input: &XasrEncoderFeatureInput) -> (result: Result<
        (),
        XasrEncoderGraphError,
    >)
        ensures
            shape_outcome(result, self.chunk_input_refusal(*input)),
    {
        match self.backend {
            XasrEncoderGraphBackend::GgmlCpuFullEncoder => {},
            _ => return Err(
                shape_error("streaming chunk execution requires GgmlCpuFullEncoder backend"),
            ),
        }
        self.check_features(input)
    }
}

} // verus!
