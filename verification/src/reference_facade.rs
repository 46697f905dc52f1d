//! Encoding on the host, and where a graph takes over.

use vstd::prelude::*;
use vstd::string::StringExecFns;
use crate::encoder_error::{of_shape, outcome, Refusal, XasrEncoderGraphError};
use crate::encoder_graph::{XasrEncoderGraphBackend, XasrZipformerEncoderGraph};
use crate::encoder_rows::{XasrEncoderFeatureInput, XasrEncoderGraphOutput};
use crate::encoder_weights::XasrEncoderStackWeights;
use crate::float_ops;
use crate::float_ops::{FloatModel, FloatOps};
use crate::layer_graph::ceil_div;
use crate::reference_embedding::{
    embed_values, embedding_can_run, encode_embed_reference, subsampled_h, EmbedValues,
    XasrEncoderEmbedReferenceOutput, FEATURE_DIM,
};
use crate::reference_encoder::{
    layers_values, run_layers, stack0_layer_refusal, tail_can_run, tail_values, trunk_frames,
};
use crate::reference_layer::layer_can_run;
use crate::runtime_contract::largest;
use crate::text;

verus! {

/// Where an encoder stands.
#[derive(Debug)]
pub enum EncodeStep {
    /// The rows have been encoded.
    Done(XasrEncoderGraphOutput),
    /// A graph is to encode the rows.
    Graph,
}

/// Where an encoder of features stands.
#[derive(Debug)]
pub enum FeatureStep {
    /// The features have been encoded.
    Done(XasrEncoderGraphOutput),
    /// A graph is to encode these rows.
    Graph(XasrEncoderEmbedReferenceOutput),
}

impl XasrZipformerEncoderGraph {
    /// The layers of the first stack can run on this many rows.
    pub open spec fn stack0_can_run(self, frames: usize, dim: usize) -> bool {
        let layers = self.spec_weights().stacks@[0].layers@;
        &&& dim > 0
        &&& forall|i: int|
            0 <= i < layers.len() ==> layer_can_run(
                #[trigger] layers[i],
                frames,
                dim,
                self.spec_metadata().num_heads@[0],
                self.spec_metadata().query_head_dims@[0],
                self.spec_metadata().left_context_len@[0],
            )
    }

    /// What the first stack gives, or why it fails.
    pub open spec fn stack0_values(
        self,
        m: FloatModel,
        rows: Seq<u32>,
        frames: usize,
        dim: usize,
        valid_left_context: usize,
    ) -> Result<Seq<u32>, Refusal> {
        let refusal = self.stack0_input_refusal(
            rows.len() as int,
            frames,
            dim,
            valid_left_context,
        );
        let layers = self.spec_weights().stacks@[0].layers@;
        if refusal is Some {
            Err(Refusal::Shape { reason: refusal->0 })
        } else {
            match layers_values(
                m,
                layers,
                rows,
                frames,
                dim,
                self.spec_metadata().num_heads@[0],
                self.spec_metadata().query_head_dims@[0],
                self.spec_metadata().left_context_len@[0],
                valid_left_context,
                layers.len() as int,
            ) {
                Err(failure) => Err(stack0_layer_refusal(failure.0, failure.1)),
                Ok(values) => Ok(values),
            }
        }
    }

    /// Takes rows through the layers of the first stack.
    #[verifier::spinoff_prover]
    fn encode_stack0_from_embed_rows_reference<O: FloatOps>(
        &self,
        ops: &O,
        stack: &XasrEncoderStackWeights,
        rows: &[u32],
        frames: usize,
        dim: usize,
        valid_left_context: usize,
    ) -> (result: Result<XasrEncoderGraphOutput, XasrEncoderGraphError>)
        requires
            self.wf(),
            float_ops::sized(ops),
            *stack == self.spec_weights().stacks@[0],
            rows@.len() == frames * dim,
            self.stack0_can_run(frames, dim),
            self.stack0_input_refusal(
                rows@.len() as int,
                frames,
                dim,
                valid_left_context,
            ) is None,
        ensures
            result is Ok ==> {
                &&& result->Ok_0.frames == frames
                &&& result->Ok_0.dim == dim
                &&& result->Ok_0.rows@.len() == frames * dim
            },
            float_ops::functional(ops) ==> match self.stack0_values(
                float_ops::model(ops),
                rows@,
                frames,
                dim,
                valid_left_context,
            ) {
                Ok(values) => result is Ok && result->Ok_0.rows@ == values,
                Err(refusal) => result is Err && result->Err_0.is(refusal),
            },
    {
        let metadata = self.metadata();
        match run_layers(
            ops,
            &stack.layers,
            rows,
            frames,
            dim,
            metadata.num_heads[0],
            metadata.query_head_dims[0],
            metadata.left_context_len[0],
            valid_left_context,
        ) {
            Ok(state) => Ok(XasrEncoderGraphOutput { frames, dim, rows: state }),
            Err(failure) => {
                let (layer, why) = failure;
                let mut reason = text::copy_text("layer ");
                text::push_number(&mut reason, layer);
                reason.append(": ");
                reason.append(why.as_str());
                Err(XasrEncoderGraphError::Reference { stage: "stack0_layer", reason })
            },
        }
    }

    /// Takes rows through the first stack, or leaves them to a graph.
    #[verifier::spinoff_prover]
    pub fn encode_stack0_from_embed_rows<O: FloatOps>(
        &self,
        ops: &O,
        rows: &[u32],
        frames: usize,
        dim: usize,
        valid_left_context: usize,
    ) -> (result: Result<EncodeStep, XasrEncoderGraphError>)
        requires
            self.wf(),
            float_ops::sized(ops),
            self.spec_backend() == XasrEncoderGraphBackend::Reference
                && self.stack0_input_refusal(
                rows@.len() as int,
                frames,
                dim,
                valid_left_context,
            ) is None ==> self.stack0_can_run(frames, dim),
        ensures
            self.stack0_input_refusal(
                rows@.len() as int,
                frames,
                dim,
                valid_left_context,
            ) is Some ==> outcome(
                result,
                of_shape(
                    self.stack0_input_refusal(
                        rows@.len() as int,
                        frames,
                        dim,
                        valid_left_context,
                    ),
                ),
            ),
            self.spec_backend() != XasrEncoderGraphBackend::Reference && self.stack0_input_refusal(
                rows@.len() as int,
                frames,
                dim,
                valid_left_context,
            ) is None ==> result == Ok::<EncodeStep, XasrEncoderGraphError>(EncodeStep::Graph),
            self.spec_backend() == XasrEncoderGraphBackend::Reference && result is Ok ==> {
                &&& result->Ok_0 matches EncodeStep::Done(output)
                &&& output.frames == frames
                &&& output.dim == dim
                &&& output.rows@.len() == frames * dim
            },
            self.spec_backend() == XasrEncoderGraphBackend::Reference && float_ops::functional(ops)
                ==> match self.stack0_values(
                float_ops::model(ops),
                rows@,
                frames,
                dim,
                valid_left_context,
            ) {
                Ok(values) => result matches Ok(EncodeStep::Done(output)) && output.rows@ == values,
                Err(refusal) => result is Err && result->Err_0.is(refusal),
            },
    {
        self.check_stack0_input(rows, frames, dim, valid_left_context)?;
        match self.backend() {
            XasrEncoderGraphBackend::Reference => {
                let stack = &self.weights().stacks[0];
                match self.encode_stack0_from_embed_rows_reference(
                    ops,
                    stack,
                    rows,
                    frames,
                    dim,
                    valid_left_context,
                ) {
                    Ok(output) => Ok(EncodeStep::Done(output)),
                    Err(error) => Err(error),
                }
            },
            _ => Ok(EncodeStep::Graph),
        }
    }

    /// What the encoder gives of embedded rows, or why it fails.
    pub open spec fn encoded_rows(
        self,
        m: FloatModel,
        rows: Seq<u32>,
        frames: usize,
        dim: usize,
        valid_left_context: usize,
    ) -> Result<Seq<u32>, Refusal> {
        match self.stack0_values(m, rows, frames, dim, valid_left_context) {
            Err(refusal) => Err(refusal),
            Ok(values) => tail_values(
                m,
                self.spec_metadata(),
                self.spec_weights(),
                values,
                frames,
                dim,
                valid_left_context,
            ),
        }
    }

    /// The number of rows that the encoder makes of `frames` embedded rows.
    pub open spec fn encoded_frames(self, frames: usize) -> int {
        ceil_div(
            trunk_frames(
                self.spec_weights(),
                frames as int,
                self.spec_metadata().num_stacks as int,
            ),
            self.spec_weights().downsample_output_bias@.len() as int,
        )
    }

    /// The width of the rows that the encoder gives.
    pub open spec fn encoded_dim(self) -> usize {
        largest(self.spec_metadata().encoder_dims@)
    }

    /// The encoder can run on this many rows.
    pub open spec fn can_encode(self, frames: usize, dim: usize) -> bool {
        &&& self.stack0_can_run(frames, dim)
        &&& tail_can_run(self.spec_metadata(), self.spec_weights(), frames, dim)
    }

    /// Why rows are not left to a graph.  A graph of the whole encoder checks
    /// its rows itself.
    pub open spec fn graph_rows_refusal(
        self,
        count: int,
        frames: usize,
        dim: usize,
        valid_left_context: usize,
    ) -> Option<Seq<char>> {
        if self.spec_backend() == XasrEncoderGraphBackend::GgmlCpuFullEncoder {
            None
        } else {
            self.stack0_input_refusal(count, frames, dim, valid_left_context)
        }
    }

    /// Encodes embedded rows, or leaves them to a graph.
    #[verifier::spinoff_prover]
    pub fn encode_from_embed_rows<O: FloatOps>(
        &self,
        ops: &O,
        rows: &[u32],
        frames: usize,
        dim: usize,
        valid_left_context: usize,
    ) -> (result: Result<EncodeStep, XasrEncoderGraphError>)
        requires
            self.wf(),
            float_ops::sized(ops),
            self.spec_backend() == XasrEncoderGraphBackend::Reference
                && self.stack0_input_refusal(
                rows@.len() as int,
                frames,
                dim,
                valid_left_context,
            ) is None ==> self.can_encode(frames, dim),
        ensures
            self.spec_backend() != XasrEncoderGraphBackend::Reference ==> match self.graph_rows_refusal(
                rows@.len() as int,
                frames,
                dim,
                valid_left_context,
            ) {
                Some(reason) => result is Err && result->Err_0.is_shape(reason),
                None => result == Ok::<EncodeStep, XasrEncoderGraphError>(EncodeStep::Graph),
            },
            self.spec_backend() == XasrEncoderGraphBackend::Reference && result is Ok ==> {
                &&& result->Ok_0 matches EncodeStep::Done(output)
                &&& output.frames == self.encoded_frames(frames)
                &&& output.dim == self.encoded_dim()
                &&& output.rows@.len() == output.frames * output.dim
            },
            self.spec_backend() == XasrEncoderGraphBackend::Reference && float_ops::functional(ops)
                ==> match self.encoded_rows(
                float_ops::model(ops),
                rows@,
                frames,
                dim,
                valid_left_context,
            ) {
                Ok(values) => result matches Ok(EncodeStep::Done(output)) && output.rows@ == values,
                Err(refusal) => result is Err && result->Err_0.is(refusal),
            },
    {
        match self.backend() {
            XasrEncoderGraphBackend::GgmlCpuFullEncoder => return Ok(EncodeStep::Graph),
            _ => {},
        }
        match self.encode_stack0_from_embed_rows(ops, rows, frames, dim, valid_left_context) {
            Err(error) => Err(error),
            Ok(EncodeStep::Graph) => Ok(EncodeStep::Graph),
            Ok(EncodeStep::Done(stack0)) => match self.encode_multiscale_tail_from_stack0_rows(
                ops,
                stack0.rows.as_slice(),
                stack0.frames,
                stack0.dim,
                valid_left_context,
            ) {
                Ok(output) => Ok(EncodeStep::Done(output)),
                Err(error) => Err(error),
            },
        }
    }

    /// The embedded features, or why there are none.
    pub open spec fn embedded_features(
        self,
        m: FloatModel,
        input: XasrEncoderFeatureInput,
    ) -> Result<
        EmbedValues,
        Refusal,
    > {
        if self.features_refusal(input) is Some {
            Err(Refusal::Shape { reason: self.features_refusal(input)->0 })
        } else {
            match embed_values(
                m,
                self.spec_weights().embed,
                input.rows@,
                input.frames,
                input.feature_dim,
                None,
            ) {
                Err(reason) => Err(Refusal::Reference { stage: "encoder_embed"@, reason }),
                Ok(values) => Ok(values),
            }
        }
    }

    /// The number of rows that features are embedded to.
    pub open spec fn embedded_frames(self, frames: usize) -> usize {
        (subsampled_h(self.spec_weights().embed, frames as int) - 3) as usize
    }

    /// Embeds features on the host.
    #[verifier::spinoff_prover]
    pub fn embed_features<O: FloatOps>(
        &self,
        ops: &O,
        input: &XasrEncoderFeatureInput,
    ) -> (result: Result<
        XasrEncoderEmbedReferenceOutput,
        XasrEncoderGraphError,
    >)
        requires
            float_ops::sized(ops),
            input.feature_dim == FEATURE_DIM ==> embedding_can_run(
                self.spec_weights().embed,
                input.frames,
            ),
        ensures
            self.features_refusal(*input) is Some ==> outcome(
                result,
                of_shape(self.features_refusal(*input)),
            ),
            result is Ok ==> {
                let output = result->Ok_0;
                &&& output.dim == self.spec_weights().embed.out.weight.output_dim
                &&& output.frames == self.embedded_frames(input.frames)
                &&& output.rows@.len() == output.frames * output.dim
            },
            float_ops::functional(ops) ==> match self.embedded_features(
                float_ops::model(ops),
                *input,
            ) {
                Ok(values) => {
                    &&& result is Ok
                    &&& result->Ok_0.rows@ == values.rows
                    &&& result->Ok_0.new_embed_states@ == values.states
                },
                Err(refusal) => result is Err && result->Err_0.is(refusal),
            },
    {
        self.check_features(input)?;
        match encode_embed_reference(
            ops,
            &self.weights().embed,
            input.rows.as_slice(),
            input.frames,
            input.feature_dim,
            None,
        ) {
            Ok(embed) => Ok(embed),
            Err(reason) => Err(
                XasrEncoderGraphError::Reference { stage: "encoder_embed", reason },
            ),
        }
    }

    /// Features can be embedded, and the rows can enter the first stack.
    pub open spec fn can_encode_features(self, frames: usize, feature_dim: usize) -> bool {
        &&& feature_dim == FEATURE_DIM ==> embedding_can_run(self.spec_weights().embed, frames)
        &&& self.spec_backend() == XasrEncoderGraphBackend::Reference ==> self.can_encode(
            self.embedded_frames(frames),
            self.spec_weights().embed.out.weight.output_dim,
        )
    }

    /// Embeds features, and takes the rows through the first stack or leaves
    /// them to a graph.
    #[verifier::spinoff_prover]
    pub fn encode_stack0_from_features<O: FloatOps>(
        &self,
        ops: &O,
        input: &XasrEncoderFeatureInput,
    ) -> (result: Result<FeatureStep, XasrEncoderGraphError>)
        requires
            self.wf(),
            float_ops::sized(ops),
            self.can_encode_features(input.frames, input.feature_dim),
        ensures
            self.features_refusal(*input) is Some ==> outcome(
                result,
                of_shape(self.features_refusal(*input)),
            ),
            result is Ok ==> match result->Ok_0 {
                FeatureStep::Done(output) => {
                    &&& self.spec_backend() == XasrEncoderGraphBackend::Reference
                    &&& output.frames == self.embedded_frames(input.frames)
                    &&& output.dim == self.spec_weights().embed.out.weight.output_dim
                    &&& output.rows@.len() == output.frames * output.dim
                },
                FeatureStep::Graph(output) => {
                    &&& self.spec_backend() != XasrEncoderGraphBackend::Reference
                    &&& output.frames == self.embedded_frames(input.frames)
                    &&& output.dim == self.spec_weights().embed.out.weight.output_dim
                    &&& output.rows@.len() == output.frames * output.dim
                },
            },
            float_ops::functional(ops) ==> match self.embedded_features(
                float_ops::model(ops),
                *input,
            ) {
                Err(refusal) => result is Err && result->Err_0.is(refusal),
                Ok(embed) => {
                    let frames = self.embedded_frames(input.frames);
                    let dim = self.spec_weights().embed.out.weight.output_dim;
                    if self.spec_backend() == XasrEncoderGraphBackend::Reference {
                        match self.stack0_values(
                            float_ops::model(ops),
                            embed.rows,
                            frames,
                            dim,
                            input.frames,
                        ) {
                            Ok(values) => result matches Ok(FeatureStep::Done(output))
                                && output.rows@ == values,
                            Err(refusal) => result is Err && result->Err_0.is(refusal),
                        }
                    } else {
                        match self.stack0_input_refusal(
                            embed.rows.len() as int,
                            frames,
                            dim,
                            input.frames,
                        ) {
                            Some(reason) => result is Err && result->Err_0.is_shape(reason),
                            None => result matches Ok(FeatureStep::Graph(output)) && output.rows@
                                == embed.rows && output.new_embed_states@ == embed.states,
                        }
                    }
                },
            },
    {
        let embed = self.embed_features(ops, input)?;
        match self.encode_stack0_from_embed_rows(
            ops,
            embed.rows.as_slice(),
            embed.frames,
            embed.dim,
            input.frames,
        ) {
            Err(error) => Err(error),
            Ok(EncodeStep::Done(output)) => Ok(FeatureStep::Done(output)),
            Ok(EncodeStep::Graph) => Ok(FeatureStep::Graph(embed)),
        }
    }

    /// Embeds features, and encodes the rows or leaves them to a graph.
    #[verifier::spinoff_prover]
    pub fn encode_from_features<O: FloatOps>(
        &self,
        ops: &O,
        input: &XasrEncoderFeatureInput,
    ) -> (result: Result<FeatureStep, XasrEncoderGraphError>)
        requires
            self.wf(),
            float_ops::sized(ops),
            self.can_encode_features(input.frames, input.feature_dim),
        ensures
            self.features_refusal(*input) is Some ==> outcome(
                result,
                of_shape(self.features_refusal(*input)),
            ),
            result is Ok ==> match result->Ok_0 {
                FeatureStep::Done(output) => {
                    &&& self.spec_backend() == XasrEncoderGraphBackend::Reference
                    &&& output.frames == self.encoded_frames(self.embedded_frames(input.frames))
                    &&& output.dim == self.encoded_dim()
                    &&& output.rows@.len() == output.frames * output.dim
                },
                FeatureStep::Graph(output) => {
                    &&& self.spec_backend() != XasrEncoderGraphBackend::Reference
                    &&& output.frames == self.embedded_frames(input.frames)
                    &&& output.dim == self.spec_weights().embed.out.weight.output_dim
                    &&& output.rows@.len() == output.frames * output.dim
                },
            },
            float_ops::functional(ops) ==> match self.embedded_features(
                float_ops::model(ops),
                *input,
            ) {
                Err(refusal) => result is Err && result->Err_0.is(refusal),
                Ok(embed) => {
                    let frames = self.embedded_frames(input.frames);
                    let dim = self.spec_weights().embed.out.weight.output_dim;
                    if self.spec_backend() == XasrEncoderGraphBackend::Reference {
                        match self.encoded_rows(
                            float_ops::model(ops),
                            embed.rows,
                            frames,
                            dim,
                            input.frames,
                        ) {
                            Ok(values) => result matches Ok(FeatureStep::Done(output))
                                && output.rows@ == values,
                            Err(refusal) => result is Err && result->Err_0.is(refusal),
                        }
                    } else {
                        match self.graph_rows_refusal(
                            embed.rows.len() as int,
                            frames,
                            dim,
                            input.frames,
                        ) {
                            Some(reason) => result is Err && result->Err_0.is_shape(reason),
                            None => result matches Ok(FeatureStep::Graph(output)) && output.rows@
                                == embed.rows && output.new_embed_states@ == embed.states,
                        }
                    }
                },
            },
    {
        let embed = self.embed_features(ops, input)?;
        match self.encode_from_embed_rows(
            ops,
            embed.rows.as_slice(),
            embed.frames,
            embed.dim,
            input.frames,
        ) {
            Err(error) => Err(error),
            Ok(EncodeStep::Done(output)) => Ok(FeatureStep::Done(output)),
            Ok(EncodeStep::Graph) => Ok(FeatureStep::Graph(embed)),
        }
    }
}

} // verus!
