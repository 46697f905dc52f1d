//! The predictor and joiner as graphs on a device.
//!
//! Token ids, one encoder frame, the chosen token and its probability cross the
//! boundary of the device; weights and projections stay on it, the weights in the type
//! in which they are stored.  The three graphs share these tensors.

use vstd::prelude::*;
use vstd::string::StringExecFns;
use crate::bits;
use crate::bits::{ONE_BITS, ZERO_BITS};
use crate::decoder::text_outcome;
use crate::encoder_binding::{float_leaf, handle};
use crate::encoder_upload::floats;
use crate::graph::{
    nodes_extend, EffectView, GgmlCpuGraphBuilder, GgmlCpuTensor, GraphNode, LeafType,
};
use crate::layer_values::linear;
use crate::package_names::{compact_xasr_name, compacted};
use crate::rows;
use crate::rows::zero_seq;
use crate::tensor_value::{Shape4, TensorValue};
use crate::text;
use crate::text::{bracketed, decimal};

verus! {

pub const ENCODER_PROJECTION_GRAPH_SIZE: usize = 32;

pub const DECODER_PROJECTION_GRAPH_SIZE: usize = 64;

pub const JOINT_GRAPH_SIZE: usize = 32;

/// Tensors that stay on the device: eight weights and two projections.
pub const STATIC_TENSOR_COUNT: usize = 10;

/// A stored tensor of a pack: its dimensions and element type.
#[derive(Debug)]
pub struct HeadPayload {
    pub name: String,
    pub dims: Vec<usize>,
    pub ggml_type: u32,
    pub bytes: Vec<u8>,
}

/// The stored tensors of the predictor and joiner.
#[derive(Debug)]
pub struct HeadPayloads {
    pub decoder_embedding: HeadPayload,
    pub decoder_conv: HeadPayload,
    pub encoder_proj_weight: HeadPayload,
    pub encoder_proj_bias: HeadPayload,
    pub decoder_proj_weight: HeadPayload,
    pub decoder_proj_bias: HeadPayload,
    pub output_weight: HeadPayload,
    pub output_bias: HeadPayload,
}

/// The tensors that stay on the device.
#[derive(Clone, Copy, Debug)]
pub struct HeadWeights {
    pub decoder_embedding: GgmlCpuTensor,
    pub decoder_conv: GgmlCpuTensor,
    pub encoder_proj_weight: GgmlCpuTensor,
    pub encoder_proj_bias: GgmlCpuTensor,
    pub decoder_proj_weight: GgmlCpuTensor,
    pub decoder_proj_bias: GgmlCpuTensor,
    pub output_weight: GgmlCpuTensor,
    pub output_bias: GgmlCpuTensor,
    pub encoder_projection: GgmlCpuTensor,
    pub decoder_projection: GgmlCpuTensor,
}

/// A pack, asked for the stored tensors of the head by the names under which it holds
/// them, and for what the model asks of their dimensions.
pub trait HeadSource {
    /// Whether the model has a tensor of this name.
    fn expects(&self, name: &String) -> bool;

    /// The stored tensor of this name.
    fn payload(&self, name: &String) -> Result<HeadPayload, String>;

    /// Whether the tensor of this name may have these dimensions.
    fn matches(&self, name: &String, dims: &Vec<usize>) -> bool;

    /// Which dimensions the tensor of this name should have, in words.
    fn describe(&self, name: &String) -> String;
}

/// The pack holds this tensor under the compacted name, and it is what the model asks
/// for.
pub open spec fn payload_from<S: HeadSource>(
    source: &S,
    upstream_name: Seq<char>,
    payload: HeadPayload,
) -> bool {
    exists|asked: &String|
        asked@ == compacted(upstream_name) && call_ensures(S::expects, (source, asked), true)
            && #[trigger] call_ensures(
            S::payload,
            (source, asked),
            Ok::<HeadPayload, String>(payload),
        ) && call_ensures(S::matches, (source, asked, &payload.dims), true)
}

/// The dimensions of a stored tensor are refused for this reason.
pub open spec fn dims_refused<S: HeadSource>(
    source: &S,
    asked: &String,
    payload: HeadPayload,
    reason: Seq<char>,
) -> bool {
    &&& call_ensures(S::payload, (source, asked), Ok::<HeadPayload, String>(payload))
    &&& call_ensures(S::matches, (source, asked, &payload.dims), false)
    &&& exists|description: String|
        #[trigger] call_ensures(S::describe, (source, asked), description) && reason
            == "xasr device head tensor '"@ + asked@ + "' has dims "@ + bracketed(payload.dims@)
            + ": "@ + description@
}

/// Why a stored tensor is refused: the model has none of this name, the pack does not
/// give it, or its dimensions are others.
pub open spec fn payload_failed<S: HeadSource>(
    source: &S,
    upstream_name: Seq<char>,
    reason: Seq<char>,
) -> bool {
    exists|asked: &String|
        #![trigger asked@]
        asked@ == compacted(upstream_name) && {
            ||| call_ensures(S::expects, (source, asked), false) && reason == "tensor '"@ + asked@
                + "' is not part of the xasr-zipformer runtime contract"@
            ||| exists|error: String|
                error@ == reason && call_ensures(S::expects, (source, asked), true)
                    && #[trigger] call_ensures(
                    S::payload,
                    (source, asked),
                    Err::<HeadPayload, String>(error),
                )
            ||| call_ensures(S::expects, (source, asked), true) && exists|payload: HeadPayload|
                #[trigger] dims_refused(source, asked, payload, reason)
        }
}

/// The stored tensor under the compacted name, checked.
pub fn checked_payload<S: HeadSource>(source: &S, upstream_name: &str) -> (result: Result<
    HeadPayload,
    String,
>)
    ensures
        match result {
            Ok(payload) => payload_from(source, upstream_name@, payload),
            Err(reason) => payload_failed(source, upstream_name@, reason@),
        },
{
    let name = compact_xasr_name(upstream_name);
    let ghost asked = &name;
    assert(asked@ == compacted(upstream_name@));
    let expected = source.expects(&name);
    assert(call_ensures(S::expects, (source, &name), expected));
    if !expected {
        let mut reason = text::copy_text("tensor '");
        reason.append(name.as_str());
        reason.append("' is not part of the xasr-zipformer runtime contract");
        return Err(reason);
    }
    let found = source.payload(&name);
    assert(call_ensures(S::payload, (source, &name), found));
    let payload = match found {
        Ok(payload) => payload,
        Err(error) => return Err(error),
    };
    let fits = source.matches(&name, &payload.dims);
    assert(call_ensures(S::matches, (source, &name, &payload.dims), fits));
    if !fits {
        let description = source.describe(&name);
        assert(call_ensures(S::describe, (source, &name), description));
        let mut reason = text::copy_text("xasr device head tensor '");
        reason.append(name.as_str());
        reason.append("' has dims ");
        text::push_bracketed(&mut reason, payload.dims.as_slice());
        reason.append(": ");
        reason.append(description.as_str());
        assert(dims_refused(source, asked, payload, reason@));
        return Err(reason);
    }
    Ok(payload)
}

/// The stored tensors of the predictor and joiner, each under its name.
pub open spec fn payloads_from<S: HeadSource>(source: &S, payloads: HeadPayloads) -> bool {
    &&& payload_from(source, "decoder.embedding.weight"@, payloads.decoder_embedding)
    &&& payload_from(source, "decoder.conv.weight"@, payloads.decoder_conv)
    &&& payload_from(source, "joiner.encoder_proj.weight"@, payloads.encoder_proj_weight)
    &&& payload_from(source, "joiner.encoder_proj.bias"@, payloads.encoder_proj_bias)
    &&& payload_from(source, "joiner.decoder_proj.weight"@, payloads.decoder_proj_weight)
    &&& payload_from(source, "joiner.decoder_proj.bias"@, payloads.decoder_proj_bias)
    &&& payload_from(source, "joiner.output_linear.weight"@, payloads.output_weight)
    &&& payload_from(source, "joiner.output_linear.bias"@, payloads.output_bias)
}

/// The pack gives a tensor under the compacted name, and it is what the model asks for.
pub open spec fn payload_given<S: HeadSource>(source: &S, upstream_name: Seq<char>) -> bool {
    exists|payload: HeadPayload| #[trigger] payload_from(source, upstream_name, payload)
}

/// Why the stored tensors are not loaded: the first that is not given is refused.
pub open spec fn payloads_failed<S: HeadSource>(source: &S, reason: Seq<char>) -> bool {
    ||| payload_failed(source, "decoder.embedding.weight"@, reason)
    ||| payload_given(source, "decoder.embedding.weight"@) && {
        ||| payload_failed(source, "decoder.conv.weight"@, reason)
        ||| payload_given(source, "decoder.conv.weight"@) && {
            ||| payload_failed(source, "joiner.encoder_proj.weight"@, reason)
            ||| payload_given(source, "joiner.encoder_proj.weight"@) && {
                ||| payload_failed(source, "joiner.encoder_proj.bias"@, reason)
                ||| payload_given(source, "joiner.encoder_proj.bias"@) && {
                    ||| payload_failed(source, "joiner.decoder_proj.weight"@, reason)
                    ||| payload_given(source, "joiner.decoder_proj.weight"@) && {
                        ||| payload_failed(source, "joiner.decoder_proj.bias"@, reason)
                        ||| payload_given(source, "joiner.decoder_proj.bias"@) && {
                            ||| payload_failed(source, "joiner.output_linear.weight"@, reason)
                            ||| payload_given(source, "joiner.output_linear.weight"@) && {
                                payload_failed(source, "joiner.output_linear.bias"@, reason)
                            }
                        }
                    }
                }
            }
        }
    }
}

/// Loads the stored tensors of the predictor and joiner.
pub fn load_head_payloads<S: HeadSource>(source: &S) -> (result: Result<HeadPayloads, String>)
    ensures
        match result {
            Ok(payloads) => payloads_from(source, payloads),
            Err(reason) => payloads_failed(source, reason@),
        },
{
    let decoder_embedding = checked_payload(source, "decoder.embedding.weight")?;
    let decoder_conv = checked_payload(source, "decoder.conv.weight")?;
    let encoder_proj_weight = checked_payload(source, "joiner.encoder_proj.weight")?;
    let encoder_proj_bias = checked_payload(source, "joiner.encoder_proj.bias")?;
    let decoder_proj_weight = checked_payload(source, "joiner.decoder_proj.weight")?;
    let decoder_proj_bias = checked_payload(source, "joiner.decoder_proj.bias")?;
    let output_weight = checked_payload(source, "joiner.output_linear.weight")?;
    let output_bias = checked_payload(source, "joiner.output_linear.bias")?;
    Ok(
        HeadPayloads {
            decoder_embedding,
            decoder_conv,
            encoder_proj_weight,
            encoder_proj_bias,
            decoder_proj_weight,
            decoder_proj_bias,
            output_weight,
            output_bias,
        },
    )
}

/// Dimensions padded with ones.
pub open spec fn padded_shape(dims: Seq<usize>) -> Shape4 {
    Shape4 {
        ne0: if dims.len() > 0 {
            dims[0]
        } else {
            1
        },
        ne1: if dims.len() > 1 {
            dims[1]
        } else {
            1
        },
        ne2: if dims.len() > 2 {
            dims[2]
        } else {
            1
        },
        ne3: if dims.len() > 3 {
            dims[3]
        } else {
            1
        },
    }
}

fn dim_at(dims: &Vec<usize>, i: usize) -> (dim: usize)
    ensures
        dim == (if i < dims@.len() {
            dims@[i as int]
        } else {
            1
        }),
{
    if i < dims.len() {
        dims[i]
    } else {
        1
    }
}

/// The leaf of a stored tensor: of its dimensions and its stored type.
pub open spec fn stored_node(payload: HeadPayload, name: &'static str) -> GraphNode {
    GraphNode::Leaf {
        shape: padded_shape(payload.dims@),
        leaf_type: LeafType::Stored { ggml_type: payload.ggml_type },
        name,
    }
}

/// Why no leaf can stand for a stored tensor.
pub open spec fn rank_refusal(payload: HeadPayload) -> Option<Seq<char>> {
    if payload.dims@.len() > 4 {
        Some("xasr device head tensor '"@ + payload.name@ + "' has more than four dims"@)
    } else {
        None
    }
}

/// A leaf that stands for a stored tensor.
pub fn stored_leaf(
    graph: &mut GgmlCpuGraphBuilder,
    payload: &HeadPayload,
    name: &'static str,
) -> (result: Result<GgmlCpuTensor, String>)
    ensures
        text_outcome(result, rank_refusal(*payload)),
        result is Err ==> *final(graph) == *old(graph),
        result is Ok ==> {
            &&& final(graph).recorded_after(
                *old(graph),
                result->Ok_0,
                TensorValue::leaf(old(graph)@.len() as int, padded_shape(payload.dims@)),
            )
            &&& final(graph).recorded() == old(graph).recorded().push(
                stored_node(*payload, name),
            )
            &&& final(graph).has_dense(result->Ok_0)
        },
{
    if payload.dims.len() > 4 {
        let mut reason = text::copy_text("xasr device head tensor '");
        reason.append(payload.name.as_str());
        reason.append("' has more than four dims");
        return Err(reason);
    }
    let shape = Shape4 {
        ne0: dim_at(&payload.dims, 0),
        ne1: dim_at(&payload.dims, 1),
        ne2: dim_at(&payload.dims, 2),
        ne3: dim_at(&payload.dims, 3),
    };
    Ok(graph.new_typed_leaf(shape, LeafType::Stored { ggml_type: payload.ggml_type }, name))
}

/// Why a stored tensor is no matrix.
pub open spec fn matrix_refusal(payload: HeadPayload) -> Option<Seq<char>> {
    if payload.dims@.len() != 2 {
        Some("xasr device head tensor '"@ + payload.name@ + "' must be rank 2"@)
    } else {
        None
    }
}

/// A leaf that stands for a stored matrix.
pub fn new_matmul_weight(
    graph: &mut GgmlCpuGraphBuilder,
    payload: &HeadPayload,
    name: &'static str,
) -> (result: Result<GgmlCpuTensor, String>)
    ensures
        text_outcome(result, matrix_refusal(*payload)),
        result is Err ==> *final(graph) == *old(graph),
        result is Ok ==> {
            &&& final(graph).recorded_after(
                *old(graph),
                result->Ok_0,
                TensorValue::leaf(old(graph)@.len() as int, padded_shape(payload.dims@)),
            )
            &&& final(graph).recorded() == old(graph).recorded().push(
                stored_node(*payload, name),
            )
            &&& final(graph).has_dense(result->Ok_0)
        },
{
    if payload.dims.len() != 2 {
        let mut reason = text::copy_text("xasr device head tensor '");
        reason.append(payload.name.as_str());
        reason.append("' must be rank 2");
        return Err(reason);
    }
    stored_leaf(graph, payload, name)
}

impl HeadPayloads {
    /// Why the tensors cannot be allocated: the first that has too many dimensions, or is no
    /// matrix where one is needed.
    pub open spec fn refusal(self) -> Option<Seq<char>> {
        if rank_refusal(self.decoder_embedding) is Some {
            rank_refusal(self.decoder_embedding)
        } else if rank_refusal(self.decoder_conv) is Some {
            rank_refusal(self.decoder_conv)
        } else if matrix_refusal(self.encoder_proj_weight) is Some {
            matrix_refusal(self.encoder_proj_weight)
        } else if rank_refusal(self.encoder_proj_bias) is Some {
            rank_refusal(self.encoder_proj_bias)
        } else if matrix_refusal(self.decoder_proj_weight) is Some {
            matrix_refusal(self.decoder_proj_weight)
        } else if rank_refusal(self.decoder_proj_bias) is Some {
            rank_refusal(self.decoder_proj_bias)
        } else if matrix_refusal(self.output_weight) is Some {
            matrix_refusal(self.output_weight)
        } else {
            rank_refusal(self.output_bias)
        }
    }
}

/// The operations that allocate the tensors that stay on the device.
pub open spec fn head_nodes(
    nodes: Seq<GraphNode>,
    payloads: HeadPayloads,
    joiner_dim: usize,
) -> Seq<GraphNode> {
    nodes.push(stored_node(payloads.decoder_embedding, "xasr_head_decoder_embedding")).push(
        stored_node(payloads.decoder_conv, "xasr_head_decoder_conv"),
    ).push(stored_node(payloads.encoder_proj_weight, "xasr_head_encoder_proj_weight")).push(
        stored_node(payloads.encoder_proj_bias, "xasr_head_encoder_proj_bias"),
    ).push(stored_node(payloads.decoder_proj_weight, "xasr_head_decoder_proj_weight")).push(
        stored_node(payloads.decoder_proj_bias, "xasr_head_decoder_proj_bias"),
    ).push(stored_node(payloads.output_weight, "xasr_head_output_weight")).push(
        stored_node(payloads.output_bias, "xasr_head_output_bias"),
    ).push(float_leaf(joiner_dim, 1, 1, 1, "xasr_head_encoder_projection")).push(
        float_leaf(joiner_dim, 1, 1, 1, "xasr_head_decoder_projection"),
    )
}

/// The handles of the tensors that stay on the device, allocated from `base` on.
pub open spec fn head_handles(base: int) -> HeadWeights {
    HeadWeights {
        decoder_embedding: handle(base, 0),
        decoder_conv: handle(base, 1),
        encoder_proj_weight: handle(base, 2),
        encoder_proj_bias: handle(base, 3),
        decoder_proj_weight: handle(base, 4),
        decoder_proj_bias: handle(base, 5),
        output_weight: handle(base, 6),
        output_bias: handle(base, 7),
        encoder_projection: handle(base, 8),
        decoder_projection: handle(base, 9),
    }
}

impl HeadWeights {
    /// The tensors belong to `graph`.
    pub open spec fn within(self, graph: GgmlCpuGraphBuilder) -> bool {
        &&& graph.has_dense(self.decoder_embedding)
        &&& graph.has_dense(self.decoder_conv)
        &&& graph.has_dense(self.encoder_proj_weight)
        &&& graph.has_dense(self.encoder_proj_bias)
        &&& graph.has_dense(self.decoder_proj_weight)
        &&& graph.has_dense(self.decoder_proj_bias)
        &&& graph.has_dense(self.output_weight)
        &&& graph.has_dense(self.output_bias)
        &&& graph.has_dense(self.encoder_projection)
        &&& graph.has_dense(self.decoder_projection)
    }
}

/// The upload of a stored tensor.
pub open spec fn stored_upload(
    tensor: GgmlCpuTensor,
    payload: HeadPayload,
    name: Seq<char>,
) -> EffectView {
    EffectView::UploadBytes {
        tensor: tensor.id as int,
        bytes: payload.bytes@,
        ggml_type: payload.ggml_type,
        name,
    }
}

/// `tensor` stands for the stored tensor.
pub open spec fn stands_for(
    graph: GgmlCpuGraphBuilder,
    tensor: GgmlCpuTensor,
    payload: HeadPayload,
) -> bool {
    &&& graph.has_dense(tensor)
    &&& graph.value(tensor) == TensorValue::leaf(tensor.id as int, padded_shape(payload.dims@))
}

/// The tensors that stay on the device stand for what was stored, and for two
/// projections.
pub open spec fn head_stands(
    graph: GgmlCpuGraphBuilder,
    weights: HeadWeights,
    payloads: HeadPayloads,
    joiner_dim: usize,
) -> bool {
    let shape = Shape4 { ne0: joiner_dim, ne1: 1, ne2: 1, ne3: 1 };
    &&& weights.within(graph)
    &&& stands_for(graph, weights.decoder_embedding, payloads.decoder_embedding)
    &&& stands_for(graph, weights.decoder_conv, payloads.decoder_conv)
    &&& stands_for(graph, weights.encoder_proj_weight, payloads.encoder_proj_weight)
    &&& stands_for(graph, weights.encoder_proj_bias, payloads.encoder_proj_bias)
    &&& stands_for(graph, weights.decoder_proj_weight, payloads.decoder_proj_weight)
    &&& stands_for(graph, weights.decoder_proj_bias, payloads.decoder_proj_bias)
    &&& stands_for(graph, weights.output_weight, payloads.output_weight)
    &&& stands_for(graph, weights.output_bias, payloads.output_bias)
    &&& graph.value(weights.encoder_projection) == TensorValue::leaf(
        weights.encoder_projection.id as int,
        shape,
    )
    &&& graph.value(weights.decoder_projection) == TensorValue::leaf(
        weights.decoder_projection.id as int,
        shape,
    )
}

/// The uploads of the weights, and zeros for the projections, appended.
pub open spec fn head_uploads(
    pending: Seq<EffectView>,
    weights: HeadWeights,
    payloads: HeadPayloads,
    joiner_dim: usize,
) -> Seq<EffectView> {
    pending + seq![
        stored_upload(
            weights.decoder_embedding,
            payloads.decoder_embedding,
            "xasr_head_decoder_embedding"@,
        ),
        stored_upload(weights.decoder_conv, payloads.decoder_conv, "xasr_head_decoder_conv"@),
        stored_upload(
            weights.encoder_proj_weight,
            payloads.encoder_proj_weight,
            "xasr_head_encoder_proj_weight"@,
        ),
        stored_upload(
            weights.encoder_proj_bias,
            payloads.encoder_proj_bias,
            "xasr_head_encoder_proj_bias"@,
        ),
        stored_upload(
            weights.decoder_proj_weight,
            payloads.decoder_proj_weight,
            "xasr_head_decoder_proj_weight"@,
        ),
        stored_upload(
            weights.decoder_proj_bias,
            payloads.decoder_proj_bias,
            "xasr_head_decoder_proj_bias"@,
        ),
        stored_upload(weights.output_weight, payloads.output_weight, "xasr_head_output_weight"@),
        stored_upload(weights.output_bias, payloads.output_bias, "xasr_head_output_bias"@),
        floats(
            weights.encoder_projection,
            zero_seq(joiner_dim as nat),
            "xasr_head_encoder_projection"@,
        ),
        floats(
            weights.decoder_projection,
            zero_seq(joiner_dim as nat),
            "xasr_head_decoder_projection"@,
        ),
    ]
}

fn upload_weight(
    graph: &mut GgmlCpuGraphBuilder,
    tensor: GgmlCpuTensor,
    payload: &HeadPayload,
    name: &'static str,
)
    requires
        old(graph).has(tensor),
    ensures
        final(graph)@ == old(graph)@,
        final(graph).recorded() == old(graph).recorded(),
        final(graph).pending() == old(graph).pending().push(
            stored_upload(tensor, *payload, name@),
        ),
{
    graph.set_matmul_weight_bytes(tensor, payload.bytes.as_slice(), payload.ggml_type, name);
}

/// Allocates the tensors that stay on the device, and then uploads them.
#[verifier::spinoff_prover]
#[verifier::rlimit(60)]
pub fn plan_head_weights(
    graph: &mut GgmlCpuGraphBuilder,
    payloads: &HeadPayloads,
    joiner_dim: usize,
) -> (result: Result<HeadWeights, String>)
    ensures
        text_outcome(result, payloads.refusal()),
        final(graph).builds_on(*old(graph)),
        result is Ok ==> {
            let weights = result->Ok_0;
            &&& weights == head_handles(old(graph)@.len() as int)
            &&& final(graph).recorded() == head_nodes(
                old(graph).recorded(),
                *payloads,
                joiner_dim,
            )
            &&& final(graph)@.len() == old(graph)@.len() + STATIC_TENSOR_COUNT
            &&& head_stands(*final(graph), weights, *payloads, joiner_dim)
            &&& final(graph).pending() == head_uploads(
                old(graph).pending(),
                weights,
                *payloads,
                joiner_dim,
            )
        },
{
    let decoder_embedding = stored_leaf(
        graph,
        &payloads.decoder_embedding,
        "xasr_head_decoder_embedding",
    )?;
    let decoder_conv = stored_leaf(graph, &payloads.decoder_conv, "xasr_head_decoder_conv")?;
    let encoder_proj_weight = new_matmul_weight(
        graph,
        &payloads.encoder_proj_weight,
        "xasr_head_encoder_proj_weight",
    )?;
    let encoder_proj_bias = stored_leaf(
        graph,
        &payloads.encoder_proj_bias,
        "xasr_head_encoder_proj_bias",
    )?;
    let decoder_proj_weight = new_matmul_weight(
        graph,
        &payloads.decoder_proj_weight,
        "xasr_head_decoder_proj_weight",
    )?;
    let decoder_proj_bias = stored_leaf(
        graph,
        &payloads.decoder_proj_bias,
        "xasr_head_decoder_proj_bias",
    )?;
    let output_weight = new_matmul_weight(
        graph,
        &payloads.output_weight,
        "xasr_head_output_weight",
    )?;
    let output_bias = stored_leaf(graph, &payloads.output_bias, "xasr_head_output_bias")?;
    let encoder_projection = graph.new_tensor_1d_f32(joiner_dim, "xasr_head_encoder_projection");
    let decoder_projection = graph.new_tensor_1d_f32(joiner_dim, "xasr_head_decoder_projection");
    upload_weight(
        graph,
        decoder_embedding,
        &payloads.decoder_embedding,
        "xasr_head_decoder_embedding",
    );
    upload_weight(graph, decoder_conv, &payloads.decoder_conv, "xasr_head_decoder_conv");
    upload_weight(
        graph,
        encoder_proj_weight,
        &payloads.encoder_proj_weight,
        "xasr_head_encoder_proj_weight",
    );
    upload_weight(
        graph,
        encoder_proj_bias,
        &payloads.encoder_proj_bias,
        "xasr_head_encoder_proj_bias",
    );
    upload_weight(
        graph,
        decoder_proj_weight,
        &payloads.decoder_proj_weight,
        "xasr_head_decoder_proj_weight",
    );
    upload_weight(
        graph,
        decoder_proj_bias,
        &payloads.decoder_proj_bias,
        "xasr_head_decoder_proj_bias",
    );
    upload_weight(graph, output_weight, &payloads.output_weight, "xasr_head_output_weight");
    upload_weight(graph, output_bias, &payloads.output_bias, "xasr_head_output_bias");
    let zeros = rows::zeros(joiner_dim);
    graph.set_f32_slice(encoder_projection, zeros.as_slice(), "xasr_head_encoder_projection");
    graph.set_f32_slice(decoder_projection, zeros.as_slice(), "xasr_head_decoder_projection");
    let weights = HeadWeights {
        decoder_embedding,
        decoder_conv,
        encoder_proj_weight,
        encoder_proj_bias,
        decoder_proj_weight,
        decoder_proj_bias,
        output_weight,
        output_bias,
        encoder_projection,
        decoder_projection,
    };
    assert(graph.pending() =~= head_uploads(
        old(graph).pending(),
        weights,
        *payloads,
        joiner_dim,
    ));
    Ok(weights)
}

/// A projection that stays on the device: what it is computed from, and the write.
#[derive(Clone, Copy, Debug)]
pub struct ProjectionGraph {
    pub input: GgmlCpuTensor,
    pub write: GgmlCpuTensor,
}

/// Builds the graph that projects an encoder frame.
pub fn build_encoder_projection(
    graph: &mut GgmlCpuGraphBuilder,
    weights: &HeadWeights,
    encoder_dim: usize,
) -> (head: ProjectionGraph)
    requires
        weights.within(*old(graph)),
    ensures
        final(graph).builds_on(*old(graph)),
        ({
            let base = old(graph)@.len() as int;
            &&& head == (ProjectionGraph { input: handle(base, 0), write: handle(base, 3) })
            &&& final(graph)@.len() == base + 4
            &&& final(graph).recorded()[base] == float_leaf(
                encoder_dim,
                1,
                1,
                1,
                "xasr_head_encoder_frame",
            )
            &&& final(graph).value(head.input) == TensorValue::leaf(
                base,
                (Shape4 { ne0: encoder_dim, ne1: 1, ne2: 1, ne3: 1 }),
            )
            &&& final(graph).value(head.write) == linear(
                old(graph).value(weights.encoder_proj_weight),
                final(graph).value(head.input),
                old(graph).value(weights.encoder_proj_bias),
            ).copied_into(old(graph).value(weights.encoder_projection))
            &&& final(graph).pending() == old(graph).pending().push(
                (EffectView::SetInput { tensor: base }),
            ).push((EffectView::SideEffectRoot { tensor: base + 3 }))
        }),
{
    proof {
        graph.lemma_view_len();
    }
    let ghost base = graph@.len() as int;
    let input = graph.new_tensor_1d_f32(encoder_dim, "xasr_head_encoder_frame");
    assert(graph.recorded()[base] == float_leaf(
        encoder_dim,
        1,
        1,
        1,
        "xasr_head_encoder_frame",
    ));
    graph.set_input(input);
    let product = graph.mul_mat(weights.encoder_proj_weight, input);
    let projected = graph.add(product, weights.encoder_proj_bias);
    let write = graph.cpy(projected, weights.encoder_projection);
    graph.add_side_effect_root(write);
    ProjectionGraph { input, write }
}

/// What the predictor makes of tokens: their rows, one channel after the other,
/// group by group against the kernel, without what is negative.
pub open spec fn predicted(
    table: TensorValue,
    kernel: TensorValue,
    tokens: TensorValue,
    packed_width: int,
    in_per_group: int,
    groups: int,
    decoder_dim: int,
) -> TensorValue {
    let input = table.gathered(tokens).transposed().cont().reshaped(packed_width, 1, groups, 1);
    kernel.reshaped(packed_width, in_per_group, groups, 1).mul_mat(input).reshaped(
        decoder_dim,
        1,
        1,
        1,
    ).relu()
}

/// The input of the predictor: integers.
pub open spec fn tokens_node(context_size: usize) -> GraphNode {
    GraphNode::Leaf {
        shape: Shape4 { ne0: context_size, ne1: 1, ne2: 1, ne3: 1 },
        leaf_type: LeafType::Integer,
        name: "xasr_head_context",
    }
}

/// Why the predictor cannot be built.
pub open spec fn predictor_refusal(
    context_size: usize,
    decoder_dim: usize,
    groups: usize,
) -> Option<Seq<char>> {
    if context_size * (decoder_dim / groups) > usize::MAX {
        Some("xasr decoder packed group width overflowed"@)
    } else {
        None
    }
}

/// Builds the graph of the predictor.
#[verifier::rlimit(40)]
pub fn build_decoder_projection(
    graph: &mut GgmlCpuGraphBuilder,
    weights: &HeadWeights,
    context_size: usize,
    decoder_dim: usize,
    groups: usize,
) -> (result: Result<ProjectionGraph, String>)
    requires
        weights.within(*old(graph)),
        groups > 0,
    ensures
        text_outcome(result, predictor_refusal(context_size, decoder_dim, groups)),
        final(graph).builds_on(*old(graph)),
        result is Ok ==> {
            let head = result->Ok_0;
            let base = old(graph)@.len() as int;
            &&& head == (ProjectionGraph { input: handle(base, 0), write: handle(base, 11) })
            &&& final(graph)@.len() == base + 12
            &&& final(graph).recorded()[base] == tokens_node(context_size)
            &&& final(graph).value(head.input) == TensorValue::leaf(
                base,
                (Shape4 { ne0: context_size, ne1: 1, ne2: 1, ne3: 1 }),
            )
            &&& final(graph).value(head.write) == linear(
                old(graph).value(weights.decoder_proj_weight),
                predicted(
                    old(graph).value(weights.decoder_embedding),
                    old(graph).value(weights.decoder_conv),
                    final(graph).value(head.input),
                    context_size * (decoder_dim / groups),
                    (decoder_dim / groups) as int,
                    groups as int,
                    decoder_dim as int,
                ),
                old(graph).value(weights.decoder_proj_bias),
            ).copied_into(old(graph).value(weights.decoder_projection))
            &&& final(graph).pending() == old(graph).pending().push(
                (EffectView::SetInput { tensor: base }),
            ).push((EffectView::SideEffectRoot { tensor: base + 11 }))
        },
{
    proof {
        graph.lemma_view_len();
    }
    let ghost base = graph@.len() as int;
    let tokens = graph.new_tensor_1d_i32(context_size, "xasr_head_context");
    assert(graph.recorded()[base] == tokens_node(context_size));
    graph.set_input(tokens);
    let gathered = graph.get_rows(weights.decoder_embedding, tokens);
    let turned = graph.transpose(gathered);
    let embedded = graph.cont(turned);
    let in_per_group = decoder_dim / groups;
    let packed_width = match context_size.checked_mul(in_per_group) {
        Some(width) => width,
        None => return Err(text::copy_text("xasr decoder packed group width overflowed")),
    };
    let input = graph.reshape_3d(embedded, packed_width, 1, groups);
    let kernel = graph.reshape_3d(weights.decoder_conv, packed_width, in_per_group, groups);
    let product = graph.mul_mat(kernel, input);
    let flat = graph.reshape_1d(product, decoder_dim);
    let state = graph.relu(flat);
    let scaled = graph.mul_mat(weights.decoder_proj_weight, state);
    let projected = graph.add(scaled, weights.decoder_proj_bias);
    let write = graph.cpy(projected, weights.decoder_projection);
    graph.add_side_effect_root(write);
    Ok(ProjectionGraph { input: tokens, write })
}

/// The two results of the joiner.
#[derive(Clone, Copy, Debug)]
pub struct JointGraph {
    pub top1: GgmlCpuTensor,
    pub selected_probability: GgmlCpuTensor,
}

/// Builds the graph of the joiner: the best token and its probability.
#[verifier::rlimit(40)]
pub fn build_joint(graph: &mut GgmlCpuGraphBuilder, weights: &HeadWeights) -> (joint: JointGraph)
    requires
        weights.within(*old(graph)),
    ensures
        final(graph).builds_on(*old(graph)),
        ({
            let base = old(graph)@.len() as int;
            let logits = linear(
                old(graph).value(weights.output_weight),
                old(graph).value(weights.encoder_projection).plus(
                    old(graph).value(weights.decoder_projection),
                ).tanh(),
                old(graph).value(weights.output_bias),
            );
            &&& joint == (JointGraph {
                top1: handle(base, 4),
                selected_probability: handle(base, 8),
            })
            &&& final(graph)@.len() == base + 9
            &&& final(graph).value(joint.top1) == logits.arg_max_rows()
            &&& final(graph).value(joint.selected_probability) == logits.soft_max(
                None,
                ONE_BITS,
                ZERO_BITS,
            ).transposed().cont().gathered(logits.arg_max_rows())
            &&& final(graph).pending() == old(graph).pending().push(
                (EffectView::SetOutput { tensor: base + 4 }),
            ).push((EffectView::SetOutput { tensor: base + 8 }))
        }),
{
    proof {
        graph.lemma_view_len();
    }
    let sum = graph.add(weights.encoder_projection, weights.decoder_projection);
    let joined = graph.tanh(sum);
    let product = graph.mul_mat(weights.output_weight, joined);
    let logits = graph.add(product, weights.output_bias);
    let top1 = graph.top1_argmax(logits);
    let probabilities = graph.soft_max_ext(logits, None, ONE_BITS, ZERO_BITS);
    let turned = graph.transpose(probabilities);
    let column = graph.cont(turned);
    let selected_probability = graph.get_rows(column, top1);
    graph.set_output(top1);
    graph.set_output(selected_probability);
    JointGraph { top1, selected_probability }
}

/// What the search on a device remembers: the dimensions, and the token chosen
/// last with its probability.
#[derive(Debug)]
pub struct XasrDeviceHead {
    context_size: usize,
    encoder_dim: usize,
    vocab_size: usize,
    blank_id: u32,
    last_token: Option<u32>,
    last_probability: u32,
}

impl XasrDeviceHead {
    pub closed spec fn spec_context_size(self) -> usize {
        self.context_size
    }

    pub closed spec fn spec_encoder_dim(self) -> usize {
        self.encoder_dim
    }

    pub closed spec fn spec_vocab_size(self) -> usize {
        self.vocab_size
    }

    pub closed spec fn spec_blank_id(self) -> u32 {
        self.blank_id
    }

    /// The token chosen last and its probability.
    pub closed spec fn chosen(self) -> Option<(u32, u32)> {
        match self.last_token {
            Some(token) => Some((token, self.last_probability)),
            None => None,
        }
    }

    /// Only the chosen token differs.
    pub open spec fn same_model(self, other: Self) -> bool {
        &&& self.spec_context_size() == other.spec_context_size()
        &&& self.spec_encoder_dim() == other.spec_encoder_dim()
        &&& self.spec_vocab_size() == other.spec_vocab_size()
        &&& self.spec_blank_id() == other.spec_blank_id()
    }

    /// A search that has chosen nothing yet.
    pub fn new(
        context_size: usize,
        encoder_dim: usize,
        vocab_size: usize,
        blank_id: u32,
    ) -> (head: Self)
        ensures
            head.spec_context_size() == context_size,
            head.spec_encoder_dim() == encoder_dim,
            head.spec_vocab_size() == vocab_size,
            head.spec_blank_id() == blank_id,
            head.chosen() is None,
    {
        XasrDeviceHead {
            context_size,
            encoder_dim,
            vocab_size,
            blank_id,
            last_token: None,
            last_probability: ZERO_BITS,
        }
    }

    /// The context before any token: blanks.
    pub fn initial_context(&self) -> (context: Vec<u32>)
        ensures
            context@ == Seq::new(self.spec_context_size() as nat, |i: int| self.spec_blank_id()),
    {
        let context = vec![self.blank_id; self.context_size];
        assert(context@ =~= Seq::new(self.context_size as nat, |i: int| self.blank_id));
        context
    }

    /// Checks an encoder frame before it is uploaded.
    pub fn check_encoder_frame(&self, frame: &[u32]) -> (result: Result<(), String>)
        ensures
            text_outcome(
                result,
                if frame@.len() != self.spec_encoder_dim() {
                    Some(
                        "xasr device head encoder frame has "@ + decimal(frame@.len())
                            + " values, expected "@ + decimal(self.spec_encoder_dim() as nat),
                    )
                } else {
                    None
                },
            ),
    {
        if frame.len() != self.encoder_dim {
            let mut reason = text::copy_text("xasr device head encoder frame has ");
            text::push_number(&mut reason, frame.len());
            reason.append(" values, expected ");
            text::push_number(&mut reason, self.encoder_dim);
            return Err(reason);
        }
        Ok(())
    }

    /// Why a token cannot be uploaded.
    pub open spec fn token_refusal(self, token: u32) -> Option<Seq<char>> {
        if token >= self.spec_vocab_size() {
            Some(
                "xasr device head token "@ + decimal(token as nat) + " exceeds vocab "@ + decimal(
                    self.spec_vocab_size() as nat,
                ),
            )
        } else if token > i32::MAX {
            Some("xasr device head token "@ + decimal(token as nat) + " exceeds i32"@)
        } else {
            None
        }
    }

    /// Why one of the first `n` tokens cannot be uploaded.
    pub open spec fn tokens_refusal(self, context: Seq<u32>, n: int) -> Option<Seq<char>>
        decreases n,
    {
        if n <= 0 {
            None
        } else if self.tokens_refusal(context, n - 1) is Some {
            self.tokens_refusal(context, n - 1)
        } else {
            self.token_refusal(context[n - 1])
        }
    }

    /// Why a context cannot be uploaded.
    pub open spec fn context_refusal(self, context: Seq<u32>) -> Option<Seq<char>> {
        if context.len() != self.spec_context_size() {
            Some(
                "xasr device head context has "@ + decimal(context.len()) + " tokens, expected "@
                    + decimal(self.spec_context_size() as nat),
            )
        } else {
            self.tokens_refusal(context, context.len() as int)
        }
    }

    proof fn lemma_tokens_refusal_monotone(self, context: Seq<u32>, n: int, longer: int)
        requires
            0 <= n <= longer,
            self.tokens_refusal(context, n) is Some,
        ensures
            self.tokens_refusal(context, longer) == self.tokens_refusal(context, n),
        decreases longer,
    {
        if n < longer {
            self.lemma_tokens_refusal_monotone(context, n, longer - 1);
        }
    }

    /// The tokens of a context as they are uploaded.
    pub fn context_token_ids(&self, context: &[u32]) -> (result: Result<Vec<i32>, String>)
        ensures
            text_outcome(result, self.context_refusal(context@)),
            result is Ok ==> {
                &&& result->Ok_0@.len() == context@.len()
                &&& forall|i: int|
                    0 <= i < context@.len() ==> #[trigger] result->Ok_0@[i] == context@[i]
            },
    {
        if context.len() != self.context_size {
            let mut reason = text::copy_text("xasr device head context has ");
            text::push_number(&mut reason, context.len());
            reason.append(" tokens, expected ");
            text::push_number(&mut reason, self.context_size);
            return Err(reason);
        }
        let mut token_ids: Vec<i32> = Vec::new();
        let mut i: usize = 0;
        while i < context.len()
            invariant
                i <= context@.len(),
                context@.len() == self.spec_context_size(),
                token_ids@.len() == i,
                self.tokens_refusal(context@, i as int) is None,
                forall|j: int| 0 <= j < i ==> #[trigger] token_ids@[j] == context@[j],
            decreases context@.len() - i,
        {
            let token = context[i];
            proof {
                if self.tokens_refusal(context@, i + 1) is Some {
                    self.lemma_tokens_refusal_monotone(context@, i + 1, context@.len() as int);
                }
            }
            if token as usize >= self.vocab_size {
                let mut reason = text::copy_text("xasr device head token ");
                text::push_number(&mut reason, token as usize);
                reason.append(" exceeds vocab ");
                text::push_number(&mut reason, self.vocab_size);
                return Err(reason);
            }
            if token > 0x7fff_ffff {
                let mut reason = text::copy_text("xasr device head token ");
                text::push_number(&mut reason, token as usize);
                reason.append(" exceeds i32");
                return Err(reason);
            }
            token_ids.push(token as i32);
            i = i + 1;
        }
        Ok(token_ids)
    }

    /// Why a choice of the device is refused.
    pub open spec fn choice_refusal(self, token: i32, probability: u32) -> Option<Seq<char>> {
        if token < 0 || token >= self.spec_vocab_size() {
            Some(
                "xasr device head selected token "@ + signed_decimal(token) + " outside vocab "@
                    + decimal(self.spec_vocab_size() as nat),
            )
        } else if !bits::finite(probability) {
            Some("xasr device head selected a non-finite probability"@)
        } else {
            None
        }
    }

    /// Takes in the token that the device chose, and its probability.
    pub fn take_choice(&mut self, token: i32, probability: u32) -> (result: Result<u32, String>)
        ensures
            final(self).same_model(*old(self)),
            text_outcome(result, old(self).choice_refusal(token, probability)),
            result is Err ==> final(self).chosen() == old(self).chosen(),
            result is Ok ==> {
                &&& result->Ok_0 == token
                &&& final(self).chosen() == Some((result->Ok_0, probability))
            },
    {
        if token < 0 || token as usize >= self.vocab_size {
            let mut reason = text::copy_text("xasr device head selected token ");
            push_signed(&mut reason, token);
            reason.append(" outside vocab ");
            text::push_number(&mut reason, self.vocab_size);
            return Err(reason);
        }
        if !bits::is_finite(probability) {
            return Err(text::copy_text("xasr device head selected a non-finite probability"));
        }
        let chosen = token as u32;
        self.last_token = Some(chosen);
        self.last_probability = probability;
        Ok(chosen)
    }

    /// The probability of the token chosen last.
    pub fn token_probability(&self, token: u32) -> (result: Result<u32, String>)
        ensures
            match self.chosen() {
                Some((chosen, probability)) if chosen == token => result == Ok::<u32, String>(
                    probability,
                ),
                _ => result is Err && result->Err_0@
                    == "xasr device head probability requested for token "@ + decimal(token as nat)
                    + " before selection"@,
            },
    {
        let known = match self.last_token {
            Some(chosen) => chosen == token,
            None => false,
        };
        if !known {
            let mut reason = text::copy_text("xasr device head probability requested for token ");
            text::push_number(&mut reason, token as usize);
            reason.append(" before selection");
            return Err(reason);
        }
        Ok(self.last_probability)
    }
}

/// A number with its sign in decimal notation.
pub open spec fn signed_decimal(n: i32) -> Seq<char> {
    if n < 0 {
        "-"@ + decimal((-n) as nat)
    } else {
        decimal(n as nat)
    }
}

fn push_signed(text: &mut String, n: i32)
    ensures
        final(text)@ == old(text)@ + signed_decimal(n),
{
    if n < 0 {
        text.append("-");
        let magnitude = (-(n as i64)) as usize;
        text::push_number(text, magnitude);
        assert(text@ =~= old(text)@ + signed_decimal(n));
    } else {
        text::push_number(text, n as usize);
    }
}

/// The dimensions of a predictor and joiner.
#[derive(Clone, Copy, Debug)]
pub struct HeadShape {
    pub context_size: usize,
    pub encoder_dim: usize,
    pub decoder_dim: usize,
    /// Groups of the predictor's convolution.
    pub groups: usize,
    pub joiner_dim: usize,
    pub vocab_size: usize,
    pub blank_id: u32,
}

/// The predictor and joiner as one graph, with what waits to be uploaded.
pub struct DeviceHeadPlan {
    pub graph: GgmlCpuGraphBuilder,
    pub weights: HeadWeights,
    pub encoder: ProjectionGraph,
    pub decoder: ProjectionGraph,
    pub joint: JointGraph,
    pub head: XasrDeviceHead,
}

impl DeviceHeadPlan {
    /// The graph holds the stored tensors and the three computations over them.
    pub open spec fn stands(self, payloads: HeadPayloads, shape: HeadShape) -> bool {
        let graph = self.graph;
        let w = self.weights;
        let logits = linear(
            graph.value(w.output_weight),
            graph.value(w.encoder_projection).plus(graph.value(w.decoder_projection)).tanh(),
            graph.value(w.output_bias),
        );
        &&& w == head_handles(0)
        &&& head_stands(graph, w, payloads, shape.joiner_dim)
        &&& nodes_extend(
            head_nodes(Seq::empty(), payloads, shape.joiner_dim),
            graph.recorded(),
        )
        &&& self.encoder == (ProjectionGraph { input: handle(10, 0), write: handle(10, 3) })
        &&& graph.recorded()[10] == float_leaf(
            shape.encoder_dim,
            1,
            1,
            1,
            "xasr_head_encoder_frame",
        )
        &&& graph.value(self.encoder.write) == linear(
            graph.value(w.encoder_proj_weight),
            TensorValue::leaf(
                10,
                (Shape4 { ne0: shape.encoder_dim, ne1: 1, ne2: 1, ne3: 1 }),
            ),
            graph.value(w.encoder_proj_bias),
        ).copied_into(graph.value(w.encoder_projection))
        &&& self.decoder == (ProjectionGraph { input: handle(14, 0), write: handle(14, 11) })
        &&& graph.recorded()[14] == tokens_node(shape.context_size)
        &&& graph.value(self.decoder.write) == linear(
            graph.value(w.decoder_proj_weight),
            predicted(
                graph.value(w.decoder_embedding),
                graph.value(w.decoder_conv),
                TensorValue::leaf(
                    14,
                    (Shape4 { ne0: shape.context_size, ne1: 1, ne2: 1, ne3: 1 }),
                ),
                shape.context_size * (shape.decoder_dim / shape.groups),
                (shape.decoder_dim / shape.groups) as int,
                shape.groups as int,
                shape.decoder_dim as int,
            ),
            graph.value(w.decoder_proj_bias),
        ).copied_into(graph.value(w.decoder_projection))
        &&& self.joint == (JointGraph { top1: handle(26, 4), selected_probability: handle(26, 8) })
        &&& graph.value(self.joint.top1) == logits.arg_max_rows()
        &&& graph.value(self.joint.selected_probability) == logits.soft_max(
            None,
            ONE_BITS,
            ZERO_BITS,
        ).transposed().cont().gathered(logits.arg_max_rows())
        &&& graph.pending() == head_uploads(Seq::empty(), w, payloads, shape.joiner_dim).push(
            (EffectView::SetInput { tensor: 10 }),
        ).push((EffectView::SideEffectRoot { tensor: 13 })).push(
            (EffectView::SetInput { tensor: 14 }),
        ).push((EffectView::SideEffectRoot { tensor: 25 })).push(
            (EffectView::SetOutput { tensor: 30 }),
        ).push((EffectView::SetOutput { tensor: 34 }))
        &&& self.head.spec_context_size() == shape.context_size
        &&& self.head.spec_encoder_dim() == shape.encoder_dim
        &&& self.head.spec_vocab_size() == shape.vocab_size
        &&& self.head.spec_blank_id() == shape.blank_id
        &&& self.head.chosen() is None
    }
}

/// Why a predictor and joiner of stored tensors cannot be planned.
pub open spec fn head_refusal(payloads: HeadPayloads, shape: HeadShape) -> Option<Seq<char>> {
    if payloads.refusal() is Some {
        payloads.refusal()
    } else {
        predictor_refusal(shape.context_size, shape.decoder_dim, shape.groups)
    }
}

/// Loads the predictor and joiner and plans them for a device: the stored tensors, the
/// projection of a frame, the predictor, and the joiner.
#[verifier::spinoff_prover]
#[verifier::rlimit(60)]
pub fn plan_device_head<S: HeadSource>(source: &S, shape: HeadShape) -> (result: Result<
    DeviceHeadPlan,
    String,
>)
    requires
        shape.groups > 0,
    ensures
        match result {
            Ok(plan) => exists|payloads: HeadPayloads| #[trigger]
                payloads_from(source, payloads) && head_refusal(payloads, shape) is None
                    && plan.stands(payloads, shape),
            Err(reason) => {
                ||| payloads_failed(source, reason@)
                ||| exists|payloads: HeadPayloads| #[trigger]
                    payloads_from(source, payloads) && head_refusal(payloads, shape) == Some(
                        reason@,
                    )
            },
        },
{
    let payloads = load_head_payloads(source)?;
    assert(payloads_from(source, payloads));
    let mut graph = GgmlCpuGraphBuilder::new();
    proof {
        graph.lemma_view_len();
        assert(graph.recorded() =~= Seq::<GraphNode>::empty());
        assert(graph.pending() =~= Seq::<EffectView>::empty());
    }
    let weights = plan_head_weights(&mut graph, &payloads, shape.joiner_dim)?;
    let ghost g1 = graph;
    let encoder = build_encoder_projection(&mut graph, &weights, shape.encoder_dim);
    let ghost g2 = graph;
    proof {
        lemma_head_in_grown(g1, g2, weights, payloads, shape.joiner_dim);
    }
    let decoder = build_decoder_projection(
        &mut graph,
        &weights,
        shape.context_size,
        shape.decoder_dim,
        shape.groups,
    )?;
    let ghost g3 = graph;
    proof {
        lemma_head_in_grown(g2, g3, weights, payloads, shape.joiner_dim);
    }
    let joint = build_joint(&mut graph, &weights);
    proof {
        lemma_head_in_grown(g3, graph, weights, payloads, shape.joiner_dim);
    }
    let head = XasrDeviceHead::new(
        shape.context_size,
        shape.encoder_dim,
        shape.vocab_size,
        shape.blank_id,
    );
    proof {
        g1.lemma_view_len();
        g2.lemma_view_len();
        g3.lemma_view_len();
        assert(graph.value(encoder.write) == g2.value(encoder.write));
        assert(graph.value(decoder.write) == g3.value(decoder.write));
        assert(graph.recorded()[10] == g2.recorded()[10]);
        assert(graph.recorded()[14] == g3.recorded()[14]);
    }
    let plan = DeviceHeadPlan { graph, weights, encoder, decoder, joint, head };
    assert(plan.stands(payloads, shape));
    Ok(plan)
}

/// The stored tensors stand for the same in a grown graph.
proof fn lemma_head_in_grown(
    before: GgmlCpuGraphBuilder,
    after: GgmlCpuGraphBuilder,
    weights: HeadWeights,
    payloads: HeadPayloads,
    joiner_dim: usize,
)
    requires
        after.builds_on(before),
        head_stands(before, weights, payloads, joiner_dim),
    ensures
        head_stands(after, weights, payloads, joiner_dim),
        after.value(weights.decoder_embedding) == before.value(weights.decoder_embedding),
        after.value(weights.decoder_conv) == before.value(weights.decoder_conv),
        after.value(weights.encoder_proj_weight) == before.value(weights.encoder_proj_weight),
        after.value(weights.encoder_proj_bias) == before.value(weights.encoder_proj_bias),
        after.value(weights.decoder_proj_weight) == before.value(weights.decoder_proj_weight),
        after.value(weights.decoder_proj_bias) == before.value(weights.decoder_proj_bias),
        after.value(weights.output_weight) == before.value(weights.output_weight),
        after.value(weights.output_bias) == before.value(weights.output_bias),
        after.value(weights.encoder_projection) == before.value(weights.encoder_projection),
        after.value(weights.decoder_projection) == before.value(weights.decoder_projection),
{
}

} // verus!
