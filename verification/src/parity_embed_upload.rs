//! A device that has taken the uploads of an embedding computes what the host does.

use vstd::prelude::*;
use crate::embed_binding::{
    embed_handles, embed_nodes, embed_upload_refusal, embed_uploads,
};
use crate::embed_graph::{XasrEncoderEmbedGraphShape, XasrEncoderEmbedGraphTensors};
use crate::embed_run::EmbedRun;
use crate::encoder_graph::XasrZipformerEncoderGraph;
use crate::encoder_rows::XasrEncoderFeatureInput;
use crate::encoder_upload::{
    cache_contents, conv2d_uploads, floats, linear_uploads, SWOOSH_L_OFFSET, SWOOSH_L_SHIFT,
    SWOOSH_R_OFFSET, SWOOSH_R_SHIFT,
};
use crate::encoder_weights::{XasrConv2dWeights, XasrEncoderEmbedWeights};
use crate::graph::{nodes_extend, EffectView, GgmlCpuGraphBuilder, GgmlCpuTensor, GraphNode};
use crate::parity::Device;
use crate::parity_embedding::{embedding_fits, law_graph_embedding_is_the_host_embedding};
use crate::parity_upload::{
    is_leaf, lemma_last_upload, lemma_uploaded_linear, lemma_uploaded_list, lemma_uploaded_rows,
    linear_complete, linear_leaves, place_in,
};
use crate::reference_embedding::{
    embed_values, kept_rows, subsampled_h, STATE_LEN, STATE_PLANES, STATE_ROWS, STATE_WIDTH,
};
use crate::tensor_value::{Shape4, TensorValue};

verus! {

/// Kernels with as many biases as channels.
pub open spec fn kernels_complete(weights: XasrConv2dWeights) -> bool {
    let dims = weights.weight.dims@;
    &&& dims.len() == 4
    &&& dims[0] > 0
    &&& dims[1] > 0
    &&& dims[2] > 0
    &&& weights.bias@.len() == dims[3]
}

/// The weights of an embedding are floats that fit together.
pub open spec fn embedding_complete(weights: XasrEncoderEmbedWeights) -> bool {
    &&& kernels_complete(weights.conv0)
    &&& kernels_complete(weights.conv4)
    &&& kernels_complete(weights.conv7)
    &&& kernels_complete(weights.convnext_depthwise)
    &&& kernels_complete(weights.convnext_pointwise1)
    &&& kernels_complete(weights.convnext_pointwise2)
    &&& linear_complete(weights.out)
}

/// The tensors are leaves for kernels and their biases.
pub open spec fn kernel_leaves(
    graph: GgmlCpuGraphBuilder,
    kernel: GgmlCpuTensor,
    bias: GgmlCpuTensor,
    weights: XasrConv2dWeights,
) -> bool {
    let dims = weights.weight.dims@;
    &&& graph.value(kernel) == TensorValue::leaf(
        kernel.id as int,
        (Shape4 { ne0: dims[0], ne1: dims[1], ne2: dims[2], ne3: dims[3] }),
    )
    &&& is_leaf(graph, bias, weights.bias@.len() as int, 1, 1)
}

/// The tensors are leaves for an embedding.
pub open spec fn embedding_leaves(
    graph: GgmlCpuGraphBuilder,
    tensors: XasrEncoderEmbedGraphTensors,
    weights: XasrEncoderEmbedWeights,
    shape: XasrEncoderEmbedGraphShape,
) -> bool {
    &&& kernel_leaves(graph, tensors.conv0_weight, tensors.conv0_bias, weights.conv0)
    &&& kernel_leaves(graph, tensors.conv4_weight, tensors.conv4_bias, weights.conv4)
    &&& kernel_leaves(graph, tensors.conv7_weight, tensors.conv7_bias, weights.conv7)
    &&& kernel_leaves(
        graph,
        tensors.convnext_depthwise_weight,
        tensors.convnext_depthwise_bias,
        weights.convnext_depthwise,
    )
    &&& kernel_leaves(
        graph,
        tensors.convnext_pointwise1_weight,
        tensors.convnext_pointwise1_bias,
        weights.convnext_pointwise1,
    )
    &&& kernel_leaves(
        graph,
        tensors.convnext_pointwise2_weight,
        tensors.convnext_pointwise2_bias,
        weights.convnext_pointwise2,
    )
    &&& linear_leaves(graph, tensors.out_weight, tensors.out_bias, weights.out)
    &&& is_leaf(graph, tensors.out_norm_bias, weights.out_norm_bias@.len() as int, 1, 1)
    &&& is_leaf(
        graph,
        tensors.embed_cache,
        shape.embed_width as int,
        shape.cache_frames as int,
        shape.channels as int,
    )
    &&& is_leaf(graph, tensors.swoosh_r_offset, 1, 1, 1)
    &&& is_leaf(graph, tensors.swoosh_r_shift, 1, 1, 1)
    &&& is_leaf(graph, tensors.swoosh_l_offset, 1, 1, 1)
    &&& is_leaf(graph, tensors.swoosh_l_shift, 1, 1, 1)
}

/// Uploaded kernels.
proof fn lemma_uploaded_kernels(
    device: Device,
    graph: GgmlCpuGraphBuilder,
    pending: Seq<EffectView>,
    kernel: GgmlCpuTensor,
    bias: GgmlCpuTensor,
    weights: XasrConv2dWeights,
)
    requires
        device.carried_out(graph, conv2d_uploads(pending, kernel, bias, weights)),
        kernel_leaves(graph, kernel, bias, weights),
        kernels_complete(weights),
    ensures
        device.carried_out(graph, pending),
        device.holds_kernels(graph.value(kernel), graph.value(bias), weights),
{
    let values = weights.weight.values@;
    let effect = floats(kernel, values, "xasr_conv2d_weight"@);
    lemma_uploaded_list(
        device,
        graph,
        pending.push(effect),
        bias,
        weights.bias@,
        "xasr_conv2d_bias"@,
    );
    lemma_last_upload(device, graph, pending, effect);
    let x = graph.value(kernel);
    let dims = weights.weight.dims@;
    let id = kernel.id as int;
    assert(effect is UploadFloats && effect->UploadFloats_tensor == id
        && effect->UploadFloats_values == values);
    assert forall|kw: int, kh: int, ic: int, oc: int|
        0 <= kw < dims[0] && 0 <= kh < dims[1] && 0 <= ic < dims[2] && 0 <= oc < dims[3] implies
        device.value(#[trigger] (x.at)(kw, kh, ic, oc)) == values[((oc * dims[2] + ic) * dims[1]
        + kh) * dims[0] + kw] by {
        assert((device.leaves)(id, kw, kh, ic, oc) == values[place_in(x, kw, kh, ic, oc)]);
    }
}

/// The uploaded rows that the previous chunk kept.
proof fn lemma_uploaded_states(
    device: Device,
    graph: GgmlCpuGraphBuilder,
    pending: Seq<EffectView>,
    tensor: GgmlCpuTensor,
    states: Seq<u32>,
    shape: XasrEncoderEmbedGraphShape,
    weights: XasrEncoderEmbedWeights,
)
    requires
        device.carried_out(graph, pending.push(floats(tensor, states, "xasr_embed_cache"@))),
        is_leaf(
            graph,
            tensor,
            shape.embed_width as int,
            shape.cache_frames as int,
            shape.channels as int,
        ),
        embedding_fits(weights, shape),
        states.len() == shape.channels * shape.cache_frames * shape.embed_width,
    ensures
        device.carried_out(graph, pending),
        device.holds_volume(graph.value(tensor), kept_rows(Some(states))),
{
    let effect = floats(tensor, states, "xasr_embed_cache"@);
    lemma_last_upload(device, graph, pending, effect);
    let x = graph.value(tensor);
    let v = kept_rows(Some(states));
    let id = tensor.id as int;
    assert(effect is UploadFloats && effect->UploadFloats_tensor == id
        && effect->UploadFloats_values == states);
    assert(1 * v.c * v.h * v.w == v.c * v.h * v.w);
    assert forall|w: int, h: int, c: int| 0 <= w < v.w && 0 <= h < v.h && 0 <= c < v.c implies
        device.value(#[trigger] (x.at)(w, h, c, 0)) == v.data[(c * v.h + h) * v.w + w] by {
        assert((device.leaves)(id, w, h, c, 0) == states[place_in(x, w, h, c, 0)]);
        let zero: int = 0;
        assert(((zero * x.ne2 + c) * x.ne1 + h) * x.ne0 + w == (c * x.ne1 + h) * x.ne0 + w)
            by (nonlinear_arith)
            requires
                zero == 0,
        ;
    }
}

/// A device that has carried out the uploads of an embedding holds its weights and
/// what the previous chunk kept.
#[verifier::spinoff_prover]
#[verifier::rlimit(60)]
pub proof fn law_uploaded_embedding_is_held(
    device: Device,
    graph: GgmlCpuGraphBuilder,
    pending: Seq<EffectView>,
    tensors: XasrEncoderEmbedGraphTensors,
    weights: XasrEncoderEmbedWeights,
    shape: XasrEncoderEmbedGraphShape,
    embed_states: Option<Seq<u32>>,
)
    requires
        device.carried_out(graph, embed_uploads(pending, tensors, weights, shape, embed_states)),
        embedding_leaves(graph, tensors, weights, shape),
        embedding_complete(weights),
        embedding_fits(weights, shape),
        embed_upload_refusal(shape, embed_states) is None,
    ensures
        device.carried_out(graph, pending),
        device.holds_embedding(
            graph,
            tensors,
            weights,
            cache_contents(
                (shape.channels * shape.cache_frames * shape.embed_width) as usize,
                embed_states,
            ),
        ),
{
    let len = (shape.channels * shape.cache_frames * shape.embed_width) as usize;
    let states = cache_contents(len, embed_states);
    assert(shape.channels * shape.cache_frames * shape.embed_width == STATE_LEN) by (nonlinear_arith)
        requires
            shape.channels == STATE_PLANES,
            shape.cache_frames == STATE_ROWS,
            shape.embed_width == STATE_WIDTH,
    ;
    let p0 = conv2d_uploads(pending, tensors.conv0_weight, tensors.conv0_bias, weights.conv0);
    let p4 = conv2d_uploads(p0, tensors.conv4_weight, tensors.conv4_bias, weights.conv4);
    let p7 = conv2d_uploads(p4, tensors.conv7_weight, tensors.conv7_bias, weights.conv7);
    let kept = p7.push(floats(tensors.embed_cache, states, "xasr_embed_cache"@));
    let depthwise = conv2d_uploads(
        kept,
        tensors.convnext_depthwise_weight,
        tensors.convnext_depthwise_bias,
        weights.convnext_depthwise,
    );
    let first = conv2d_uploads(
        depthwise,
        tensors.convnext_pointwise1_weight,
        tensors.convnext_pointwise1_bias,
        weights.convnext_pointwise1,
    );
    let second = conv2d_uploads(
        first,
        tensors.convnext_pointwise2_weight,
        tensors.convnext_pointwise2_bias,
        weights.convnext_pointwise2,
    );
    let out = linear_uploads(second, tensors.out_weight, tensors.out_bias, weights.out);
    let norm = out.push(
        floats(tensors.out_norm_bias, weights.out_norm_bias@, "xasr_embed_out_norm_b"@),
    );
    let r_offset = norm.push(
        floats(tensors.swoosh_r_offset, seq![SWOOSH_R_OFFSET], "xasr_embed_swoosh_r_offset"@),
    );
    let r_shift = r_offset.push(
        floats(tensors.swoosh_r_shift, seq![SWOOSH_R_SHIFT], "xasr_embed_swoosh_r_shift"@),
    );
    let l_offset = r_shift.push(
        floats(tensors.swoosh_l_offset, seq![SWOOSH_L_OFFSET], "xasr_embed_swoosh_l_offset"@),
    );
    lemma_uploaded_list(
        device,
        graph,
        l_offset,
        tensors.swoosh_l_shift,
        seq![SWOOSH_L_SHIFT],
        "xasr_embed_swoosh_l_shift"@,
    );
    lemma_uploaded_list(
        device,
        graph,
        r_shift,
        tensors.swoosh_l_offset,
        seq![SWOOSH_L_OFFSET],
        "xasr_embed_swoosh_l_offset"@,
    );
    lemma_uploaded_list(
        device,
        graph,
        r_offset,
        tensors.swoosh_r_shift,
        seq![SWOOSH_R_SHIFT],
        "xasr_embed_swoosh_r_shift"@,
    );
    lemma_uploaded_list(
        device,
        graph,
        norm,
        tensors.swoosh_r_offset,
        seq![SWOOSH_R_OFFSET],
        "xasr_embed_swoosh_r_offset"@,
    );
    lemma_uploaded_list(
        device,
        graph,
        out,
        tensors.out_norm_bias,
        weights.out_norm_bias@,
        "xasr_embed_out_norm_b"@,
    );
    lemma_uploaded_linear(
        device,
        graph,
        second,
        tensors.out_weight,
        tensors.out_bias,
        weights.out,
    );
    lemma_uploaded_kernels(
        device,
        graph,
        first,
        tensors.convnext_pointwise2_weight,
        tensors.convnext_pointwise2_bias,
        weights.convnext_pointwise2,
    );
    lemma_uploaded_kernels(
        device,
        graph,
        depthwise,
        tensors.convnext_pointwise1_weight,
        tensors.convnext_pointwise1_bias,
        weights.convnext_pointwise1,
    );
    lemma_uploaded_kernels(
        device,
        graph,
        kept,
        tensors.convnext_depthwise_weight,
        tensors.convnext_depthwise_bias,
        weights.convnext_depthwise,
    );
    lemma_uploaded_states(device, graph, p7, tensors.embed_cache, states, shape, weights);
    lemma_uploaded_kernels(
        device,
        graph,
        p4,
        tensors.conv7_weight,
        tensors.conv7_bias,
        weights.conv7,
    );
    lemma_uploaded_kernels(
        device,
        graph,
        p0,
        tensors.conv4_weight,
        tensors.conv4_bias,
        weights.conv4,
    );
    lemma_uploaded_kernels(
        device,
        graph,
        pending,
        tensors.conv0_weight,
        tensors.conv0_bias,
        weights.conv0,
    );
}

/// A leaf among the recorded operations.
proof fn lemma_allocated_leaf(
    graph: GgmlCpuGraphBuilder,
    nodes: Seq<GraphNode>,
    id: int,
    shape: Shape4,
)
    requires
        nodes_extend(nodes, graph.recorded()),
        0 <= id < nodes.len(),
        nodes[id] is Leaf,
        nodes[id]->Leaf_shape == shape,
    ensures
        graph@[id] == TensorValue::leaf(id, shape),
        id as usize == id,
{
    assert(graph.recorded()[id] == nodes[id]);
    graph.lemma_leaf_value(id);
    graph.lemma_view_len();
}

/// The leaves of an allocated embedding.
#[verifier::spinoff_prover]
#[verifier::rlimit(60)]
proof fn lemma_embedding_leaves(
    graph: GgmlCpuGraphBuilder,
    before: Seq<GraphNode>,
    weights: XasrEncoderEmbedWeights,
    shape: XasrEncoderEmbedGraphShape,
)
    requires
        nodes_extend(embed_nodes(before, weights, shape), graph.recorded()),
    ensures
        embedding_leaves(graph, embed_handles(before.len() as int).embed, weights, shape),
{
    let nodes = embed_nodes(before, weights, shape);
    let base = before.len() as int;
    assert forall|k: int| 0 <= k <= 20 implies #[trigger] nodes[base + k] is Leaf by {}
    assert forall|k: int| 1 <= k <= 20 implies graph@[#[trigger] (base + k)]
        == TensorValue::leaf(base + k, nodes[base + k]->Leaf_shape) && (base + k) as usize == base
        + k by {
        lemma_allocated_leaf(graph, nodes, base + k, nodes[base + k]->Leaf_shape);
    }
}

/// An embedding that was planned and uploaded gives what the host gives: the rows
/// that the device computes, and what it keeps for the next chunk, are those of the
/// host, where the operations of the device are those of the host and the host does
/// not fail.
#[verifier::spinoff_prover]
#[verifier::rlimit(60)]
pub proof fn law_uploaded_embedding_gives_what_the_host_gives(
    device: Device,
    encoder: XasrZipformerEncoderGraph,
    graph: GgmlCpuGraphBuilder,
    before: Seq<GraphNode>,
    pending: Seq<EffectView>,
    input: XasrEncoderFeatureInput,
    run: EmbedRun,
    embed_states: Option<Seq<u32>>,
)
    requires
        device.agrees_with_the_host(),
        embedding_complete(encoder.spec_weights().embed),
        embedding_fits(encoder.spec_weights().embed, run.binding.shape),
        encoder.embed_plan_refusal(input, embed_states) is None,
        encoder.embed_planned(graph, before.len() as int, input, run),
        nodes_extend(
            embed_nodes(before, encoder.spec_weights().embed, run.binding.shape),
            graph.recorded(),
        ),
        device.carried_out(
            graph,
            embed_uploads(
                pending.push(
                    floats(
                        run.binding.tensors.features,
                        input.rows@,
                        "xasr_encoder_embed_features"@,
                    ),
                ),
                run.binding.tensors.embed,
                encoder.spec_weights().embed,
                run.binding.shape,
                embed_states,
            ),
        ),
    ensures
        ({
            let host = embed_values(
                device.host,
                encoder.spec_weights().embed,
                input.rows@,
                input.frames,
                input.feature_dim,
                embed_states,
            );
            host is Ok ==> {
                &&& device.holds(
                    graph.value(run.output.rows),
                    host->Ok_0.rows,
                    run.binding.shape.output_dim as int,
                    run.binding.shape.embed_frames as int,
                )
                &&& device.holds_volume(
                    graph.value(run.output.new_embed_states),
                    kept_rows(Some(host->Ok_0.states)),
                )
            }
        }),
{
    let weights = encoder.spec_weights().embed;
    let shape = run.binding.shape;
    let tensors = run.binding.tensors;
    let rows = input.rows@;
    let name = "xasr_encoder_embed_features"@;
    lemma_embedding_leaves(graph, before, weights, shape);
    law_uploaded_embedding_is_held(
        device,
        graph,
        pending.push(floats(tensors.features, rows, name)),
        tensors.embed,
        weights,
        shape,
        embed_states,
    );
    let base = before.len() as int;
    let nodes = embed_nodes(before, weights, shape);
    assert(nodes[base] is Leaf);
    lemma_allocated_leaf(graph, nodes, base, nodes[base]->Leaf_shape);
    lemma_uploaded_rows(
        device,
        graph,
        pending,
        tensors.features,
        rows,
        name,
        shape.feature_dim as int,
        shape.input_frames as int,
    );
    assert(shape.channels * shape.cache_frames * shape.embed_width == STATE_LEN) by (nonlinear_arith)
        requires
            shape.channels == STATE_PLANES,
            shape.cache_frames == STATE_ROWS,
            shape.embed_width == STATE_WIDTH,
    ;
    let states = cache_contents(STATE_LEN, embed_states);
    assert(kept_rows(Some(states)) == kept_rows(embed_states));
    assert(shape.subsampled_frames == subsampled_h(weights, shape.input_frames as int));
    law_graph_embedding_is_the_host_embedding(
        device,
        graph,
        tensors.embed,
        weights,
        states,
        shape,
        graph.value(tensors.features),
        rows,
    );
}

} // verus!
