//! The embedding of a graph and that of the host, from features to rows.

use vstd::prelude::*;
use crate::embed_graph::{
    undilated, XasrEncoderEmbedGraphShape, XasrEncoderEmbedGraphTensors, CONV0_CHANNELS,
    CONV4_CHANNELS,
};
use crate::encoder_upload::{SWOOSH_L_OFFSET, SWOOSH_L_SHIFT, SWOOSH_R_OFFSET, SWOOSH_R_SHIFT};
use crate::encoder_weights::XasrEncoderEmbedWeights;
use crate::graph::GgmlCpuGraphBuilder;
use crate::layer_values;
use crate::parity::{
    law_graph_bias_norm_is_the_host_bias_norm, law_graph_linear_is_the_host_linear, lemma_flat,
    lemma_same_rows, Device,
};
use crate::parity_embed::{
    frames_of, law_graph_conv2d_is_the_host_one, law_graph_depthwise_conv2d_is_the_host_one,
    law_graph_volume_activations_are_the_host_ones, lemma_concatenated, lemma_frames, lemma_sliced,
    lemma_volume_sum,
};
use crate::reference_embed::Volume;
use crate::reference_embedding::{
    concatenated, conv0_sliding, conv4_sliding, conv7_sliding, convnext_rows, depthwise_sliding,
    embed_tail, embed_values, embedded_rows, feature_plane, frame_of, kept_rows,
    pointwise_sliding, projected_rows, sliced, subsampled, subsampled_h, STATE_PLANES,
    STATE_ROWS, STATE_WIDTH,
};
use crate::reference_rows::{linear_rows, sums, through_rows};
use crate::tensor_value::TensorValue;

verus! {

impl Device {
    /// The tensors hold the weights of an embedding, and what the previous chunk kept.
    pub open spec fn holds_embedding(
        self,
        graph: GgmlCpuGraphBuilder,
        tensors: XasrEncoderEmbedGraphTensors,
        weights: XasrEncoderEmbedWeights,
        states: Seq<u32>,
    ) -> bool {
        &&& self.holds_kernels(
            graph.value(tensors.conv0_weight),
            graph.value(tensors.conv0_bias),
            weights.conv0,
        )
        &&& self.holds_kernels(
            graph.value(tensors.conv4_weight),
            graph.value(tensors.conv4_bias),
            weights.conv4,
        )
        &&& self.holds_kernels(
            graph.value(tensors.conv7_weight),
            graph.value(tensors.conv7_bias),
            weights.conv7,
        )
        &&& self.holds_kernels(
            graph.value(tensors.convnext_depthwise_weight),
            graph.value(tensors.convnext_depthwise_bias),
            weights.convnext_depthwise,
        )
        &&& self.holds_kernels(
            graph.value(tensors.convnext_pointwise1_weight),
            graph.value(tensors.convnext_pointwise1_bias),
            weights.convnext_pointwise1,
        )
        &&& self.holds_kernels(
            graph.value(tensors.convnext_pointwise2_weight),
            graph.value(tensors.convnext_pointwise2_bias),
            weights.convnext_pointwise2,
        )
        &&& self.holds_linear(
            graph.value(tensors.out_weight),
            graph.value(tensors.out_bias),
            weights.out,
        )
        &&& self.holds_list(graph.value(tensors.out_norm_bias), weights.out_norm_bias@)
        &&& self.holds_volume(graph.value(tensors.embed_cache), kept_rows(Some(states)))
        &&& self.holds_list(graph.value(tensors.swoosh_r_offset), seq![SWOOSH_R_OFFSET])
        &&& self.holds_list(graph.value(tensors.swoosh_r_shift), seq![SWOOSH_R_SHIFT])
        &&& self.holds_list(graph.value(tensors.swoosh_l_offset), seq![SWOOSH_L_OFFSET])
        &&& self.holds_list(graph.value(tensors.swoosh_l_shift), seq![SWOOSH_L_SHIFT])
    }
}

/// The dimensions are those of the embedding.
pub open spec fn embedding_fits(
    weights: XasrEncoderEmbedWeights,
    shape: XasrEncoderEmbedGraphShape,
) -> bool {
    &&& weights.conv0.weight.dims@[3] == CONV0_CHANNELS
    &&& weights.conv4.weight.dims@[3] == CONV4_CHANNELS
    &&& weights.conv7.weight.dims@[3] == shape.channels
    &&& weights.convnext_depthwise.weight.dims@[2] == 1
    &&& weights.convnext_depthwise.weight.dims@[3] == shape.channels
    &&& weights.convnext_pointwise1.weight.dims@[3] == shape.channels * 3
    &&& weights.convnext_pointwise2.weight.dims@[3] == shape.channels
    &&& weights.out_norm_log_scale@[0] == shape.out_norm_log_scale
    &&& weights.out_norm_bias@.len() == shape.output_dim
    &&& weights.out.weight.output_dim == shape.output_dim
    &&& shape.output_dim > 0
    &&& shape.channels == STATE_PLANES
    &&& shape.cache_frames == STATE_ROWS
    &&& shape.embed_width == STATE_WIDTH
    &&& shape.subsampled_frames == shape.embed_frames + shape.cache_frames
}

/// The convolved features of a graph are those of the host.
#[verifier::spinoff_prover]
#[verifier::rlimit(60)]
proof fn lemma_subsampled(
    device: Device,
    graph: GgmlCpuGraphBuilder,
    tensors: XasrEncoderEmbedGraphTensors,
    weights: XasrEncoderEmbedWeights,
    states: Seq<u32>,
    shape: XasrEncoderEmbedGraphShape,
    features: TensorValue,
    held: Seq<u32>,
)
    requires
        device.agrees_with_the_host(),
        device.holds_embedding(graph, tensors, weights, states),
        embedding_fits(weights, shape),
        device.holds(features, held, shape.feature_dim as int, shape.input_frames as int),
    ensures
        ({
            let host = subsampled(
                device.host,
                weights,
                feature_plane(held, shape.input_frames as int, shape.feature_dim as int),
            );
            host is Ok ==> device.holds_volume(
                tensors.subsampled(graph, features, shape),
                host->Ok_0.swooshed_r(device.host),
            )
        }),
{
    let m = device.host;
    let n = shape.input_frames as int;
    let d = shape.feature_dim as int;
    let start = feature_plane(held, n, d);
    let host = subsampled(m, weights, start);
    if host is Ok {
        let r_offset = graph.value(tensors.swoosh_r_offset);
        let r_shift = graph.value(tensors.swoosh_r_shift);
        let l_offset = graph.value(tensors.swoosh_l_offset);
        let l_shift = graph.value(tensors.swoosh_l_shift);
        let input = features.reshaped(d, n, 1, 1);
        assert(device.holds_volume(input, start)) by {
            assert(1 * 1 * n * d == n * d) by (nonlinear_arith);
            assert forall|w: int, h: int, c: int| 0 <= w < d && 0 <= h < n && 0 <= c < 1 implies
                device.value(#[trigger] (input.at)(w, h, c, 0)) == held[(c * n + h) * d + w] by {
                assert(c == 0);
                assert(0 * n + h == h && ((0 * 1 + 0) * n + h) * d + w == h * d + w)
                    by (nonlinear_arith);
                lemma_flat(features, d, n, h, w);
                assert(device.value((features.at)(w, h, 0, 0)) == held[h * d + w]);
            }
        }
        vstd::arithmetic::div_mod::lemma_fundamental_div_mod_converse(1, 1, 1, 0);
        law_graph_conv2d_is_the_host_one(
            device,
            input,
            graph.value(tensors.conv0_weight),
            graph.value(tensors.conv0_bias),
            weights.conv0,
            start,
            conv0_sliding(),
        );
        let a = conv0_sliding().output(m, start, weights.conv0);
        let a_value = layer_values::conv_with_bias(
            graph.value(tensors.conv0_weight),
            input,
            graph.value(tensors.conv0_bias),
            CONV0_CHANNELS as int,
            undilated(1, 1, 1),
        );
        law_graph_volume_activations_are_the_host_ones(
            device,
            a_value,
            a,
            r_offset,
            r_shift,
            l_offset,
            l_shift,
        );
        let a_active = tensors.swoosh_r(graph, a_value);
        vstd::arithmetic::div_mod::lemma_fundamental_div_mod_converse(a.c, 1, a.c, 0);
        law_graph_conv2d_is_the_host_one(
            device,
            a_active,
            graph.value(tensors.conv4_weight),
            graph.value(tensors.conv4_bias),
            weights.conv4,
            a.swooshed_r(m),
            conv4_sliding(),
        );
        let b = conv4_sliding().output(m, a.swooshed_r(m), weights.conv4);
        let b_value = layer_values::conv_with_bias(
            graph.value(tensors.conv4_weight),
            a_active,
            graph.value(tensors.conv4_bias),
            CONV4_CHANNELS as int,
            undilated(2, 2, 0),
        );
        law_graph_volume_activations_are_the_host_ones(
            device,
            b_value,
            b,
            r_offset,
            r_shift,
            l_offset,
            l_shift,
        );
        let b_active = tensors.swoosh_r(graph, b_value);
        vstd::arithmetic::div_mod::lemma_fundamental_div_mod_converse(b.c, 1, b.c, 0);
        law_graph_conv2d_is_the_host_one(
            device,
            b_active,
            graph.value(tensors.conv7_weight),
            graph.value(tensors.conv7_bias),
            weights.conv7,
            b.swooshed_r(m),
            conv7_sliding(),
        );
        let c = conv7_sliding().output(m, b.swooshed_r(m), weights.conv7);
        let c_value = layer_values::conv_with_bias(
            graph.value(tensors.conv7_weight),
            b_active,
            graph.value(tensors.conv7_bias),
            shape.channels as int,
            undilated(2, 1, 0),
        );
        law_graph_volume_activations_are_the_host_ones(
            device,
            c_value,
            c,
            r_offset,
            r_shift,
            l_offset,
            l_shift,
        );
        lemma_cont(device, tensors.swoosh_r(graph, c_value), c.swooshed_r(m));
    }
}

/// Moving elements does not change them.
proof fn lemma_cont(device: Device, x: TensorValue, v: Volume)
    requires
        device.holds_volume(x, v),
    ensures
        device.holds_volume(x.cont(), v),
{
    assert(x.cont().at == x.at);
}

/// The depthwise module of a graph is that of the host.
#[verifier::spinoff_prover]
#[verifier::rlimit(60)]
proof fn lemma_convnext(
    device: Device,
    graph: GgmlCpuGraphBuilder,
    tensors: XasrEncoderEmbedGraphTensors,
    weights: XasrEncoderEmbedWeights,
    states: Seq<u32>,
    shape: XasrEncoderEmbedGraphShape,
    x: TensorValue,
    state: Volume,
)
    requires
        device.agrees_with_the_host(),
        device.holds_embedding(graph, tensors, weights, states),
        embedding_fits(weights, shape),
        device.holds_volume(x, state),
        state.c == STATE_PLANES,
        state.w == STATE_WIDTH,
    ensures
        device.holds_volume(
            tensors.with_cache(graph, x),
            concatenated(kept_rows(Some(states)), state),
        ),
        ({
            let host = convnext_rows(
                device.host,
                weights,
                concatenated(kept_rows(Some(states)), state),
            );
            host is Ok ==> device.holds_volume(tensors.convnext(graph, x, shape), host->Ok_0)
        }),
{
    let m = device.host;
    let concat = concatenated(kept_rows(Some(states)), state);
    let joined_value = tensors.with_cache(graph, x);
    lemma_concatenated(
        device,
        graph.value(tensors.embed_cache),
        x,
        kept_rows(Some(states)),
        state,
    );
    let host = convnext_rows(m, weights, concat);
    if host is Ok {
        law_graph_depthwise_conv2d_is_the_host_one(
            device,
            joined_value,
            graph.value(tensors.convnext_depthwise_weight),
            graph.value(tensors.convnext_depthwise_bias),
            weights.convnext_depthwise,
            concat,
            depthwise_sliding(),
        );
        let a = depthwise_sliding().output(m, concat, weights.convnext_depthwise);
        let a_value = layer_values::depthwise_with_bias(
            graph.value(tensors.convnext_depthwise_weight),
            joined_value,
            graph.value(tensors.convnext_depthwise_bias),
            shape.channels as int,
            undilated(1, 1, 3),
        );
        vstd::arithmetic::div_mod::lemma_fundamental_div_mod_converse(a.c, 1, a.c, 0);
        law_graph_conv2d_is_the_host_one(
            device,
            a_value,
            graph.value(tensors.convnext_pointwise1_weight),
            graph.value(tensors.convnext_pointwise1_bias),
            weights.convnext_pointwise1,
            a,
            pointwise_sliding(),
        );
        let b = pointwise_sliding().output(m, a, weights.convnext_pointwise1);
        let b_value = layer_values::conv_with_bias(
            graph.value(tensors.convnext_pointwise1_weight),
            a_value,
            graph.value(tensors.convnext_pointwise1_bias),
            shape.channels * 3,
            undilated(1, 1, 0),
        );
        law_graph_volume_activations_are_the_host_ones(
            device,
            b_value,
            b,
            graph.value(tensors.swoosh_r_offset),
            graph.value(tensors.swoosh_r_shift),
            graph.value(tensors.swoosh_l_offset),
            graph.value(tensors.swoosh_l_shift),
        );
        vstd::arithmetic::div_mod::lemma_fundamental_div_mod_converse(b.c, 1, b.c, 0);
        law_graph_conv2d_is_the_host_one(
            device,
            layer_values::swoosh(
                b_value,
                graph.value(tensors.swoosh_l_offset),
                graph.value(tensors.swoosh_l_shift),
            ),
            graph.value(tensors.convnext_pointwise2_weight),
            graph.value(tensors.convnext_pointwise2_bias),
            weights.convnext_pointwise2,
            b.swooshed_l(m),
            pointwise_sliding(),
        );
    }
}

/// Rows projected and normalised by a graph are those of the host.
proof fn lemma_embedded(
    device: Device,
    graph: GgmlCpuGraphBuilder,
    tensors: XasrEncoderEmbedGraphTensors,
    weights: XasrEncoderEmbedWeights,
    states: Seq<u32>,
    shape: XasrEncoderEmbedGraphShape,
    x: TensorValue,
    v: Volume,
    frames: usize,
)
    requires
        device.agrees_with_the_host(),
        device.holds_embedding(graph, tensors, weights, states),
        embedding_fits(weights, shape),
        device.holds_volume(x, v),
        v.h == frames,
    ensures
        ({
            let host = embedded_rows(device.host, v, weights);
            host is Ok ==> device.holds(
                layer_values::bias_norm(
                    layer_values::linear(
                        graph.value(tensors.out_weight),
                        x.planes_to_rows().cont().reshaped(v.w * v.c, v.h, 1, 1),
                        graph.value(tensors.out_bias),
                    ),
                    graph.value(tensors.out_norm_bias),
                    shape.out_norm_log_scale,
                ),
                host->Ok_0,
                shape.output_dim as int,
                v.h,
            )
        }),
{
    let m = device.host;
    let host = embedded_rows(m, v, weights);
    if host is Ok {
        lemma_frames(device, x, v);
        let flat = x.planes_to_rows().cont().reshaped(v.w * v.c, v.h, 1, 1);
        let width = weights.out.weight.input_dim;
        assert(v.c * v.w == v.w * v.c) by (nonlinear_arith);
        law_graph_linear_is_the_host_linear(
            device,
            graph.value(tensors.out_weight),
            graph.value(tensors.out_bias),
            weights.out,
            flat,
            frames_of(v),
            frames,
        );
        let row = |t: int|
            (m.apply_linear)(weights.out.weight, frame_of(v, t), Some(weights.out.bias@));
        lemma_same_rows(
            v.h,
            row,
            through_rows(m, weights.out, frames_of(v), width as int),
        );
        let projected = linear_rows(m, weights.out, frames_of(v), frames, width)->Ok_0;
        assert(projected_rows(m, v, weights) == Ok::<Seq<u32>, Seq<char>>(projected));
        law_graph_bias_norm_is_the_host_bias_norm(
            device,
            layer_values::linear(
                graph.value(tensors.out_weight),
                flat,
                graph.value(tensors.out_bias),
            ),
            graph.value(tensors.out_norm_bias),
            projected,
            weights.out_norm_bias@,
            shape.out_norm_log_scale,
            shape.output_dim,
            frames,
        );
    }
}

/// The embedding of a graph is that of the host: its rows, and what it keeps for the
/// next chunk.  Where the host fails, nothing is said.
#[verifier::spinoff_prover]
#[verifier::rlimit(60)]
pub proof fn law_graph_embedding_is_the_host_embedding(
    device: Device,
    graph: GgmlCpuGraphBuilder,
    tensors: XasrEncoderEmbedGraphTensors,
    weights: XasrEncoderEmbedWeights,
    states: Seq<u32>,
    shape: XasrEncoderEmbedGraphShape,
    features: TensorValue,
    held: Seq<u32>,
)
    requires
        device.agrees_with_the_host(),
        device.holds_embedding(graph, tensors, weights, states),
        embedding_fits(weights, shape),
        device.holds(features, held, shape.feature_dim as int, shape.input_frames as int),
        shape.subsampled_frames == subsampled_h(weights, shape.input_frames as int),
    ensures
        ({
            let host = embed_values(
                device.host,
                weights,
                held,
                shape.input_frames,
                shape.feature_dim,
                Some(states),
            );
            host is Ok ==> {
                &&& device.holds(
                    tensors.applied(graph, features, shape),
                    host->Ok_0.rows,
                    shape.output_dim as int,
                    shape.embed_frames as int,
                )
                &&& device.holds_volume(
                    tensors.next_cache(graph, features, shape),
                    kept_rows(Some(host->Ok_0.states)),
                )
            }
        }),
{
    let m = device.host;
    let host = embed_values(
        m,
        weights,
        held,
        shape.input_frames,
        shape.feature_dim,
        Some(states),
    );
    if host is Ok {
        let start = feature_plane(held, shape.input_frames as int, shape.feature_dim as int);
        lemma_subsampled(
            device,
            graph,
            tensors,
            weights,
            states,
            shape,
            features,
            held,
        );
        let state = subsampled(m, weights, start)->Ok_0.swooshed_r(m);
        let x = tensors.subsampled(graph, features, shape);
        assert(device.holds_volume(x, state));
        assert(embed_tail(m, weights, state, Some(states)) == host);
        assert(state.c == STATE_PLANES && state.w == STATE_WIDTH);
        lemma_convnext(device, graph, tensors, weights, states, shape, x, state);
        let concat = concatenated(kept_rows(Some(states)), state);
        let convnext = convnext_rows(m, weights, concat)->Ok_0;
        let left = shape.embed_frames as int;
        lemma_sliced(device, shape, x, state, 0, left);
        let residual = sliced(state, 0, left);
        let residual_value = shape.rows_of(x, shape.subsampled_frames as int, 0, left);
        let convnext_value = tensors.convnext(graph, x, shape);
        lemma_volume_sum(device, residual_value, convnext_value, residual, convnext);
        let total = Volume { data: sums(m, residual.data, convnext.data), ..residual };
        lemma_embedded(
            device,
            graph,
            tensors,
            weights,
            states,
            shape,
            residual_value.plus(convnext_value),
            total,
            shape.embed_frames,
        );
        lemma_sliced(
            device,
            shape,
            tensors.with_cache(graph, x),
            concat,
            left,
            shape.cache_frames as int,
        );
    }
}

} // verus!
