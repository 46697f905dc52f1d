//! Leaf tensors of the embedding and of downsamplings.

use vstd::prelude::*;
use crate::embed_graph::{XasrEncoderEmbedGraphShape, XasrEncoderEmbedGraphTensors};
use crate::encoder_binding::{
    allocate_conv2d_weight_tensor, allocate_stored_linear_weight_tensor, allocated, conv2d_axis_len,
    conv2d_axis_refusal, conv2d_dims, conv2d_leaf, conv2d_output_dim, conv2d_rank_refusal,
    float_leaf, handle, input_marks, mark_inputs, mark_outputs, noted, output_marks, weight_leaf,
};
use crate::encoder_error::{shape_error, XasrEncoderGraphError};
use crate::encoder_upload;
use crate::encoder_upload::{
    cache_contents, cache_refusal, conv2d_uploads, floats, lemma_noted_is_partly_noted,
    linear_uploads, upload_cache_or_zero, upload_conv2d_tensors, upload_f32,
    upload_linear_with_bias_tensors, upload_one, upload_zero_cache, uploads, SWOOSH_L_OFFSET,
    SWOOSH_L_SHIFT, SWOOSH_R_OFFSET, SWOOSH_R_SHIFT,
};
use crate::encoder_weights::XasrEncoderEmbedWeights;
use crate::float_ops;
use crate::graph::{
    EffectView, GgmlCpuGraphBuilder, GgmlCpuGraphError, GgmlCpuTensor, GraphNode,
};
use crate::layer_graph;
use crate::layer_graph::{
    div_ceil, product_or, XasrDownsampleGraphShape, XasrDownsampleGraphTensors,
};
use crate::rows::zero_seq;

verus! {

/// Frames that the embedding keeps from one chunk for the next.
pub const EMBED_CACHE_FRAMES: usize = 3;

/// Number of leaf tensors of the embedding.
pub const EMBED_LEAF_COUNT: usize = 21;

/// Three convolutions along one axis: the lengths after each.
pub open spec fn three_axis_refusal(
    input: usize,
    kernels: (usize, usize, usize),
    strides: (usize, usize, usize),
    pad: usize,
) -> Option<&'static str> {
    let first = axis_after(input, kernels.0, strides.0, pad);
    let second = axis_after(first, kernels.1, strides.1, 0);
    if conv2d_axis_refusal(input, kernels.0, strides.0, pad, pad) is Some {
        conv2d_axis_refusal(input, kernels.0, strides.0, pad, pad)
    } else if conv2d_axis_refusal(first, kernels.1, strides.1, 0, 0) is Some {
        conv2d_axis_refusal(first, kernels.1, strides.1, 0, 0)
    } else {
        conv2d_axis_refusal(second, kernels.2, strides.2, 0, 0)
    }
}

/// Length of an axis after a convolution with the same padding on both sides.
pub open spec fn axis_after(input: usize, kernel: usize, stride: usize, pad: usize) -> usize {
    conv2d_axis_len(input as int, kernel as int, stride as int, pad as int, pad as int) as usize
}

/// Length of an axis after three convolutions.
pub open spec fn axis_after_three(
    input: usize,
    kernels: (usize, usize, usize),
    strides: (usize, usize, usize),
    pad: usize,
) -> usize {
    axis_after(
        axis_after(axis_after(input, kernels.0, strides.0, pad), kernels.1, strides.1, 0),
        kernels.2,
        strides.2,
        0,
    )
}

/// Heights of the three kernels.
pub open spec fn kernel_heights(weights: XasrEncoderEmbedWeights) -> (usize, usize, usize) {
    (
        weights.conv0.weight.dims@[1],
        weights.conv4.weight.dims@[1],
        weights.conv7.weight.dims@[1],
    )
}

/// Widths of the three kernels.
pub open spec fn kernel_widths(weights: XasrEncoderEmbedWeights) -> (usize, usize, usize) {
    (
        weights.conv0.weight.dims@[0],
        weights.conv4.weight.dims@[0],
        weights.conv7.weight.dims@[0],
    )
}

/// Number of frames after the three convolutions.
pub open spec fn subsampled_frames(weights: XasrEncoderEmbedWeights, input_frames: usize) -> usize {
    axis_after_three(input_frames, kernel_heights(weights), (1, 2, 1), 0)
}

/// Number of features after the three convolutions.
pub open spec fn embed_width(weights: XasrEncoderEmbedWeights, feature_dim: usize) -> usize {
    axis_after_three(feature_dim, kernel_widths(weights), (1, 2, 2), 1)
}

/// Why the embedding has no shape.
pub open spec fn embed_shape_refusal(
    weights: XasrEncoderEmbedWeights,
    input_frames: usize,
    feature_dim: usize,
) -> Option<&'static str> {
    if weights.out_norm_log_scale@.len() == 0 {
        Some("xasr encoder embed out_norm_log_scale must not be empty")
    } else if conv2d_rank_refusal(weights.conv0) is Some {
        conv2d_rank_refusal(weights.conv0)
    } else if conv2d_rank_refusal(weights.conv4) is Some {
        conv2d_rank_refusal(weights.conv4)
    } else if conv2d_rank_refusal(weights.conv7) is Some {
        conv2d_rank_refusal(weights.conv7)
    } else if three_axis_refusal(input_frames, kernel_heights(weights), (1, 2, 1), 0) is Some {
        three_axis_refusal(input_frames, kernel_heights(weights), (1, 2, 1), 0)
    } else if three_axis_refusal(feature_dim, kernel_widths(weights), (1, 2, 2), 1) is Some {
        three_axis_refusal(feature_dim, kernel_widths(weights), (1, 2, 2), 1)
    } else if subsampled_frames(weights, input_frames) < EMBED_CACHE_FRAMES {
        Some("xasr encoder embed subsampled frames must exceed cache frames")
    } else {
        None
    }
}

/// The dimensions of the embedding of `input_frames` frames.
pub open spec fn embed_shape(
    weights: XasrEncoderEmbedWeights,
    input_frames: usize,
    feature_dim: usize,
) -> XasrEncoderEmbedGraphShape {
    XasrEncoderEmbedGraphShape {
        input_frames,
        feature_dim,
        embed_width: embed_width(weights, feature_dim),
        subsampled_frames: subsampled_frames(weights, input_frames),
        embed_frames: (subsampled_frames(weights, input_frames) - EMBED_CACHE_FRAMES) as usize,
        cache_frames: EMBED_CACHE_FRAMES,
        channels: weights.conv7.weight.dims@[3],
        output_dim: weights.out.weight.output_dim,
        out_norm_log_scale: weights.out_norm_log_scale@[0],
    }
}

/// The dimensions of the embedding of `input_frames` frames.
pub fn encoder_embed_graph_shape(
    weights: &XasrEncoderEmbedWeights,
    input_frames: usize,
    feature_dim: usize,
) -> (result: Result<XasrEncoderEmbedGraphShape, GgmlCpuGraphError>)
    ensures
        match embed_shape_refusal(*weights, input_frames, feature_dim) {
            Some(reason) => result == Err::<XasrEncoderEmbedGraphShape, GgmlCpuGraphError>(
                layer_graph::refusal_error(reason),
            ),
            None => result == Ok::<XasrEncoderEmbedGraphShape, GgmlCpuGraphError>(
                embed_shape(*weights, input_frames, feature_dim),
            ),
        },
{
    if weights.out_norm_log_scale.len() == 0 {
        return Err(
            GgmlCpuGraphError::UnsupportedInputs {
                reason: "xasr encoder embed out_norm_log_scale must not be empty",
            },
        );
    }
    let conv0 = conv2d_dims(&weights.conv0)?;
    let conv4 = conv2d_dims(&weights.conv4)?;
    let conv7 = conv2d_dims(&weights.conv7)?;
    let conv0_h = conv2d_output_dim(input_frames, conv0.1, 1, 0, 0)?;
    let conv4_h = conv2d_output_dim(conv0_h, conv4.1, 2, 0, 0)?;
    let subsampled_frames = conv2d_output_dim(conv4_h, conv7.1, 1, 0, 0)?;
    let conv0_w = conv2d_output_dim(feature_dim, conv0.0, 1, 1, 1)?;
    let conv4_w = conv2d_output_dim(conv0_w, conv4.0, 2, 0, 0)?;
    let embed_width = conv2d_output_dim(conv4_w, conv7.0, 2, 0, 0)?;
    let cache_frames = EMBED_CACHE_FRAMES;
    if subsampled_frames < cache_frames {
        return Err(
            GgmlCpuGraphError::UnsupportedInputs {
                reason: "xasr encoder embed subsampled frames must exceed cache frames",
            },
        );
    }
    Ok(
        XasrEncoderEmbedGraphShape {
            input_frames,
            feature_dim,
            embed_width,
            subsampled_frames,
            embed_frames: subsampled_frames - cache_frames,
            cache_frames,
            channels: conv7.3,
            output_dim: weights.out.weight.output_dim,
            out_norm_log_scale: weights.out_norm_log_scale[0],
        },
    )
}

/// The features and the other operands of the embedding.
#[derive(Clone, Copy, Debug)]
pub struct XasrEncoderEmbedGraphBindingTensors {
    pub features: GgmlCpuTensor,
    pub embed: XasrEncoderEmbedGraphTensors,
}

/// The tensors of the embedding and their dimensions.
#[derive(Clone, Copy, Debug)]
pub struct XasrEncoderEmbedGraphBinding {
    pub tensors: XasrEncoderEmbedGraphBindingTensors,
    pub shape: XasrEncoderEmbedGraphShape,
}

/// Why the allocation of the embedding is refused.
pub open spec fn embed_allocation_refusal(
    weights: XasrEncoderEmbedWeights,
    input_frames: usize,
    feature_dim: usize,
) -> Option<&'static str> {
    let shape = embed_shape_refusal(weights, input_frames, feature_dim);
    if shape is Some {
        shape
    } else if conv2d_rank_refusal(weights.convnext_depthwise) is Some {
        conv2d_rank_refusal(weights.convnext_depthwise)
    } else if conv2d_rank_refusal(weights.convnext_pointwise1) is Some {
        conv2d_rank_refusal(weights.convnext_pointwise1)
    } else {
        conv2d_rank_refusal(weights.convnext_pointwise2)
    }
}

/// The operations that allocate the embedding.
pub open spec fn embed_nodes(
    nodes: Seq<GraphNode>,
    weights: XasrEncoderEmbedWeights,
    shape: XasrEncoderEmbedGraphShape,
) -> Seq<GraphNode> {
    nodes.push(
        float_leaf(shape.feature_dim, shape.input_frames, 1, 1, "xasr_embed_features"),
    ).push(conv2d_leaf(weights.conv0, "xasr_embed_c0_w")).push(
        float_leaf(weights.conv0.bias.len(), 1, 1, 1, "xasr_embed_c0_b"),
    ).push(conv2d_leaf(weights.conv4, "xasr_embed_c4_w")).push(
        float_leaf(weights.conv4.bias.len(), 1, 1, 1, "xasr_embed_c4_b"),
    ).push(conv2d_leaf(weights.conv7, "xasr_embed_c7_w")).push(
        float_leaf(weights.conv7.bias.len(), 1, 1, 1, "xasr_embed_c7_b"),
    ).push(
        float_leaf(shape.embed_width, shape.cache_frames, shape.channels, 1, "xasr_embed_cache"),
    ).push(conv2d_leaf(weights.convnext_depthwise, "xasr_embed_cnx_dw_w")).push(
        float_leaf(weights.convnext_depthwise.bias.len(), 1, 1, 1, "xasr_embed_cnx_dw_b"),
    ).push(conv2d_leaf(weights.convnext_pointwise1, "xasr_embed_cnx_p1_w")).push(
        float_leaf(weights.convnext_pointwise1.bias.len(), 1, 1, 1, "xasr_embed_cnx_p1_b"),
    ).push(conv2d_leaf(weights.convnext_pointwise2, "xasr_embed_cnx_p2_w")).push(
        float_leaf(weights.convnext_pointwise2.bias.len(), 1, 1, 1, "xasr_embed_cnx_p2_b"),
    ).push(weight_leaf(weights.out.weight, "xasr_embed_out_w")).push(
        float_leaf(weights.out.bias.len(), 1, 1, 1, "xasr_embed_out_b"),
    ).push(float_leaf(weights.out_norm_bias.len(), 1, 1, 1, "xasr_embed_out_norm_b")).push(
        float_leaf(1, 1, 1, 1, "xasr_embed_swoosh_r_offset"),
    ).push(float_leaf(1, 1, 1, 1, "xasr_embed_swoosh_r_shift")).push(
        float_leaf(1, 1, 1, 1, "xasr_embed_swoosh_l_offset"),
    ).push(float_leaf(1, 1, 1, 1, "xasr_embed_swoosh_l_shift"))
}

/// The handles of an embedding allocated from `base` on.
pub open spec fn embed_handles(base: int) -> XasrEncoderEmbedGraphBindingTensors {
    XasrEncoderEmbedGraphBindingTensors {
        features: handle(base, 0),
        embed: XasrEncoderEmbedGraphTensors {
            conv0_weight: handle(base, 1),
            conv0_bias: handle(base, 2),
            conv4_weight: handle(base, 3),
            conv4_bias: handle(base, 4),
            conv7_weight: handle(base, 5),
            conv7_bias: handle(base, 6),
            embed_cache: handle(base, 7),
            convnext_depthwise_weight: handle(base, 8),
            convnext_depthwise_bias: handle(base, 9),
            convnext_pointwise1_weight: handle(base, 10),
            convnext_pointwise1_bias: handle(base, 11),
            convnext_pointwise2_weight: handle(base, 12),
            convnext_pointwise2_bias: handle(base, 13),
            out_weight: handle(base, 14),
            out_bias: handle(base, 15),
            out_norm_bias: handle(base, 16),
            swoosh_r_offset: handle(base, 17),
            swoosh_r_shift: handle(base, 18),
            swoosh_l_offset: handle(base, 19),
            swoosh_l_shift: handle(base, 20),
        },
    }
}

/// Why the uploads of the embedding are refused.
pub open spec fn embed_upload_refusal(
    shape: XasrEncoderEmbedGraphShape,
    embed_states: Option<Seq<u32>>,
) -> Option<Seq<char>> {
    let len = shape.channels * shape.cache_frames * shape.embed_width;
    if shape.channels * shape.cache_frames > usize::MAX || len > usize::MAX {
        Some("xasr encoder embed cache length overflows"@)
    } else {
        cache_refusal(len as usize, embed_states, "xasr_embed_cache"@)
    }
}

/// The uploads of the embedding, appended.
pub open spec fn embed_uploads(
    pending: Seq<EffectView>,
    tensors: XasrEncoderEmbedGraphTensors,
    weights: XasrEncoderEmbedWeights,
    shape: XasrEncoderEmbedGraphShape,
    embed_states: Option<Seq<u32>>,
) -> Seq<EffectView> {
    let len = (shape.channels * shape.cache_frames * shape.embed_width) as usize;
    let stem = conv2d_uploads(
        conv2d_uploads(
            conv2d_uploads(pending, tensors.conv0_weight, tensors.conv0_bias, weights.conv0),
            tensors.conv4_weight,
            tensors.conv4_bias,
            weights.conv4,
        ),
        tensors.conv7_weight,
        tensors.conv7_bias,
        weights.conv7,
    ).push(floats(tensors.embed_cache, cache_contents(len, embed_states), "xasr_embed_cache"@));
    let convnext = conv2d_uploads(
        conv2d_uploads(
            conv2d_uploads(
                stem,
                tensors.convnext_depthwise_weight,
                tensors.convnext_depthwise_bias,
                weights.convnext_depthwise,
            ),
            tensors.convnext_pointwise1_weight,
            tensors.convnext_pointwise1_bias,
            weights.convnext_pointwise1,
        ),
        tensors.convnext_pointwise2_weight,
        tensors.convnext_pointwise2_bias,
        weights.convnext_pointwise2,
    );
    linear_uploads(convnext, tensors.out_weight, tensors.out_bias, weights.out).push(
        floats(tensors.out_norm_bias, weights.out_norm_bias@, "xasr_embed_out_norm_b"@),
    ).push(
        floats(tensors.swoosh_r_offset, seq![SWOOSH_R_OFFSET], "xasr_embed_swoosh_r_offset"@),
    ).push(floats(tensors.swoosh_r_shift, seq![SWOOSH_R_SHIFT], "xasr_embed_swoosh_r_shift"@)).push(
        floats(tensors.swoosh_l_offset, seq![SWOOSH_L_OFFSET], "xasr_embed_swoosh_l_offset"@),
    ).push(floats(tensors.swoosh_l_shift, seq![SWOOSH_L_SHIFT], "xasr_embed_swoosh_l_shift"@))
}

impl XasrEncoderEmbedGraphBinding {
    /// The tensors belong to `graph`.
    pub open spec fn within(self, graph: GgmlCpuGraphBuilder) -> bool {
        &&& graph.has_dense(self.tensors.features)
        &&& self.tensors.embed.within(graph)
    }

    /// All leaf tensors of the embedding.
    pub open spec fn inputs(self) -> Seq<GgmlCpuTensor> {
        let embed = self.tensors.embed;
        seq![
            self.tensors.features,
            embed.conv0_weight,
            embed.conv0_bias,
            embed.conv4_weight,
            embed.conv4_bias,
            embed.conv7_weight,
            embed.conv7_bias,
            embed.embed_cache,
            embed.convnext_depthwise_weight,
            embed.convnext_depthwise_bias,
            embed.convnext_pointwise1_weight,
            embed.convnext_pointwise1_bias,
            embed.convnext_pointwise2_weight,
            embed.convnext_pointwise2_bias,
            embed.out_weight,
            embed.out_bias,
            embed.out_norm_bias,
            embed.swoosh_r_offset,
            embed.swoosh_r_shift,
            embed.swoosh_l_offset,
            embed.swoosh_l_shift,
        ]
    }

    /// Allocates the leaf tensors of the embedding.
    #[verifier::rlimit(40)]
    pub fn new(
        graph: &mut GgmlCpuGraphBuilder,
        weights: &XasrEncoderEmbedWeights,
        input_frames: usize,
        feature_dim: usize,
    ) -> (result: Result<Self, GgmlCpuGraphError>)
        ensures
            final(graph).grew_from(*old(graph)),
            match embed_allocation_refusal(*weights, input_frames, feature_dim) {
                Some(reason) => result == Err::<Self, GgmlCpuGraphError>(
                    layer_graph::refusal_error(reason),
                ),
                None => {
                    let shape = embed_shape(*weights, input_frames, feature_dim);
                    &&& result is Ok
                    &&& result->Ok_0.shape == shape
                    &&& result->Ok_0.tensors == embed_handles(old(graph)@.len() as int)
                    &&& result->Ok_0.within(*final(graph))
                    &&& allocated(
                        *old(graph),
                        *final(graph),
                        embed_nodes(old(graph).recorded(), *weights, shape),
                    )
                    &&& final(graph)@.len() == old(graph)@.len() + EMBED_LEAF_COUNT
                },
            },
    {
        let shape = encoder_embed_graph_shape(weights, input_frames, feature_dim)?;
        let features = graph.new_tensor_2d_f32(feature_dim, input_frames, "xasr_embed_features");
        let conv0_weight = allocate_conv2d_weight_tensor(graph, &weights.conv0, "xasr_embed_c0_w")?;
        let conv0_bias = graph.new_tensor_1d_f32(weights.conv0.bias.len(), "xasr_embed_c0_b");
        let conv4_weight = allocate_conv2d_weight_tensor(graph, &weights.conv4, "xasr_embed_c4_w")?;
        let conv4_bias = graph.new_tensor_1d_f32(weights.conv4.bias.len(), "xasr_embed_c4_b");
        let conv7_weight = allocate_conv2d_weight_tensor(graph, &weights.conv7, "xasr_embed_c7_w")?;
        let conv7_bias = graph.new_tensor_1d_f32(weights.conv7.bias.len(), "xasr_embed_c7_b");
        let embed_cache = graph.new_tensor_4d_f32(
            shape.embed_width,
            shape.cache_frames,
            shape.channels,
            1,
            "xasr_embed_cache",
        );
        let convnext_depthwise_weight = allocate_conv2d_weight_tensor(
            graph,
            &weights.convnext_depthwise,
            "xasr_embed_cnx_dw_w",
        )?;
        let convnext_depthwise_bias = graph.new_tensor_1d_f32(
            weights.convnext_depthwise.bias.len(),
            "xasr_embed_cnx_dw_b",
        );
        let convnext_pointwise1_weight = allocate_conv2d_weight_tensor(
            graph,
            &weights.convnext_pointwise1,
            "xasr_embed_cnx_p1_w",
        )?;
        let convnext_pointwise1_bias = graph.new_tensor_1d_f32(
            weights.convnext_pointwise1.bias.len(),
            "xasr_embed_cnx_p1_b",
        );
        let convnext_pointwise2_weight = allocate_conv2d_weight_tensor(
            graph,
            &weights.convnext_pointwise2,
            "xasr_embed_cnx_p2_w",
        )?;
        let convnext_pointwise2_bias = graph.new_tensor_1d_f32(
            weights.convnext_pointwise2.bias.len(),
            "xasr_embed_cnx_p2_b",
        );
        let out_weight = allocate_stored_linear_weight_tensor(
            graph,
            &weights.out.weight,
            "xasr_embed_out_w",
        );
        let out_bias = graph.new_tensor_1d_f32(weights.out.bias.len(), "xasr_embed_out_b");
        let out_norm_bias = graph.new_tensor_1d_f32(
            weights.out_norm_bias.len(),
            "xasr_embed_out_norm_b",
        );
        let swoosh_r_offset = graph.new_tensor_1d_f32(1, "xasr_embed_swoosh_r_offset");
        let swoosh_r_shift = graph.new_tensor_1d_f32(1, "xasr_embed_swoosh_r_shift");
        let swoosh_l_offset = graph.new_tensor_1d_f32(1, "xasr_embed_swoosh_l_offset");
        let swoosh_l_shift = graph.new_tensor_1d_f32(1, "xasr_embed_swoosh_l_shift");
        Ok(
            XasrEncoderEmbedGraphBinding {
                tensors: XasrEncoderEmbedGraphBindingTensors {
                    features,
                    embed: XasrEncoderEmbedGraphTensors {
                        conv0_weight,
                        conv0_bias,
                        conv4_weight,
                        conv4_bias,
                        conv7_weight,
                        conv7_bias,
                        embed_cache,
                        convnext_depthwise_weight,
                        convnext_depthwise_bias,
                        convnext_pointwise1_weight,
                        convnext_pointwise1_bias,
                        convnext_pointwise2_weight,
                        convnext_pointwise2_bias,
                        out_weight,
                        out_bias,
                        out_norm_bias,
                        swoosh_r_offset,
                        swoosh_r_shift,
                        swoosh_l_offset,
                        swoosh_l_shift,
                    },
                },
                shape,
            },
        )
    }

    /// Marks the leaf tensors as graph inputs.
    pub fn set_inputs(&self, graph: &mut GgmlCpuGraphBuilder)
        requires
            self.within(*old(graph)),
        ensures
            noted(*old(graph), *final(graph), input_marks(old(graph).pending(), self.inputs())),
    {
        let embed = self.tensors.embed;
        let list = vec![
            self.tensors.features,
            embed.conv0_weight,
            embed.conv0_bias,
            embed.conv4_weight,
            embed.conv4_bias,
            embed.conv7_weight,
            embed.conv7_bias,
            embed.embed_cache,
            embed.convnext_depthwise_weight,
            embed.convnext_depthwise_bias,
            embed.convnext_pointwise1_weight,
            embed.convnext_pointwise1_bias,
            embed.convnext_pointwise2_weight,
            embed.convnext_pointwise2_bias,
            embed.out_weight,
            embed.out_bias,
            embed.out_norm_bias,
            embed.swoosh_r_offset,
            embed.swoosh_r_shift,
            embed.swoosh_l_offset,
            embed.swoosh_l_shift,
        ];
        assert(list@ =~= self.inputs());
        mark_inputs(graph, &list);
    }

    /// Uploads the embedding: weights and cache.
    #[verifier::rlimit(40)]
    pub fn upload(
        &self,
        graph: &mut GgmlCpuGraphBuilder,
        weights: &XasrEncoderEmbedWeights,
        embed_states: Option<&[u32]>,
    ) -> (result: Result<(), XasrEncoderGraphError>)
        requires
            self.within(*old(graph)),
        ensures
            uploads(
                result,
                *old(graph),
                *final(graph),
                embed_upload_refusal(self.shape, float_ops::option_view(embed_states)),
                true,
                embed_uploads(
                    old(graph).pending(),
                    self.tensors.embed,
                    *weights,
                    self.shape,
                    float_ops::option_view(embed_states),
                ),
            ),
    {
        let tensors = self.tensors.embed;
        upload_conv2d_tensors(graph, tensors.conv0_weight, tensors.conv0_bias, &weights.conv0);
        upload_conv2d_tensors(graph, tensors.conv4_weight, tensors.conv4_bias, &weights.conv4);
        upload_conv2d_tensors(graph, tensors.conv7_weight, tensors.conv7_bias, &weights.conv7);
        proof {
            lemma_noted_is_partly_noted(*old(graph), *graph);
        }
        let planes = match self.shape.channels.checked_mul(self.shape.cache_frames) {
            Some(value) => value,
            None => return Err(shape_error("xasr encoder embed cache length overflows")),
        };
        let expected_cache = match planes.checked_mul(self.shape.embed_width) {
            Some(value) => value,
            None => return Err(shape_error("xasr encoder embed cache length overflows")),
        };
        upload_cache_or_zero(
            graph,
            tensors.embed_cache,
            expected_cache,
            embed_states,
            "xasr_embed_cache",
        )?;
        upload_conv2d_tensors(
            graph,
            tensors.convnext_depthwise_weight,
            tensors.convnext_depthwise_bias,
            &weights.convnext_depthwise,
        );
        upload_conv2d_tensors(
            graph,
            tensors.convnext_pointwise1_weight,
            tensors.convnext_pointwise1_bias,
            &weights.convnext_pointwise1,
        );
        upload_conv2d_tensors(
            graph,
            tensors.convnext_pointwise2_weight,
            tensors.convnext_pointwise2_bias,
            &weights.convnext_pointwise2,
        );
        upload_linear_with_bias_tensors(graph, tensors.out_weight, tensors.out_bias, &weights.out);
        upload_f32(
            graph,
            tensors.out_norm_bias,
            weights.out_norm_bias.as_slice(),
            "xasr_embed_out_norm_b",
        );
        upload_one(graph, tensors.swoosh_r_offset, SWOOSH_R_OFFSET, "xasr_embed_swoosh_r_offset");
        upload_one(graph, tensors.swoosh_r_shift, SWOOSH_R_SHIFT, "xasr_embed_swoosh_r_shift");
        upload_one(graph, tensors.swoosh_l_offset, SWOOSH_L_OFFSET, "xasr_embed_swoosh_l_offset");
        upload_one(graph, tensors.swoosh_l_shift, SWOOSH_L_SHIFT, "xasr_embed_swoosh_l_shift");
        proof {
            lemma_noted_is_partly_noted(*old(graph), *graph);
        }
        Ok(())
    }
}

/// The padding tensors of a downsampling, its dimensions, and the weights of the
/// rows of a group once it stands in a graph.
#[derive(Clone, Debug)]
pub struct XasrDownsampleGraphBinding {
    pub tensors: XasrDownsampleGraphTensors,
    pub shape: XasrDownsampleGraphShape,
    pub weights: Vec<u32>,
}

/// Why the allocation of a downsampling is refused.
pub open spec fn downsample_allocation_refusal(
    shape: XasrDownsampleGraphShape,
) -> Option<&'static str> {
    if !shape.positive() {
        Some("xasr downsample binding dimensions must be positive")
    } else if shape.padded_frames() > usize::MAX {
        Some("xasr downsample binding padded frame count overflows")
    } else {
        None
    }
}

/// The operations that allocate the padding of the channels, if it is needed.
pub open spec fn channel_pad_nodes(
    nodes: Seq<GraphNode>,
    shape: XasrDownsampleGraphShape,
) -> Seq<GraphNode> {
    if shape.target_dim > shape.input_dim {
        nodes.push(
            float_leaf(
                (shape.target_dim - shape.input_dim) as usize,
                shape.frames,
                1,
                1,
                "xasr_down_ch_pad",
            ),
        )
    } else {
        nodes
    }
}

/// The operations that allocate a downsampling.
pub open spec fn downsample_nodes(
    nodes: Seq<GraphNode>,
    shape: XasrDownsampleGraphShape,
) -> Seq<GraphNode> {
    let with_channels = channel_pad_nodes(nodes, shape);
    if shape.padded_frames() > shape.frames {
        with_channels.push(
            float_leaf(
                shape.target_dim,
                (shape.padded_frames() - shape.frames) as usize,
                1,
                1,
                "xasr_down_fr_pad",
            ),
        )
    } else {
        with_channels
    }
}

/// The handles of a downsampling allocated from `base` on.
pub open spec fn downsample_handles(
    base: int,
    shape: XasrDownsampleGraphShape,
) -> XasrDownsampleGraphTensors {
    let widened = shape.target_dim > shape.input_dim;
    XasrDownsampleGraphTensors {
        channel_pad: if widened {
            Some(handle(base, 0))
        } else {
            None
        },
        frame_pad: if shape.padded_frames() > shape.frames {
            Some(
                handle(
                    base,
                    if widened {
                        1
                    } else {
                        0
                    },
                ),
            )
        } else {
            None
        },
    }
}

/// Why the uploads of a downsampling are refused.
pub open spec fn downsample_upload_refusal(
    tensors: XasrDownsampleGraphTensors,
    shape: XasrDownsampleGraphShape,
) -> Option<Seq<char>> {
    let channel_rows = shape.target_dim - shape.input_dim;
    let frame_cols = shape.padded_frames() - shape.frames;
    if tensors.channel_pad is Some && channel_rows * shape.frames > usize::MAX {
        Some("xasr stack0 cache length overflows"@)
    } else if tensors.frame_pad is Some && shape.padded_frames() > usize::MAX {
        Some("xasr downsample binding padded frame count overflows"@)
    } else if tensors.frame_pad is Some && shape.target_dim * frame_cols > usize::MAX {
        Some("xasr stack0 cache length overflows"@)
    } else {
        None
    }
}

/// The uploads of a downsampling, appended: zeros.
pub open spec fn downsample_uploads(
    pending: Seq<EffectView>,
    binding: XasrDownsampleGraphBinding,
) -> Seq<
    EffectView,
> {
    let shape = binding.shape;
    let with_channels = if binding.tensors.channel_pad is Some {
        pending.push(
            floats(
                binding.tensors.channel_pad->0,
                zero_seq(((shape.target_dim - shape.input_dim) * shape.frames) as nat),
                "xasr_down_ch_pad"@,
            ),
        )
    } else {
        pending
    };
    if binding.tensors.frame_pad is Some {
        with_channels.push(
            floats(
                binding.tensors.frame_pad->0,
                zero_seq((shape.target_dim * (shape.padded_frames() - shape.frames)) as nat),
                "xasr_down_fr_pad"@,
            ),
        )
    } else {
        with_channels
    }
}

/// A downsampling pads to no fewer frames than it gets.
pub proof fn lemma_padded_frames_cover(shape: XasrDownsampleGraphShape)
    requires
        shape.factor > 0,
    ensures
        shape.padded_frames() >= shape.frames,
        shape.padded_frames() < shape.frames + shape.factor,
        shape.frames > 0 ==> shape.out_frames() > 0,
{
    let f = shape.factor as int;
    let n = shape.frames as int;
    vstd::arithmetic::div_mod::lemma_fundamental_div_mod(n + f - 1, f);
    vstd::arithmetic::mul::lemma_mul_is_commutative(f, (n + f - 1) / f);
    if n > 0 {
        vstd::arithmetic::div_mod::lemma_div_is_ordered(f, n + f - 1, f);
        vstd::arithmetic::div_mod::lemma_div_by_self(f);
    }
}

impl XasrDownsampleGraphBinding {
    /// All leaf tensors of the downsampling.
    pub open spec fn inputs(self) -> Seq<GgmlCpuTensor> {
        (match self.tensors.channel_pad {
            Some(tensor) => seq![tensor],
            None => Seq::empty(),
        }) + (match self.tensors.frame_pad {
            Some(tensor) => seq![tensor],
            None => Seq::empty(),
        })
    }

    /// Allocates the padding tensors that a downsampling needs.
    pub fn new(
        graph: &mut GgmlCpuGraphBuilder,
        frames: usize,
        input_dim: usize,
        target_dim: usize,
        factor: usize,
    ) -> (result: Result<Self, GgmlCpuGraphError>)
        ensures
            final(graph).grew_from(*old(graph)),
            ({
                let shape = XasrDownsampleGraphShape { frames, input_dim, target_dim, factor };
                match downsample_allocation_refusal(shape) {
                    Some(reason) => result == Err::<Self, GgmlCpuGraphError>(
                        layer_graph::refusal_error(reason),
                    ),
                    None => {
                        &&& result is Ok
                        &&& result->Ok_0.shape == shape
                        &&& result->Ok_0.tensors == downsample_handles(
                            old(graph)@.len() as int,
                            shape,
                        )
                        &&& result->Ok_0.tensors.within(*final(graph))
                        &&& allocated(
                            *old(graph),
                            *final(graph),
                            downsample_nodes(old(graph).recorded(), shape),
                        )
                    },
                }
            }),
    {
        if frames == 0 || input_dim == 0 || target_dim == 0 || factor == 0 {
            return Err(
                GgmlCpuGraphError::UnsupportedInputs {
                    reason: "xasr downsample binding dimensions must be positive",
                },
            );
        }
        let out_frames = div_ceil(frames, factor);
        let padded_frames = product_or(
            out_frames,
            factor,
            "xasr downsample binding padded frame count overflows",
        )?;
        let channel_pad = if target_dim > input_dim {
            Some(graph.new_tensor_2d_f32(target_dim - input_dim, frames, "xasr_down_ch_pad"))
        } else {
            None
        };
        let frame_pad = if padded_frames > frames {
            Some(graph.new_tensor_2d_f32(target_dim, padded_frames - frames, "xasr_down_fr_pad"))
        } else {
            None
        };
        Ok(
            XasrDownsampleGraphBinding {
                tensors: XasrDownsampleGraphTensors { channel_pad, frame_pad },
                shape: XasrDownsampleGraphShape { frames, input_dim, target_dim, factor },
                weights: Vec::new(),
            },
        )
    }

    /// All leaf tensors of the downsampling.
    fn input_tensors(&self) -> (list: Vec<GgmlCpuTensor>)
        ensures
            list@ == self.inputs(),
    {
        let mut list: Vec<GgmlCpuTensor> = Vec::new();
        if let Some(tensor) = self.tensors.channel_pad {
            list.push(tensor);
        }
        if let Some(tensor) = self.tensors.frame_pad {
            list.push(tensor);
        }
        assert(list@ =~= self.inputs());
        list
    }

    /// Marks the padding tensors as graph inputs.
    pub fn set_inputs(&self, graph: &mut GgmlCpuGraphBuilder)
        requires
            self.tensors.within(*old(graph)),
        ensures
            noted(*old(graph), *final(graph), input_marks(old(graph).pending(), self.inputs())),
    {
        let list = self.input_tensors();
        mark_inputs(graph, &list);
    }

    /// Marks the padding tensors as graph inputs and keeps them alive.
    pub fn set_persistent_inputs(&self, graph: &mut GgmlCpuGraphBuilder)
        requires
            self.tensors.within(*old(graph)),
        ensures
            noted(
                *old(graph),
                *final(graph),
                output_marks(input_marks(old(graph).pending(), self.inputs()), self.inputs()),
            ),
    {
        let list = self.input_tensors();
        mark_inputs(graph, &list);
        mark_outputs(graph, &list);
    }

    /// Uploads the zeros of the padding.
    pub fn upload(&self, graph: &mut GgmlCpuGraphBuilder) -> (result: Result<
        (),
        XasrEncoderGraphError,
    >)
        requires
            self.tensors.within(*old(graph)),
            self.tensors.channel_pad is Some ==> self.shape.target_dim >= self.shape.input_dim,
            self.tensors.frame_pad is Some ==> self.shape.factor > 0,
        ensures
            uploads(
                result,
                *old(graph),
                *final(graph),
                downsample_upload_refusal(self.tensors, self.shape),
                true,
                downsample_uploads(old(graph).pending(), *self),
            ),
    {
        proof {
            lemma_noted_is_partly_noted(*graph, *graph);
        }
        if let Some(tensor) = self.tensors.channel_pad {
            upload_zero_cache(
                graph,
                tensor,
                self.shape.target_dim - self.shape.input_dim,
                self.shape.frames,
                "xasr_down_ch_pad",
            )?;
        }
        if let Some(tensor) = self.tensors.frame_pad {
            proof {
                lemma_padded_frames_cover(self.shape);
            }
            let out_frames = div_ceil(self.shape.frames, self.shape.factor);
            let padded_frames = match out_frames.checked_mul(self.shape.factor) {
                Some(value) => value,
                None => return Err(
                    shape_error("xasr downsample binding padded frame count overflows"),
                ),
            };
            let ghost g1 = *graph;
            let padded = upload_zero_cache(
                graph,
                tensor,
                self.shape.target_dim,
                padded_frames - self.shape.frames,
                "xasr_down_fr_pad",
            );
            proof {
                encoder_upload::lemma_partly_noted_trans(*old(graph), g1, *graph);
            }
            padded?;
        }
        Ok(())
    }
}

/// The tensors that an allocation provides are those that the downsampling
/// asks for: after a successful allocation it is refused only for its logits
/// or for strides that do not fit.
pub proof fn law_allocated_downsample_has_its_padding(base: int, shape: XasrDownsampleGraphShape)
    requires
        downsample_allocation_refusal(shape) is None,
    ensures
        shape.target_dim > shape.input_dim ==> downsample_handles(base, shape).channel_pad is Some,
        shape.padded_frames() > shape.frames ==> downsample_handles(base, shape).frame_pad is Some,
{
}

} // verus!
