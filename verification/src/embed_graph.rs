//! The encoder embedding as graph operations.

use vstd::prelude::*;
use crate::graph::{GgmlCpuGraphBuilder, GgmlCpuGraphError, GgmlCpuTensor};
use crate::layer_graph;
use crate::layer_graph::{
    apply_bias_norm_graph, apply_conv2d_with_bias_graph, apply_depthwise_conv2d_with_bias_graph,
    apply_linear_graph, apply_swoosh_l_graph, apply_swoosh_r_graph, product_or, sum_or,
    XasrConv2dGraphParams,
};
use crate::layer_values;
use crate::tensor_value::{ConvParams, Shape4, TensorValue, ELEMENT_BYTES};

verus! {

/// Output channels of the first convolution.
pub const CONV0_CHANNELS: usize = 8;

/// Output channels of the second convolution.
pub const CONV4_CHANNELS: usize = 32;

/// Operands of the encoder embedding.
#[derive(Clone, Copy, Debug)]
pub struct XasrEncoderEmbedGraphTensors {
    pub conv0_weight: GgmlCpuTensor,
    pub conv0_bias: GgmlCpuTensor,
    pub conv4_weight: GgmlCpuTensor,
    pub conv4_bias: GgmlCpuTensor,
    pub conv7_weight: GgmlCpuTensor,
    pub conv7_bias: GgmlCpuTensor,
    pub embed_cache: GgmlCpuTensor,
    pub convnext_depthwise_weight: GgmlCpuTensor,
    pub convnext_depthwise_bias: GgmlCpuTensor,
    pub convnext_pointwise1_weight: GgmlCpuTensor,
    pub convnext_pointwise1_bias: GgmlCpuTensor,
    pub convnext_pointwise2_weight: GgmlCpuTensor,
    pub convnext_pointwise2_bias: GgmlCpuTensor,
    pub out_weight: GgmlCpuTensor,
    pub out_bias: GgmlCpuTensor,
    pub out_norm_bias: GgmlCpuTensor,
    pub swoosh_r_offset: GgmlCpuTensor,
    pub swoosh_r_shift: GgmlCpuTensor,
    pub swoosh_l_offset: GgmlCpuTensor,
    pub swoosh_l_shift: GgmlCpuTensor,
}

/// Dimensions of the encoder embedding.
#[derive(Clone, Copy, Debug)]
pub struct XasrEncoderEmbedGraphShape {
    pub input_frames: usize,
    pub feature_dim: usize,
    pub embed_width: usize,
    pub subsampled_frames: usize,
    pub embed_frames: usize,
    pub cache_frames: usize,
    pub channels: usize,
    pub output_dim: usize,
    pub out_norm_log_scale: u32,
}

/// Result of the encoder embedding.
#[derive(Clone, Copy, Debug)]
pub struct XasrEncoderEmbedGraphOutput {
    pub rows: GgmlCpuTensor,
    pub new_embed_states: GgmlCpuTensor,
}

/// Strides and paddings without dilation.
pub open spec fn undilated(stride_w: usize, stride_h: usize, pad_w: usize) -> ConvParams {
    ConvParams { stride_w, stride_h, pad_w, pad_h: 0, dilation_w: 1, dilation_h: 1 }
}

impl XasrEncoderEmbedGraphShape {
    pub open spec fn positive(self) -> bool {
        &&& self.feature_dim > 0
        &&& self.input_frames > 0
        &&& self.embed_width > 0
        &&& self.subsampled_frames > 0
        &&& self.embed_frames > 0
        &&& self.cache_frames > 0
        &&& self.channels > 0
        &&& self.output_dim > 0
    }

    /// Bytes between rows of the subsampled state.
    pub open spec fn nb1(self) -> int {
        self.embed_width * ELEMENT_BYTES
    }

    /// Rows `first..first + count` of each of the channels of a tensor with
    /// `height` rows in each.
    pub open spec fn rows_of(
        self,
        x: TensorValue,
        height: int,
        first: int,
        count: int,
    ) -> TensorValue {
        x.strided(
            self.embed_width as int,
            count,
            self.channels as int,
            1,
            self.nb1(),
            height * self.nb1(),
            self.channels * (height * self.nb1()),
            first * self.nb1(),
        ).cont()
    }
}

impl XasrEncoderEmbedGraphTensors {
    /// The tensors belong to `graph`.
    pub open spec fn within(self, graph: GgmlCpuGraphBuilder) -> bool {
        &&& graph.has_dense(self.conv0_weight)
        &&& graph.has_dense(self.conv0_bias)
        &&& graph.has_dense(self.conv4_weight)
        &&& graph.has_dense(self.conv4_bias)
        &&& graph.has_dense(self.conv7_weight)
        &&& graph.has_dense(self.conv7_bias)
        &&& graph.has_dense(self.embed_cache)
        &&& graph.has_dense(self.convnext_depthwise_weight)
        &&& graph.has_dense(self.convnext_depthwise_bias)
        &&& graph.has_dense(self.convnext_pointwise1_weight)
        &&& graph.has_dense(self.convnext_pointwise1_bias)
        &&& graph.has_dense(self.convnext_pointwise2_weight)
        &&& graph.has_dense(self.convnext_pointwise2_bias)
        &&& graph.has_dense(self.out_weight)
        &&& graph.has_dense(self.out_bias)
        &&& graph.has_dense(self.out_norm_bias)
        &&& graph.has_dense(self.swoosh_r_offset)
        &&& graph.has_dense(self.swoosh_r_shift)
        &&& graph.has_dense(self.swoosh_l_offset)
        &&& graph.has_dense(self.swoosh_l_shift)
    }

    pub open spec fn swoosh_r(self, graph: GgmlCpuGraphBuilder, x: TensorValue) -> TensorValue {
        layer_values::swoosh(x, graph.value(self.swoosh_r_offset), graph.value(self.swoosh_r_shift))
    }

    /// The features after three convolutions that subsample them.
    pub open spec fn subsampled(
        self,
        graph: GgmlCpuGraphBuilder,
        features: TensorValue,
        shape: XasrEncoderEmbedGraphShape,
    ) -> TensorValue {
        let input = features.reshaped(shape.feature_dim as int, shape.input_frames as int, 1, 1);
        let first = self.swoosh_r(
            graph,
            layer_values::conv_with_bias(
                graph.value(self.conv0_weight),
                input,
                graph.value(self.conv0_bias),
                CONV0_CHANNELS as int,
                undilated(1, 1, 1),
            ),
        );
        let second = self.swoosh_r(
            graph,
            layer_values::conv_with_bias(
                graph.value(self.conv4_weight),
                first,
                graph.value(self.conv4_bias),
                CONV4_CHANNELS as int,
                undilated(2, 2, 0),
            ),
        );
        self.swoosh_r(
            graph,
            layer_values::conv_with_bias(
                graph.value(self.conv7_weight),
                second,
                graph.value(self.conv7_bias),
                shape.channels as int,
                undilated(2, 1, 0),
            ),
        ).cont()
    }

    /// The cached rows followed by the subsampled ones.
    pub open spec fn with_cache(
        self,
        graph: GgmlCpuGraphBuilder,
        state: TensorValue,
    ) -> TensorValue {
        graph.value(self.embed_cache).concat(state, 1)
    }

    /// The ConvNeXt block without its residual.
    pub open spec fn convnext(
        self,
        graph: GgmlCpuGraphBuilder,
        state: TensorValue,
        shape: XasrEncoderEmbedGraphShape,
    ) -> TensorValue {
        let depthwise = layer_values::depthwise_with_bias(
            graph.value(self.convnext_depthwise_weight),
            self.with_cache(graph, state),
            graph.value(self.convnext_depthwise_bias),
            shape.channels as int,
            undilated(1, 1, 3),
        );
        let widened = layer_values::conv_with_bias(
            graph.value(self.convnext_pointwise1_weight),
            depthwise,
            graph.value(self.convnext_pointwise1_bias),
            shape.channels * 3,
            undilated(1, 1, 0),
        );
        layer_values::conv_with_bias(
            graph.value(self.convnext_pointwise2_weight),
            layer_values::swoosh(
                widened,
                graph.value(self.swoosh_l_offset),
                graph.value(self.swoosh_l_shift),
            ),
            graph.value(self.convnext_pointwise2_bias),
            shape.channels as int,
            undilated(1, 1, 0),
        )
    }

    /// The embedding rows of the features.
    pub open spec fn applied(
        self,
        graph: GgmlCpuGraphBuilder,
        features: TensorValue,
        shape: XasrEncoderEmbedGraphShape,
    ) -> TensorValue {
        let state = self.subsampled(graph, features, shape);
        let residual = shape.rows_of(
            state,
            shape.subsampled_frames as int,
            0,
            shape.embed_frames as int,
        );
        let flattened = residual.plus(self.convnext(graph, state, shape)).planes_to_rows().cont()
            .reshaped(shape.embed_width * shape.channels, shape.embed_frames as int, 1, 1);
        layer_values::bias_norm(
            layer_values::linear(
                graph.value(self.out_weight),
                flattened,
                graph.value(self.out_bias),
            ),
            graph.value(self.out_norm_bias),
            shape.out_norm_log_scale,
        )
    }

    /// The rows that the next chunk finds in the cache: the last
    /// `cache_frames` before the right context.
    pub open spec fn next_cache(
        self,
        graph: GgmlCpuGraphBuilder,
        features: TensorValue,
        shape: XasrEncoderEmbedGraphShape,
    ) -> TensorValue {
        shape.rows_of(
            self.with_cache(graph, self.subsampled(graph, features, shape)),
            shape.cache_frames + shape.subsampled_frames,
            shape.subsampled_frames - shape.cache_frames,
            shape.cache_frames as int,
        )
    }
}

/// Why the encoder embedding is refused.
pub open spec fn embed_refusal(shape: XasrEncoderEmbedGraphShape) -> Option<&'static str> {
    let nb1 = shape.nb1();
    let height = shape.cache_frames + shape.subsampled_frames;
    if !shape.positive() {
        Some("xasr encoder embed dimensions must be positive")
    } else if shape.subsampled_frames != shape.embed_frames + shape.cache_frames {
        Some("xasr encoder embed subsampled_frames must equal embed_frames + cache_frames")
    } else if nb1 > usize::MAX {
        Some("xasr encoder embed state row stride overflows")
    } else if shape.subsampled_frames * nb1 > usize::MAX {
        Some("xasr encoder embed state plane stride overflows")
    } else if shape.channels * (shape.subsampled_frames * nb1) > usize::MAX {
        Some("xasr encoder embed state hyperplane stride overflows")
    } else if height > usize::MAX {
        Some("xasr encoder embed concat height overflows")
    } else if height * nb1 > usize::MAX {
        Some("xasr encoder embed concat plane stride overflows")
    } else if shape.channels * (height * nb1) > usize::MAX {
        Some("xasr encoder embed concat hyperplane stride overflows")
    } else {
        layer_graph::bias_norm_refusal(shape.out_norm_log_scale)
    }
}

/// Bounds that the checked strides imply.
proof fn lemma_embed_bounds(shape: XasrEncoderEmbedGraphShape)
    requires
        shape.positive(),
        shape.subsampled_frames == shape.embed_frames + shape.cache_frames,
        shape.channels * (shape.subsampled_frames * shape.nb1()) <= usize::MAX,
    ensures
        (shape.subsampled_frames - shape.cache_frames) * shape.nb1() <= shape.subsampled_frames
            * shape.nb1(),
        shape.channels * 3 <= usize::MAX,
        shape.embed_width * shape.channels <= usize::MAX,
{
    let w = shape.embed_width as int;
    let c = shape.channels as int;
    let f = shape.subsampled_frames as int;
    let nb1 = shape.nb1();
    assert((f - shape.cache_frames) * nb1 <= f * nb1 && c * 3 <= c * (f * nb1) && w * c <= c * (f
        * nb1)) by (nonlinear_arith)
        requires
            nb1 == w * 4,
            w >= 1,
            c >= 1,
            f >= 1,
            f >= shape.cache_frames >= 0,
    ;
}

/// Adds the encoder embedding.
#[verifier::rlimit(40)]
pub fn apply_encoder_embed_graph(
    graph: &mut GgmlCpuGraphBuilder,
    features: GgmlCpuTensor,
    tensors: XasrEncoderEmbedGraphTensors,
    shape: XasrEncoderEmbedGraphShape,
) -> (result: Result<XasrEncoderEmbedGraphOutput, GgmlCpuGraphError>)
    requires
        old(graph).has_dense(features),
        tensors.within(*old(graph)),
        shape.embed_frames + shape.cache_frames <= usize::MAX,
    ensures
        final(graph).grew_from(*old(graph)),
        match embed_refusal(shape) {
            Some(reason) => result == Err::<XasrEncoderEmbedGraphOutput, GgmlCpuGraphError>(
                layer_graph::refusal_error(reason),
            ),
            None => {
                &&& result is Ok
                &&& final(graph).has_dense(result->Ok_0.rows)
                &&& final(graph).value(result->Ok_0.rows) == tensors.applied(
                    *old(graph),
                    old(graph).value(features),
                    shape,
                )
                &&& final(graph).has_dense(result->Ok_0.new_embed_states)
                &&& final(graph).value(result->Ok_0.new_embed_states) == tensors.next_cache(
                    *old(graph),
                    old(graph).value(features),
                    shape,
                )
            },
        },
{
    if shape.feature_dim == 0 || shape.input_frames == 0 || shape.embed_width == 0
        || shape.subsampled_frames == 0 || shape.embed_frames == 0 || shape.cache_frames == 0
        || shape.channels == 0 || shape.output_dim == 0 {
        return Err(
            GgmlCpuGraphError::UnsupportedInputs {
                reason: "xasr encoder embed dimensions must be positive",
            },
        );
    }
    if shape.subsampled_frames != shape.embed_frames + shape.cache_frames {
        return Err(
            GgmlCpuGraphError::UnsupportedInputs {
                reason:
                    "xasr encoder embed subsampled_frames must equal embed_frames + cache_frames",
            },
        );
    }
    let ghost x = old(graph).value(features);
    let input = graph.reshape_4d(features, shape.feature_dim, shape.input_frames, 1, 1);
    let state = apply_conv2d_with_bias_graph(
        graph,
        tensors.conv0_weight,
        input,
        tensors.conv0_bias,
        CONV0_CHANNELS,
        XasrConv2dGraphParams { stride_w: 1, stride_h: 1, pad_w: 1, pad_h: 0 },
    );
    let state = apply_swoosh_r_graph(graph, state, tensors.swoosh_r_offset, tensors.swoosh_r_shift);
    let state = apply_conv2d_with_bias_graph(
        graph,
        tensors.conv4_weight,
        state,
        tensors.conv4_bias,
        CONV4_CHANNELS,
        XasrConv2dGraphParams { stride_w: 2, stride_h: 2, pad_w: 0, pad_h: 0 },
    );
    let state = apply_swoosh_r_graph(graph, state, tensors.swoosh_r_offset, tensors.swoosh_r_shift);
    let state = apply_conv2d_with_bias_graph(
        graph,
        tensors.conv7_weight,
        state,
        tensors.conv7_bias,
        shape.channels,
        XasrConv2dGraphParams { stride_w: 2, stride_h: 1, pad_w: 0, pad_h: 0 },
    );
    let state = apply_swoosh_r_graph(graph, state, tensors.swoosh_r_offset, tensors.swoosh_r_shift);
    let state = graph.cont(state);
    assert(graph.value(state) == tensors.subsampled(*old(graph), x, shape));
    let state_nb1 = product_or(
        shape.embed_width,
        ELEMENT_BYTES,
        "xasr encoder embed state row stride overflows",
    )?;
    let state_nb2 = product_or(
        shape.subsampled_frames,
        state_nb1,
        "xasr encoder embed state plane stride overflows",
    )?;
    let state_nb3 = product_or(
        shape.channels,
        state_nb2,
        "xasr encoder embed state hyperplane stride overflows",
    )?;
    proof {
        lemma_embed_bounds(shape);
    }
    let residual = graph.view_4d(
        state,
        Shape4 { ne0: shape.embed_width, ne1: shape.embed_frames, ne2: shape.channels, ne3: 1 },
        state_nb1,
        state_nb2,
        state_nb3,
        0,
    );
    let residual = graph.cont(residual);
    let concat = graph.concat(tensors.embed_cache, state, 1);
    let concat_h = sum_or(
        shape.cache_frames,
        shape.subsampled_frames,
        "xasr encoder embed concat height overflows",
    )?;
    let concat_nb2 = product_or(
        concat_h,
        state_nb1,
        "xasr encoder embed concat plane stride overflows",
    )?;
    let concat_nb3 = product_or(
        shape.channels,
        concat_nb2,
        "xasr encoder embed concat hyperplane stride overflows",
    )?;
    let cache_offset = product_or(
        shape.subsampled_frames - shape.cache_frames,
        state_nb1,
        "xasr encoder embed cache offset overflows",
    )?;
    let new_embed_states = graph.view_4d(
        concat,
        Shape4 { ne0: shape.embed_width, ne1: shape.cache_frames, ne2: shape.channels, ne3: 1 },
        state_nb1,
        concat_nb2,
        concat_nb3,
        cache_offset,
    );
    let new_embed_states = graph.cont(new_embed_states);
    assert(graph.value(new_embed_states) == tensors.next_cache(*old(graph), x, shape));
    let convnext = apply_depthwise_conv2d_with_bias_graph(
        graph,
        tensors.convnext_depthwise_weight,
        concat,
        tensors.convnext_depthwise_bias,
        shape.channels,
        XasrConv2dGraphParams { stride_w: 1, stride_h: 1, pad_w: 3, pad_h: 0 },
    );
    let convnext = apply_conv2d_with_bias_graph(
        graph,
        tensors.convnext_pointwise1_weight,
        convnext,
        tensors.convnext_pointwise1_bias,
        shape.channels * 3,
        XasrConv2dGraphParams { stride_w: 1, stride_h: 1, pad_w: 0, pad_h: 0 },
    );
    let convnext = apply_swoosh_l_graph(
        graph,
        convnext,
        tensors.swoosh_l_offset,
        tensors.swoosh_l_shift,
    );
    let convnext = apply_conv2d_with_bias_graph(
        graph,
        tensors.convnext_pointwise2_weight,
        convnext,
        tensors.convnext_pointwise2_bias,
        shape.channels,
        XasrConv2dGraphParams { stride_w: 1, stride_h: 1, pad_w: 0, pad_h: 0 },
    );
    assert(graph.value(convnext) == tensors.convnext(
        *old(graph),
        tensors.subsampled(*old(graph), x, shape),
        shape,
    ));
    let state = graph.add(residual, convnext);
    let state = graph.permute_planes_to_rows(state);
    let state = graph.cont(state);
    let projection_input = graph.reshape_2d(
        state,
        shape.embed_width * shape.channels,
        shape.embed_frames,
    );
    let rows = apply_linear_graph(graph, tensors.out_weight, projection_input, tensors.out_bias);
    let rows = apply_bias_norm_graph(
        graph,
        rows,
        tensors.out_norm_bias,
        shape.out_norm_log_scale,
    )?;
    Ok(XasrEncoderEmbedGraphOutput { rows, new_embed_states })
}

} // verus!
