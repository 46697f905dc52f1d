//! Whole Zipformer layers and the encoder embedding as graph operations.

use vstd::prelude::*;
use crate::attention_graph;
use crate::attention_graph::{
    apply_nonlin_attention_value_graph, apply_self_attention_value_graph,
    apply_self_attention_weights_graph, AttentionBlockValues, XasrNonlinAttentionGraphShape,
    XasrNonlinAttentionGraphTensors, XasrSelfAttentionGraphShape, XasrSelfAttentionGraphTensors,
    XasrSelfAttentionWeightsGraphShape, XasrSelfAttentionWeightsGraphTensors,
};
use crate::graph::{GgmlCpuGraphBuilder, GgmlCpuGraphError, GgmlCpuTensor};
use crate::layer_graph;
use crate::layer_graph::{
    apply_bias_norm_graph, apply_bypass_graph, apply_convolution_module_graph,
    apply_feed_forward_graph, XasrConvolutionModuleGraphShape, XasrConvolutionModuleGraphTensors,
    XasrFeedForwardGraphTensors,
};
use crate::layer_values;
use crate::tensor_value::TensorValue;

verus! {

/// Operands of the second half of a layer.
#[derive(Clone, Copy, Debug)]
pub struct XasrLayerTailGraphTensors {
    pub conv_module2: XasrConvolutionModuleGraphTensors,
    pub feed_forward3: XasrFeedForwardGraphTensors,
    pub norm_bias: GgmlCpuTensor,
    pub bypass_scale: GgmlCpuTensor,
}

/// Dimensions of the second half of a layer.
#[derive(Clone, Copy, Debug)]
pub struct XasrLayerTailGraphShape {
    pub dim: usize,
    pub frames: usize,
    pub conv_cache_len: usize,
    pub conv_causal_kernel_len: usize,
    pub conv_chunk_kernel_len: usize,
    pub norm_log_scale: u32,
}

/// Result of the second half of a layer.
#[derive(Clone, Copy, Debug)]
pub struct XasrLayerTailGraphOutput {
    pub rows: GgmlCpuTensor,
    pub new_conv2_cache: GgmlCpuTensor,
}

impl XasrLayerTailGraphShape {
    pub open spec fn conv(self) -> XasrConvolutionModuleGraphShape {
        XasrConvolutionModuleGraphShape {
            dim: self.dim,
            frames: self.frames,
            cache_len: self.conv_cache_len,
            causal_kernel_len: self.conv_causal_kernel_len,
            chunk_kernel_len: self.conv_chunk_kernel_len,
        }
    }
}

impl XasrLayerTailGraphTensors {
    /// The tensors belong to `graph`.
    pub open spec fn within(self, graph: GgmlCpuGraphBuilder) -> bool {
        &&& self.conv_module2.within(graph)
        &&& self.feed_forward3.within(graph)
        &&& graph.has_dense(self.norm_bias)
        &&& graph.has_dense(self.bypass_scale)
    }

    /// Convolution, feed-forward, norm and bypass.
    #[verifier::opaque]
    pub open spec fn applied(
        self,
        graph: GgmlCpuGraphBuilder,
        original: TensorValue,
        x: TensorValue,
        shape: XasrLayerTailGraphShape,
    ) -> TensorValue {
        let convolved = x.plus(self.conv_module2.applied(graph, x, shape.conv()));
        let fed = convolved.plus(self.feed_forward3.applied(graph, convolved));
        layer_values::bypass(
            original,
            layer_values::bias_norm(fed, graph.value(self.norm_bias), shape.norm_log_scale),
            graph.value(self.bypass_scale),
        )
    }

    /// What the second half computes does not change while the graph grows.
    pub proof fn lemma_applied_in_grown(
        self,
        before: GgmlCpuGraphBuilder,
        after: GgmlCpuGraphBuilder,
        original: TensorValue,
        x: TensorValue,
        shape: XasrLayerTailGraphShape,
    )
        requires
            self.within(before),
            after.builds_on(before),
        ensures
            self.within(after),
            self.applied(after, original, x, shape) == self.applied(before, original, x, shape),
    {
        reveal(XasrLayerTailGraphTensors::applied);
        self.conv_module2.lemma_applied_in_grown(before, after, x, shape.conv());
        let convolved = x.plus(self.conv_module2.applied(before, x, shape.conv()));
        self.feed_forward3.lemma_applied_in_grown(before, after, convolved);
    }
}

/// Why the second half of a layer is refused.
pub open spec fn layer_tail_refusal(shape: XasrLayerTailGraphShape) -> Option<&'static str> {
    let conv = layer_graph::convolution_module_refusal(shape.conv());
    if conv is Some {
        conv
    } else {
        layer_graph::bias_norm_refusal(shape.norm_log_scale)
    }
}

/// Adds the second half of a layer.
pub fn apply_layer_tail_graph(
    graph: &mut GgmlCpuGraphBuilder,
    original_rows: GgmlCpuTensor,
    add18_rows: GgmlCpuTensor,
    tensors: XasrLayerTailGraphTensors,
    shape: XasrLayerTailGraphShape,
) -> (result: Result<XasrLayerTailGraphOutput, GgmlCpuGraphError>)
    requires
        old(graph).has(original_rows),
        old(graph).has(add18_rows),
        tensors.within(*old(graph)),
    ensures
        final(graph).grew_from(*old(graph)),
        match layer_tail_refusal(shape) {
            Some(reason) => result == Err::<XasrLayerTailGraphOutput, GgmlCpuGraphError>(
                layer_graph::refusal_error(reason),
            ),
            None => result is Ok && attention_graph::builds_with_cache(
                *old(graph),
                *final(graph),
                result->Ok_0.rows,
                result->Ok_0.new_conv2_cache,
                tensors.applied(
                    *old(graph),
                    old(graph).value(original_rows),
                    old(graph).value(add18_rows),
                    shape,
                ),
                tensors.conv_module2.next_cache(
                    *old(graph),
                    old(graph).value(add18_rows),
                    shape.conv(),
                ),
            ),
        },
{
    proof {
        reveal(XasrLayerTailGraphTensors::applied);
    }
    let conv2 = apply_convolution_module_graph(
        graph,
        add18_rows,
        tensors.conv_module2,
        XasrConvolutionModuleGraphShape {
            dim: shape.dim,
            frames: shape.frames,
            cache_len: shape.conv_cache_len,
            causal_kernel_len: shape.conv_causal_kernel_len,
            chunk_kernel_len: shape.conv_chunk_kernel_len,
        },
    )?;
    let add23 = graph.add(add18_rows, conv2.rows);
    proof {
        tensors.feed_forward3.lemma_applied_in_grown(*old(graph), *graph, graph.value(add23));
    }
    let ff3 = apply_feed_forward_graph(graph, add23, tensors.feed_forward3);
    let add24 = graph.add(add23, ff3);
    let norm = apply_bias_norm_graph(graph, add24, tensors.norm_bias, shape.norm_log_scale)?;
    let rows = apply_bypass_graph(graph, original_rows, norm, tensors.bypass_scale);
    Ok(XasrLayerTailGraphOutput { rows, new_conv2_cache: conv2.new_cache })
}

/// Operands of the first half of a layer.
#[derive(Clone, Copy, Debug)]
pub struct XasrLayerHeadGraphTensors {
    pub feed_forward1: XasrFeedForwardGraphTensors,
    pub attention_weights: XasrSelfAttentionWeightsGraphTensors,
    pub nonlin_cache: GgmlCpuTensor,
    pub nonlin_in_proj_weight: GgmlCpuTensor,
    pub nonlin_in_proj_bias: GgmlCpuTensor,
    pub nonlin_out_proj_weight: GgmlCpuTensor,
    pub nonlin_out_proj_bias: GgmlCpuTensor,
    pub self1_cache: GgmlCpuTensor,
    pub self1_in_proj_weight: GgmlCpuTensor,
    pub self1_in_proj_bias: GgmlCpuTensor,
    pub self1_out_proj_weight: GgmlCpuTensor,
    pub self1_out_proj_bias: GgmlCpuTensor,
    pub conv_module1: XasrConvolutionModuleGraphTensors,
    pub feed_forward2: XasrFeedForwardGraphTensors,
    pub bypass_mid_scale: GgmlCpuTensor,
}

/// Dimensions of the first half of a layer.
#[derive(Clone, Copy, Debug)]
pub struct XasrLayerHeadGraphShape {
    pub dim: usize,
    pub frames: usize,
    pub left_context_len: usize,
    pub num_heads: usize,
    pub query_head_dim: usize,
    pub pos_dim: usize,
    pub pos_output_dim: usize,
    pub nonlin_hidden_dim: usize,
    pub self1_value_dim: usize,
    pub conv1_cache_len: usize,
    pub conv1_causal_kernel_len: usize,
    pub conv1_chunk_kernel_len: usize,
}

/// Result of the first half of a layer.
#[derive(Clone, Copy, Debug)]
pub struct XasrLayerHeadGraphOutput {
    pub rows: GgmlCpuTensor,
    pub attention_weights: GgmlCpuTensor,
    pub new_cached_key: GgmlCpuTensor,
    pub new_cached_nonlin_attention: GgmlCpuTensor,
    pub new_cached_val1: GgmlCpuTensor,
    pub new_cached_conv1: GgmlCpuTensor,
}

impl XasrLayerHeadGraphShape {
    pub open spec fn attention(self) -> XasrSelfAttentionWeightsGraphShape {
        XasrSelfAttentionWeightsGraphShape {
            dim: self.dim,
            frames: self.frames,
            left_context_len: self.left_context_len,
            num_heads: self.num_heads,
            query_head_dim: self.query_head_dim,
            pos_dim: self.pos_dim,
            pos_output_dim: self.pos_output_dim,
        }
    }

    /// The nonlinear attention uses the first head alone.
    pub open spec fn nonlin(self) -> XasrNonlinAttentionGraphShape {
        XasrNonlinAttentionGraphShape {
            dim: self.dim,
            frames: self.frames,
            left_context_len: self.left_context_len,
            num_heads: 1,
            hidden_dim: self.nonlin_hidden_dim,
        }
    }

    /// A self-attention block with values of this width.
    pub open spec fn self_attention(self, value_dim: usize) -> XasrSelfAttentionGraphShape {
        XasrSelfAttentionGraphShape {
            dim: self.dim,
            frames: self.frames,
            left_context_len: self.left_context_len,
            num_heads: self.num_heads,
            value_dim,
        }
    }

    pub open spec fn conv(self) -> XasrConvolutionModuleGraphShape {
        XasrConvolutionModuleGraphShape {
            dim: self.dim,
            frames: self.frames,
            cache_len: self.conv1_cache_len,
            causal_kernel_len: self.conv1_causal_kernel_len,
            chunk_kernel_len: self.conv1_chunk_kernel_len,
        }
    }
}

/// The values of a layer's first half between its blocks.
pub struct LayerHeadValues {
    pub after_feed_forward: TensorValue,
    pub attention: TensorValue,
    pub after_nonlin: TensorValue,
    pub after_attention: TensorValue,
    pub rows: TensorValue,
    pub new_cached_key: TensorValue,
    pub new_cached_nonlin_attention: TensorValue,
    pub new_cached_val1: TensorValue,
    pub new_cached_conv1: TensorValue,
}

impl XasrLayerHeadGraphTensors {
    /// The tensors belong to `graph`.
    pub open spec fn within(self, graph: GgmlCpuGraphBuilder) -> bool {
        &&& self.feed_forward1.within(graph)
        &&& self.attention_weights.within(graph)
        &&& graph.has_dense(self.nonlin_cache)
        &&& graph.has_dense(self.nonlin_in_proj_weight)
        &&& graph.has_dense(self.nonlin_in_proj_bias)
        &&& graph.has_dense(self.nonlin_out_proj_weight)
        &&& graph.has_dense(self.nonlin_out_proj_bias)
        &&& graph.has_dense(self.self1_cache)
        &&& graph.has_dense(self.self1_in_proj_weight)
        &&& graph.has_dense(self.self1_in_proj_bias)
        &&& graph.has_dense(self.self1_out_proj_weight)
        &&& graph.has_dense(self.self1_out_proj_bias)
        &&& self.conv_module1.within(graph)
        &&& self.feed_forward2.within(graph)
        &&& graph.has_dense(self.bypass_mid_scale)
    }

    pub open spec fn nonlin_weights(self, graph: GgmlCpuGraphBuilder) -> AttentionBlockValues {
        AttentionBlockValues {
            cache: graph.value(self.nonlin_cache),
            in_weight: graph.value(self.nonlin_in_proj_weight),
            in_bias: graph.value(self.nonlin_in_proj_bias),
            out_weight: graph.value(self.nonlin_out_proj_weight),
            out_bias: graph.value(self.nonlin_out_proj_bias),
        }
    }

    pub open spec fn self1_weights(self, graph: GgmlCpuGraphBuilder) -> AttentionBlockValues {
        AttentionBlockValues {
            cache: graph.value(self.self1_cache),
            in_weight: graph.value(self.self1_in_proj_weight),
            in_bias: graph.value(self.self1_in_proj_bias),
            out_weight: graph.value(self.self1_out_proj_weight),
            out_bias: graph.value(self.self1_out_proj_bias),
        }
    }

    /// Feed-forward, nonlinear attention, self-attention, convolution,
    /// feed-forward, each added to its input, and a bypass around them all.
    #[verifier::opaque]
    pub open spec fn applied(
        self,
        graph: GgmlCpuGraphBuilder,
        x: TensorValue,
        shape: XasrLayerHeadGraphShape,
    ) -> LayerHeadValues {
        let after_feed_forward = x.plus(self.feed_forward1.applied(graph, x));
        let attention = self.attention_weights.applied(graph, x, shape.attention());
        let nonlin = attention_graph::nonlin_attention_block(
            self.nonlin_weights(graph),
            attention,
            after_feed_forward,
            shape.nonlin(),
        );
        let after_nonlin = after_feed_forward.plus(nonlin.rows);
        let self1 = attention_graph::self_attention_block(
            self.self1_weights(graph),
            attention,
            after_nonlin,
            shape.self_attention(shape.self1_value_dim),
        );
        let after_attention = after_nonlin.plus(self1.rows);
        let convolved = after_attention.plus(
            self.conv_module1.applied(graph, after_attention, shape.conv()),
        );
        let fed = convolved.plus(self.feed_forward2.applied(graph, convolved));
        LayerHeadValues {
            after_feed_forward,
            attention,
            after_nonlin,
            after_attention,
            rows: layer_values::bypass(x, fed, graph.value(self.bypass_mid_scale)),
            new_cached_key: self.attention_weights.next_cache(graph, x, shape.attention()),
            new_cached_nonlin_attention: nonlin.new_cache,
            new_cached_val1: self1.new_cache,
            new_cached_conv1: self.conv_module1.next_cache(graph, after_attention, shape.conv()),
        }
    }

    /// What the first half computes does not change while the graph grows.
    pub proof fn lemma_applied_in_grown(
        self,
        before: GgmlCpuGraphBuilder,
        after: GgmlCpuGraphBuilder,
        x: TensorValue,
        shape: XasrLayerHeadGraphShape,
    )
        requires
            self.within(before),
            after.builds_on(before),
        ensures
            self.within(after),
            self.applied(after, x, shape) == self.applied(before, x, shape),
    {
        reveal(XasrLayerHeadGraphTensors::applied);
        self.feed_forward1.lemma_applied_in_grown(before, after, x);
        self.attention_weights.lemma_applied_in_grown(before, after, x, shape.attention());
        let v = self.applied(before, x, shape);
        self.conv_module1.lemma_applied_in_grown(before, after, v.after_attention, shape.conv());
        let convolved = v.after_attention.plus(
            self.conv_module1.applied(before, v.after_attention, shape.conv()),
        );
        self.feed_forward2.lemma_applied_in_grown(before, after, convolved);
    }
}

/// Why the first half of a layer is refused.
pub open spec fn layer_head_refusal(shape: XasrLayerHeadGraphShape) -> Option<&'static str> {
    let attention = attention_graph::attention_weights_refusal(shape.attention());
    let nonlin = attention_graph::nonlin_attention_refusal(shape.nonlin());
    let self1 = attention_graph::self_attention_refusal(
        shape.self_attention(shape.self1_value_dim),
    );
    if attention is Some {
        attention
    } else if nonlin is Some {
        nonlin
    } else if self1 is Some {
        self1
    } else {
        layer_graph::convolution_module_refusal(shape.conv())
    }
}

/// Adds the first half of a layer.
#[verifier::rlimit(60)]
pub fn apply_layer_head_graph(
    graph: &mut GgmlCpuGraphBuilder,
    input: GgmlCpuTensor,
    tensors: XasrLayerHeadGraphTensors,
    shape: XasrLayerHeadGraphShape,
) -> (result: Result<XasrLayerHeadGraphOutput, GgmlCpuGraphError>)
    requires
        old(graph).has(input),
        tensors.within(*old(graph)),
    ensures
        final(graph).grew_from(*old(graph)),
        match layer_head_refusal(shape) {
            Some(reason) => result == Err::<XasrLayerHeadGraphOutput, GgmlCpuGraphError>(
                layer_graph::refusal_error(reason),
            ),
            None => {
                let expected = tensors.applied(*old(graph), old(graph).value(input), shape);
                &&& result is Ok
                &&& final(graph).has_dense(result->Ok_0.rows)
                &&& final(graph).value(result->Ok_0.rows) == expected.rows
                &&& final(graph).has_dense(result->Ok_0.attention_weights)
                &&& final(graph).value(result->Ok_0.attention_weights) == expected.attention
                &&& final(graph).has_dense(result->Ok_0.new_cached_key)
                &&& final(graph).value(result->Ok_0.new_cached_key) == expected.new_cached_key
                &&& final(graph).has_dense(result->Ok_0.new_cached_nonlin_attention)
                &&& final(graph).value(result->Ok_0.new_cached_nonlin_attention)
                    == expected.new_cached_nonlin_attention
                &&& final(graph).has_dense(result->Ok_0.new_cached_val1)
                &&& final(graph).value(result->Ok_0.new_cached_val1) == expected.new_cached_val1
                &&& final(graph).has_dense(result->Ok_0.new_cached_conv1)
                &&& final(graph).value(result->Ok_0.new_cached_conv1) == expected.new_cached_conv1
            },
        },
{
    proof {
        reveal(XasrLayerHeadGraphTensors::applied);
    }
    let ghost x = old(graph).value(input);
    let ghost expected = tensors.applied(*old(graph), x, shape);
    let ff1 = apply_feed_forward_graph(graph, input, tensors.feed_forward1);
    let add6 = graph.add(input, ff1);
    assert(graph.value(add6) == expected.after_feed_forward);
    proof {
        tensors.attention_weights.lemma_applied_in_grown(*old(graph), *graph, x, shape.attention());
    }
    let attention = apply_self_attention_weights_graph(
        graph,
        input,
        tensors.attention_weights,
        XasrSelfAttentionWeightsGraphShape {
            dim: shape.dim,
            frames: shape.frames,
            left_context_len: shape.left_context_len,
            num_heads: shape.num_heads,
            query_head_dim: shape.query_head_dim,
            pos_dim: shape.pos_dim,
            pos_output_dim: shape.pos_output_dim,
        },
    )?;
    assert(graph.value(attention.weights) == expected.attention);
    assert(graph.value(attention.new_cache) == expected.new_cached_key);
    let nonlin = apply_nonlin_attention_value_graph(
        graph,
        add6,
        XasrNonlinAttentionGraphTensors {
            cache: tensors.nonlin_cache,
            attention_weights: attention.weights,
            in_proj_weight: tensors.nonlin_in_proj_weight,
            in_proj_bias: tensors.nonlin_in_proj_bias,
            out_proj_weight: tensors.nonlin_out_proj_weight,
            out_proj_bias: tensors.nonlin_out_proj_bias,
        },
        XasrNonlinAttentionGraphShape {
            dim: shape.dim,
            frames: shape.frames,
            left_context_len: shape.left_context_len,
            num_heads: 1,
            hidden_dim: shape.nonlin_hidden_dim,
        },
    )?;
    assert(graph.value(nonlin.new_cache) == expected.new_cached_nonlin_attention);
    let add8 = graph.add(add6, nonlin.rows);
    assert(graph.value(add8) == expected.after_nonlin);
    let self1 = apply_self_attention_value_graph(
        graph,
        add8,
        XasrSelfAttentionGraphTensors {
            cache: tensors.self1_cache,
            attention_weights: attention.weights,
            in_proj_weight: tensors.self1_in_proj_weight,
            in_proj_bias: tensors.self1_in_proj_bias,
            out_proj_weight: tensors.self1_out_proj_weight,
            out_proj_bias: tensors.self1_out_proj_bias,
        },
        XasrSelfAttentionGraphShape {
            dim: shape.dim,
            frames: shape.frames,
            left_context_len: shape.left_context_len,
            num_heads: shape.num_heads,
            value_dim: shape.self1_value_dim,
        },
    )?;
    assert(graph.value(self1.new_cache) == expected.new_cached_val1);
    let add10 = graph.add(add8, self1.rows);
    assert(graph.value(add10) == expected.after_attention);
    proof {
        tensors.conv_module1.lemma_applied_in_grown(
            *old(graph),
            *graph,
            expected.after_attention,
            shape.conv(),
        );
    }
    let conv1 = apply_convolution_module_graph(
        graph,
        add10,
        tensors.conv_module1,
        XasrConvolutionModuleGraphShape {
            dim: shape.dim,
            frames: shape.frames,
            cache_len: shape.conv1_cache_len,
            causal_kernel_len: shape.conv1_causal_kernel_len,
            chunk_kernel_len: shape.conv1_chunk_kernel_len,
        },
    )?;
    assert(graph.value(conv1.new_cache) == expected.new_cached_conv1);
    let add15 = graph.add(add10, conv1.rows);
    proof {
        tensors.feed_forward2.lemma_applied_in_grown(*old(graph), *graph, graph.value(add15));
    }
    let ff2 = apply_feed_forward_graph(graph, add15, tensors.feed_forward2);
    let add16 = graph.add(add15, ff2);
    let rows = apply_bypass_graph(graph, input, add16, tensors.bypass_mid_scale);
    assert(graph.value(rows) == expected.rows);
    Ok(
        XasrLayerHeadGraphOutput {
            rows,
            attention_weights: attention.weights,
            new_cached_key: attention.new_cache,
            new_cached_nonlin_attention: nonlin.new_cache,
            new_cached_val1: self1.new_cache,
            new_cached_conv1: conv1.new_cache,
        },
    )
}

/// Operands of a layer.
#[derive(Clone, Copy, Debug)]
pub struct XasrZipformerLayerGraphTensors {
    pub layer_head: XasrLayerHeadGraphTensors,
    pub self2_cache: GgmlCpuTensor,
    pub self2_in_proj_weight: GgmlCpuTensor,
    pub self2_in_proj_bias: GgmlCpuTensor,
    pub self2_out_proj_weight: GgmlCpuTensor,
    pub self2_out_proj_bias: GgmlCpuTensor,
    pub layer_tail: XasrLayerTailGraphTensors,
}

/// Dimensions of a layer.
#[derive(Clone, Copy, Debug)]
pub struct XasrZipformerLayerGraphShape {
    pub layer_head: XasrLayerHeadGraphShape,
    pub self2_value_dim: usize,
    pub layer_tail: XasrLayerTailGraphShape,
}

/// Result of a layer.
#[derive(Clone, Copy, Debug)]
pub struct XasrZipformerLayerGraphOutput {
    pub rows: GgmlCpuTensor,
    pub new_cached_key: GgmlCpuTensor,
    pub new_cached_nonlin_attention: GgmlCpuTensor,
    pub new_cached_val1: GgmlCpuTensor,
    pub new_cached_val2: GgmlCpuTensor,
    pub new_cached_conv1: GgmlCpuTensor,
    pub new_cached_conv2: GgmlCpuTensor,
}

/// The values that a layer produces.
pub struct LayerValues {
    pub rows: TensorValue,
    pub new_cached_key: TensorValue,
    pub new_cached_nonlin_attention: TensorValue,
    pub new_cached_val1: TensorValue,
    pub new_cached_val2: TensorValue,
    pub new_cached_conv1: TensorValue,
    pub new_cached_conv2: TensorValue,
}

impl XasrZipformerLayerGraphOutput {
    /// The output tensors are dense and have the given values.
    pub open spec fn yields(self, graph: GgmlCpuGraphBuilder, expected: LayerValues) -> bool {
        &&& graph.has_dense(self.rows)
        &&& graph.value(self.rows) == expected.rows
        &&& graph.has_dense(self.new_cached_key)
        &&& graph.value(self.new_cached_key) == expected.new_cached_key
        &&& graph.has_dense(self.new_cached_nonlin_attention)
        &&& graph.value(self.new_cached_nonlin_attention) == expected.new_cached_nonlin_attention
        &&& graph.has_dense(self.new_cached_val1)
        &&& graph.value(self.new_cached_val1) == expected.new_cached_val1
        &&& graph.has_dense(self.new_cached_val2)
        &&& graph.value(self.new_cached_val2) == expected.new_cached_val2
        &&& graph.has_dense(self.new_cached_conv1)
        &&& graph.value(self.new_cached_conv1) == expected.new_cached_conv1
        &&& graph.has_dense(self.new_cached_conv2)
        &&& graph.value(self.new_cached_conv2) == expected.new_cached_conv2
    }
}

impl XasrZipformerLayerGraphTensors {
    /// The tensors belong to `graph`.
    #[verifier::opaque]
    pub open spec fn within(self, graph: GgmlCpuGraphBuilder) -> bool {
        &&& self.layer_head.within(graph)
        &&& graph.has_dense(self.self2_cache)
        &&& graph.has_dense(self.self2_in_proj_weight)
        &&& graph.has_dense(self.self2_in_proj_bias)
        &&& graph.has_dense(self.self2_out_proj_weight)
        &&& graph.has_dense(self.self2_out_proj_bias)
        &&& self.layer_tail.within(graph)
    }

    pub open spec fn self2_weights(self, graph: GgmlCpuGraphBuilder) -> AttentionBlockValues {
        AttentionBlockValues {
            cache: graph.value(self.self2_cache),
            in_weight: graph.value(self.self2_in_proj_weight),
            in_bias: graph.value(self.self2_in_proj_bias),
            out_weight: graph.value(self.self2_out_proj_weight),
            out_bias: graph.value(self.self2_out_proj_bias),
        }
    }

    /// The layer applied to `x`: first half, second self-attention, second
    /// half.
    #[verifier::opaque]
    pub open spec fn applied(
        self,
        graph: GgmlCpuGraphBuilder,
        x: TensorValue,
        shape: XasrZipformerLayerGraphShape,
    ) -> LayerValues {
        let head = self.layer_head.applied(graph, x, shape.layer_head);
        let self2 = attention_graph::self_attention_block(
            self.self2_weights(graph),
            head.attention,
            head.rows,
            shape.layer_head.self_attention(shape.self2_value_dim),
        );
        let attended = head.rows.plus(self2.rows);
        LayerValues {
            rows: self.layer_tail.applied(graph, x, attended, shape.layer_tail),
            new_cached_key: head.new_cached_key,
            new_cached_nonlin_attention: head.new_cached_nonlin_attention,
            new_cached_val1: head.new_cached_val1,
            new_cached_val2: self2.new_cache,
            new_cached_conv1: head.new_cached_conv1,
            new_cached_conv2: self.layer_tail.conv_module2.next_cache(
                graph,
                attended,
                shape.layer_tail.conv(),
            ),
        }
    }

    /// What the layer computes does not change while the graph grows.
    pub proof fn lemma_applied_in_grown(
        self,
        before: GgmlCpuGraphBuilder,
        after: GgmlCpuGraphBuilder,
        x: TensorValue,
        shape: XasrZipformerLayerGraphShape,
    )
        requires
            self.within(before),
            after.builds_on(before),
        ensures
            self.within(after),
            self.applied(after, x, shape) == self.applied(before, x, shape),
    {
        reveal(XasrZipformerLayerGraphTensors::applied);
        reveal(XasrZipformerLayerGraphTensors::within);
        self.layer_head.lemma_applied_in_grown(before, after, x, shape.layer_head);
        let head = self.layer_head.applied(before, x, shape.layer_head);
        let self2 = attention_graph::self_attention_block(
            self.self2_weights(before),
            head.attention,
            head.rows,
            shape.layer_head.self_attention(shape.self2_value_dim),
        );
        let attended = head.rows.plus(self2.rows);
        self.layer_tail.lemma_applied_in_grown(before, after, x, attended, shape.layer_tail);
        self.layer_tail.conv_module2.lemma_applied_in_grown(
            before,
            after,
            attended,
            shape.layer_tail.conv(),
        );
    }
}

/// Why a layer is refused.
#[verifier::opaque]
pub open spec fn layer_refusal(shape: XasrZipformerLayerGraphShape) -> Option<&'static str> {
    let head = layer_head_refusal(shape.layer_head);
    let self2 = attention_graph::self_attention_refusal(
        shape.layer_head.self_attention(shape.self2_value_dim),
    );
    if head is Some {
        head
    } else if self2 is Some {
        self2
    } else {
        layer_tail_refusal(shape.layer_tail)
    }
}

/// Adds a layer.
pub fn apply_zipformer_layer_graph(
    graph: &mut GgmlCpuGraphBuilder,
    input: GgmlCpuTensor,
    tensors: XasrZipformerLayerGraphTensors,
    shape: XasrZipformerLayerGraphShape,
) -> (result: Result<XasrZipformerLayerGraphOutput, GgmlCpuGraphError>)
    requires
        old(graph).has(input),
        tensors.within(*old(graph)),
    ensures
        final(graph).grew_from(*old(graph)),
        match layer_refusal(shape) {
            Some(reason) => result == Err::<XasrZipformerLayerGraphOutput, GgmlCpuGraphError>(
                layer_graph::refusal_error(reason),
            ),
            None => result is Ok && result->Ok_0.yields(
                *final(graph),
                tensors.applied(*old(graph), old(graph).value(input), shape),
            ),
        },
{
    proof {
        reveal(XasrZipformerLayerGraphTensors::applied);
        reveal(XasrZipformerLayerGraphTensors::within);
        reveal(layer_refusal);
    }
    let ghost expected = tensors.applied(*old(graph), old(graph).value(input), shape);
    let head = apply_layer_head_graph(graph, input, tensors.layer_head, shape.layer_head)?;
    let self2 = apply_self_attention_value_graph(
        graph,
        head.rows,
        XasrSelfAttentionGraphTensors {
            cache: tensors.self2_cache,
            attention_weights: head.attention_weights,
            in_proj_weight: tensors.self2_in_proj_weight,
            in_proj_bias: tensors.self2_in_proj_bias,
            out_proj_weight: tensors.self2_out_proj_weight,
            out_proj_bias: tensors.self2_out_proj_bias,
        },
        XasrSelfAttentionGraphShape {
            dim: shape.layer_head.dim,
            frames: shape.layer_head.frames,
            left_context_len: shape.layer_head.left_context_len,
            num_heads: shape.layer_head.num_heads,
            value_dim: shape.self2_value_dim,
        },
    )?;
    assert(graph.value(self2.new_cache) == expected.new_cached_val2);
    let add18 = graph.add(head.rows, self2.rows);
    proof {
        let x = old(graph).value(input);
        let attended = graph.value(add18);
        tensors.layer_tail.lemma_applied_in_grown(*old(graph), *graph, x, attended, shape.layer_tail);
        tensors.layer_tail.conv_module2.lemma_applied_in_grown(
            *old(graph),
            *graph,
            attended,
            shape.layer_tail.conv(),
        );
    }
    let tail = apply_layer_tail_graph(graph, input, add18, tensors.layer_tail, shape.layer_tail)?;
    assert(graph.value(tail.rows) == expected.rows);
    assert(graph.value(tail.new_conv2_cache) == expected.new_cached_conv2);
    Ok(
        XasrZipformerLayerGraphOutput {
            rows: tail.rows,
            new_cached_key: head.new_cached_key,
            new_cached_nonlin_attention: head.new_cached_nonlin_attention,
            new_cached_val1: head.new_cached_val1,
            new_cached_val2: self2.new_cache,
            new_cached_conv1: head.new_cached_conv1,
            new_cached_conv2: tail.new_conv2_cache,
        },
    )
}

} // verus!
