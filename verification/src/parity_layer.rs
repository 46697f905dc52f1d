//! A layer of a graph and a layer of the host.

use vstd::prelude::*;
use crate::attention_graph::{nonlin_attention_block, self_attention_block};
use crate::encoder_weights::XasrEncoderLayerWeights;
use crate::graph::GgmlCpuGraphBuilder;
use crate::layer_values;
use crate::parity::{
    law_graph_bias_norm_is_the_host_bias_norm, law_graph_bypass_is_the_host_bypass,
    law_graph_feed_forward_is_the_host_feed_forward, law_graph_sum_is_the_host_sum, Device,
};
use crate::parity_attention::{attention_shape_fits, law_graph_attention_is_the_host_attention};
use crate::parity_conv::{law_graph_convolution_module_is_the_host_one, shape_fits};
use crate::parity_values::{
    law_graph_nonlin_attention_is_the_host_one, law_graph_self_attention_is_the_host_one,
    nonlin_attention_fits, self_attention_fits,
};
use crate::reference_attention::attention_values;
use crate::reference_conv_module::convolution_values;
use crate::reference_layer::{
    back_values, front_values, key_mask, layer_values as host_layer_values, LayerCaches,
};
use crate::reference_rows::{added, feed_forward_rows, normed, sums};
use crate::reference_values::{nonlin_values, self_attention_values};
use crate::tensor_value::TensorValue;
use crate::zipformer_graph::{
    XasrLayerHeadGraphShape, XasrLayerHeadGraphTensors, XasrLayerTailGraphShape,
    XasrLayerTailGraphTensors, XasrZipformerLayerGraphShape, XasrZipformerLayerGraphTensors,
};

verus! {

/// What a layer remembers of earlier chunks.
pub struct KeptCaches {
    pub key: Seq<u32>,
    pub nonlin_attention: Seq<u32>,
    pub val1: Seq<u32>,
    pub val2: Seq<u32>,
    pub conv1: Seq<u32>,
    pub conv2: Seq<u32>,
}

impl KeptCaches {
    /// The caches, as the host takes them.
    pub open spec fn given(self) -> LayerCaches {
        LayerCaches {
            key: Some(self.key),
            nonlin_attention: Some(self.nonlin_attention),
            val1: Some(self.val1),
            val2: Some(self.val2),
            conv1: Some(self.conv1),
            conv2: Some(self.conv2),
        }
    }
}

impl Device {
    /// The operations are those of the host.
    pub open spec fn agrees_with_the_host(self) -> bool {
        &&& self.multiplies_as_the_host()
        &&& self.activates_as_the_host()
        &&& self.norms_as_the_host()
        &&& self.convolves_as_the_host()
        &&& self.attends_as_the_host()
    }

    /// The tensors hold the first half of a layer, and its caches.
    pub open spec fn holds_head(
        self,
        graph: GgmlCpuGraphBuilder,
        tensors: XasrLayerHeadGraphTensors,
        layer: XasrEncoderLayerWeights,
        caches: KeptCaches,
        shape: XasrLayerHeadGraphShape,
        valid: int,
    ) -> bool {
        &&& self.holds_feed_forward(graph, tensors.feed_forward1, layer.feed_forward1)
        &&& self.holds_attention(
            graph,
            tensors.attention_weights,
            layer.self_attn_weights,
            caches.key,
            shape.attention(),
            valid,
        )
        &&& self.holds_block(
            tensors.nonlin_weights(graph),
            layer.nonlin_attention.in_proj,
            layer.nonlin_attention.out_proj,
            caches.nonlin_attention,
            shape.nonlin_hidden_dim as int,
            shape.left_context_len as int,
        )
        &&& self.holds_block(
            tensors.self1_weights(graph),
            layer.self_attn1.in_proj,
            layer.self_attn1.out_proj,
            caches.val1,
            shape.self1_value_dim as int,
            shape.left_context_len as int,
        )
        &&& self.holds_module(
            graph,
            tensors.conv_module1,
            layer.conv_module1,
            caches.conv1,
            shape.conv(),
        )
        &&& self.holds_feed_forward(graph, tensors.feed_forward2, layer.feed_forward2)
        &&& self.holds_list(graph.value(tensors.bypass_mid_scale), layer.bypass_mid_scale@)
    }

    /// The tensors hold the last part of a layer, and its cache.
    pub open spec fn holds_tail(
        self,
        graph: GgmlCpuGraphBuilder,
        tensors: XasrLayerTailGraphTensors,
        layer: XasrEncoderLayerWeights,
        caches: KeptCaches,
        shape: XasrLayerTailGraphShape,
    ) -> bool {
        &&& self.holds_module(
            graph,
            tensors.conv_module2,
            layer.conv_module2,
            caches.conv2,
            shape.conv(),
        )
        &&& self.holds_feed_forward(graph, tensors.feed_forward3, layer.feed_forward3)
        &&& self.holds_list(graph.value(tensors.norm_bias), layer.norm_bias@)
        &&& self.holds_list(graph.value(tensors.bypass_scale), layer.bypass_scale@)
    }

    /// The tensors hold a layer and its caches.
    pub open spec fn holds_layer(
        self,
        graph: GgmlCpuGraphBuilder,
        tensors: XasrZipformerLayerGraphTensors,
        layer: XasrEncoderLayerWeights,
        caches: KeptCaches,
        shape: XasrZipformerLayerGraphShape,
        valid: int,
    ) -> bool {
        &&& self.holds_head(graph, tensors.layer_head, layer, caches, shape.layer_head, valid)
        &&& self.holds_block(
            tensors.self2_weights(graph),
            layer.self_attn2.in_proj,
            layer.self_attn2.out_proj,
            caches.val2,
            shape.self2_value_dim as int,
            shape.layer_head.left_context_len as int,
        )
        &&& self.holds_tail(graph, tensors.layer_tail, layer, caches, shape.layer_tail)
    }
}

/// The dimensions are those of the first half of a layer.
pub open spec fn head_fits(layer: XasrEncoderLayerWeights, shape: XasrLayerHeadGraphShape) -> bool {
    &&& layer.feed_forward1.in_proj.weight.input_dim == shape.dim
    &&& layer.feed_forward1.out_proj.weight.output_dim == shape.dim
    &&& attention_shape_fits(layer.self_attn_weights, shape.attention())
    &&& nonlin_attention_fits(layer.nonlin_attention, shape.nonlin())
    &&& layer.nonlin_attention.out_proj.weight.output_dim == shape.dim
    &&& self_attention_fits(layer.self_attn1, shape.self_attention(shape.self1_value_dim))
    &&& layer.self_attn1.out_proj.weight.output_dim == shape.dim
    &&& shape_fits(layer.conv_module1, shape.conv())
    &&& layer.conv_module1.out_proj.weight.output_dim == shape.dim
    &&& layer.feed_forward2.in_proj.weight.input_dim == shape.dim
    &&& layer.feed_forward2.out_proj.weight.output_dim == shape.dim
    &&& layer.bypass_mid_scale@.len() == shape.dim
}

/// The dimensions are those of the last part of a layer.
pub open spec fn tail_fits(layer: XasrEncoderLayerWeights, shape: XasrLayerTailGraphShape) -> bool {
    &&& shape_fits(layer.conv_module2, shape.conv())
    &&& layer.conv_module2.out_proj.weight.output_dim == shape.dim
    &&& layer.feed_forward3.in_proj.weight.input_dim == shape.dim
    &&& layer.feed_forward3.out_proj.weight.output_dim == shape.dim
    &&& layer.norm_bias@.len() == shape.dim
    &&& layer.bypass_scale@.len() == shape.dim
    &&& layer.norm_log_scale@[0] == shape.norm_log_scale
}

/// The dimensions are those of a layer.
pub open spec fn layer_fits(
    layer: XasrEncoderLayerWeights,
    shape: XasrZipformerLayerGraphShape,
) -> bool {
    &&& head_fits(layer, shape.layer_head)
    &&& self_attention_fits(
        layer.self_attn2,
        shape.layer_head.self_attention(shape.self2_value_dim),
    )
    &&& layer.self_attn2.out_proj.weight.output_dim == shape.layer_head.dim
    &&& tail_fits(layer, shape.layer_tail)
    &&& shape.layer_tail.dim == shape.layer_head.dim
    &&& shape.layer_tail.frames == shape.layer_head.frames
}

/// Rows that a module adds to its input.
proof fn lemma_added(
    device: Device,
    x: TensorValue,
    y: TensorValue,
    held: Seq<u32>,
    more: Seq<u32>,
    dim: int,
    frames: int,
)
    requires
        device.holds(x, held, dim, frames),
        device.holds(y, more, dim, frames),
    ensures
        added(device.host, held, more) == Ok::<Seq<u32>, Seq<char>>(sums(device.host, held, more)),
        device.holds(x.plus(y), sums(device.host, held, more), dim, frames),
{
    law_graph_sum_is_the_host_sum(device, x, y, held, more, dim, frames);
}

/// The first half of a layer of a graph is that of the host: its rows, and what it
/// leaves in its caches.
#[verifier::rlimit(60)]
#[verifier::spinoff_prover]
pub proof fn law_graph_layer_front_is_the_host_one(
    device: Device,
    graph: GgmlCpuGraphBuilder,
    tensors: XasrLayerHeadGraphTensors,
    layer: XasrEncoderLayerWeights,
    caches: KeptCaches,
    shape: XasrLayerHeadGraphShape,
    valid: int,
    attention: Seq<u32>,
    x: TensorValue,
    held: Seq<u32>,
)
    requires
        device.agrees_with_the_host(),
        device.holds_head(graph, tensors, layer, caches, shape, valid),
        head_fits(layer, shape),
        device.holds(x, held, shape.dim as int, shape.frames as int),
        device.holds_planes(
            tensors.applied(graph, x, shape).attention,
            attention,
            shape.left_context_len + shape.frames,
            shape.frames as int,
            shape.num_heads as int,
        ),
    ensures
        ({
            let host = front_values(
                device.host,
                layer,
                held,
                attention,
                shape.frames,
                shape.dim,
                shape.num_heads,
                shape.left_context_len,
                caches.given(),
            );
            let y = tensors.applied(graph, x, shape);
            &&& host is Ok
            &&& device.holds(y.rows, host->Ok_0.rows, shape.dim as int, shape.frames as int)
            &&& device.holds(
                y.new_cached_nonlin_attention,
                host->Ok_0.nonlin_attention,
                shape.nonlin_hidden_dim as int,
                shape.left_context_len as int,
            )
            &&& device.holds(
                y.new_cached_val1,
                host->Ok_0.val1,
                shape.self1_value_dim as int,
                shape.left_context_len as int,
            )
            &&& device.holds(
                y.new_cached_conv1,
                host->Ok_0.conv1,
                shape.conv1_cache_len as int,
                shape.dim as int,
            )
        }),
{
    reveal(XasrLayerHeadGraphTensors::applied);
    let m = device.host;
    let frames = shape.frames;
    let dim = shape.dim;
    let n = frames as int;
    let d = dim as int;
    let y = tensors.applied(graph, x, shape);
    let planes = y.attention;
    law_graph_feed_forward_is_the_host_feed_forward(
        device,
        graph,
        tensors.feed_forward1,
        layer.feed_forward1,
        x,
        held,
        dim,
        frames,
    );
    let ff1 = feed_forward_rows(m, layer.feed_forward1, held, frames, dim)->Ok_0;
    lemma_added(device, x, tensors.feed_forward1.applied(graph, x), held, ff1, d, n);
    let add6 = sums(m, held, ff1);
    let first = y.after_feed_forward;
    law_graph_nonlin_attention_is_the_host_one(
        device,
        tensors.nonlin_weights(graph),
        layer.nonlin_attention,
        caches.nonlin_attention,
        planes,
        attention,
        shape.num_heads as int,
        shape.nonlin(),
        first,
        add6,
    );
    let nonlin = nonlin_values(
        m,
        layer.nonlin_attention,
        add6,
        attention.take(frames * (shape.left_context_len + frames)),
        frames,
        dim,
        1,
        shape.left_context_len,
        Some(caches.nonlin_attention),
    )->Ok_0;
    let nonlin_block = nonlin_attention_block(
        tensors.nonlin_weights(graph),
        planes,
        first,
        shape.nonlin(),
    );
    lemma_added(device, first, nonlin_block.rows, add6, nonlin.rows, d, n);
    let add8 = sums(m, add6, nonlin.rows);
    let second = y.after_nonlin;
    law_graph_self_attention_is_the_host_one(
        device,
        tensors.self1_weights(graph),
        layer.self_attn1,
        caches.val1,
        planes,
        attention,
        shape.self_attention(shape.self1_value_dim),
        second,
        add8,
    );
    let self1 = self_attention_values(
        m,
        layer.self_attn1,
        add8,
        attention,
        frames,
        dim,
        shape.num_heads,
        shape.left_context_len,
        Some(caches.val1),
    )->Ok_0;
    let self1_block = self_attention_block(
        tensors.self1_weights(graph),
        planes,
        second,
        shape.self_attention(shape.self1_value_dim),
    );
    lemma_added(device, second, self1_block.rows, add8, self1.rows, d, n);
    let add10 = sums(m, add8, self1.rows);
    let third = y.after_attention;
    law_graph_convolution_module_is_the_host_one(
        device,
        graph,
        tensors.conv_module1,
        layer.conv_module1,
        caches.conv1,
        shape.conv(),
        third,
        add10,
    );
    let conv1 = convolution_values(
        m,
        layer.conv_module1,
        add10,
        frames,
        dim,
        Some(caches.conv1),
        None,
    )->Ok_0;
    let convolved = tensors.conv_module1.applied(graph, third, shape.conv());
    lemma_added(device, third, convolved, add10, conv1.rows, d, n);
    let add15 = sums(m, add10, conv1.rows);
    let fourth = third.plus(convolved);
    law_graph_feed_forward_is_the_host_feed_forward(
        device,
        graph,
        tensors.feed_forward2,
        layer.feed_forward2,
        fourth,
        add15,
        dim,
        frames,
    );
    let ff2 = feed_forward_rows(m, layer.feed_forward2, add15, frames, dim)->Ok_0;
    lemma_added(device, fourth, tensors.feed_forward2.applied(graph, fourth), add15, ff2, d, n);
    let add16 = sums(m, add15, ff2);
    law_graph_bypass_is_the_host_bypass(
        device,
        x,
        fourth.plus(tensors.feed_forward2.applied(graph, fourth)),
        graph.value(tensors.bypass_mid_scale),
        held,
        add16,
        layer.bypass_mid_scale@,
        dim,
        frames,
    );
}

/// The second half of a layer of a graph is that of the host: its rows, and what it
/// leaves in its caches.
#[verifier::rlimit(60)]
#[verifier::spinoff_prover]
pub proof fn law_graph_layer_back_is_the_host_one(
    device: Device,
    graph: GgmlCpuGraphBuilder,
    tensors: XasrZipformerLayerGraphTensors,
    layer: XasrEncoderLayerWeights,
    caches: KeptCaches,
    shape: XasrZipformerLayerGraphShape,
    valid: int,
    planes: TensorValue,
    attention: Seq<u32>,
    x: TensorValue,
    held: Seq<u32>,
    mid: TensorValue,
    mid_rows: Seq<u32>,
)
    requires
        device.agrees_with_the_host(),
        device.holds_layer(graph, tensors, layer, caches, shape, valid),
        layer_fits(layer, shape),
        device.holds(x, held, shape.layer_head.dim as int, shape.layer_head.frames as int),
        device.holds(mid, mid_rows, shape.layer_head.dim as int, shape.layer_head.frames as int),
        device.holds_planes(
            planes,
            attention,
            shape.layer_head.left_context_len + shape.layer_head.frames,
            shape.layer_head.frames as int,
            shape.layer_head.num_heads as int,
        ),
    ensures
        ({
            let sizes = shape.layer_head;
            let host = back_values(
                device.host,
                layer,
                held,
                mid_rows,
                attention,
                sizes.frames,
                sizes.dim,
                sizes.num_heads,
                sizes.left_context_len,
                caches.given(),
            );
            let block = self_attention_block(
                tensors.self2_weights(graph),
                planes,
                mid,
                sizes.self_attention(shape.self2_value_dim),
            );
            let attended = mid.plus(block.rows);
            &&& host is Ok
            &&& device.holds(
                tensors.layer_tail.applied(graph, x, attended, shape.layer_tail),
                host->Ok_0.rows,
                sizes.dim as int,
                sizes.frames as int,
            )
            &&& device.holds(
                block.new_cache,
                host->Ok_0.val2,
                shape.self2_value_dim as int,
                sizes.left_context_len as int,
            )
            &&& device.holds(
                tensors.layer_tail.conv_module2.next_cache(
                    graph,
                    attended,
                    shape.layer_tail.conv(),
                ),
                host->Ok_0.conv2,
                shape.layer_tail.conv_cache_len as int,
                sizes.dim as int,
            )
        }),
{
    reveal(XasrLayerTailGraphTensors::applied);
    let m = device.host;
    let sizes = shape.layer_head;
    let frames = sizes.frames;
    let dim = sizes.dim;
    let n = frames as int;
    let d = dim as int;
    let tail = tensors.layer_tail;
    law_graph_self_attention_is_the_host_one(
        device,
        tensors.self2_weights(graph),
        layer.self_attn2,
        caches.val2,
        planes,
        attention,
        sizes.self_attention(shape.self2_value_dim),
        mid,
        mid_rows,
    );
    let self2 = self_attention_values(
        m,
        layer.self_attn2,
        mid_rows,
        attention,
        frames,
        dim,
        sizes.num_heads,
        sizes.left_context_len,
        Some(caches.val2),
    )->Ok_0;
    let block = self_attention_block(
        tensors.self2_weights(graph),
        planes,
        mid,
        sizes.self_attention(shape.self2_value_dim),
    );
    lemma_added(device, mid, block.rows, mid_rows, self2.rows, d, n);
    let add18 = sums(m, mid_rows, self2.rows);
    let attended = mid.plus(block.rows);
    law_graph_convolution_module_is_the_host_one(
        device,
        graph,
        tail.conv_module2,
        layer.conv_module2,
        caches.conv2,
        shape.layer_tail.conv(),
        attended,
        add18,
    );
    let conv2 = convolution_values(
        m,
        layer.conv_module2,
        add18,
        frames,
        dim,
        Some(caches.conv2),
        None,
    )->Ok_0;
    let convolved = tail.conv_module2.applied(graph, attended, shape.layer_tail.conv());
    lemma_added(device, attended, convolved, add18, conv2.rows, d, n);
    let add23 = sums(m, add18, conv2.rows);
    let later = attended.plus(convolved);
    law_graph_feed_forward_is_the_host_feed_forward(
        device,
        graph,
        tail.feed_forward3,
        layer.feed_forward3,
        later,
        add23,
        dim,
        frames,
    );
    let ff3 = feed_forward_rows(m, layer.feed_forward3, add23, frames, dim)->Ok_0;
    lemma_added(device, later, tail.feed_forward3.applied(graph, later), add23, ff3, d, n);
    let add24 = sums(m, add23, ff3);
    let fed = later.plus(tail.feed_forward3.applied(graph, later));
    law_graph_bias_norm_is_the_host_bias_norm(
        device,
        fed,
        graph.value(tail.norm_bias),
        add24,
        layer.norm_bias@,
        shape.layer_tail.norm_log_scale,
        dim,
        frames,
    );
    let norm = normed(m, add24, dim, layer.norm_bias@, layer.norm_log_scale@[0])->Ok_0;
    law_graph_bypass_is_the_host_bypass(
        device,
        x,
        layer_values::bias_norm(
            fed,
            graph.value(tail.norm_bias),
            shape.layer_tail.norm_log_scale,
        ),
        graph.value(tail.bypass_scale),
        held,
        norm,
        layer.bypass_scale@,
        dim,
        frames,
    );
}

/// A layer of a graph is a layer of the host: its rows, and what it leaves in its
/// caches.  The host may refuse a chunk whose scores it cannot normalise; then
/// nothing is said.
pub proof fn law_graph_layer_is_the_host_layer(
    device: Device,
    graph: GgmlCpuGraphBuilder,
    tensors: XasrZipformerLayerGraphTensors,
    layer: XasrEncoderLayerWeights,
    caches: KeptCaches,
    shape: XasrZipformerLayerGraphShape,
    valid: usize,
    x: TensorValue,
    held: Seq<u32>,
)
    requires
        device.agrees_with_the_host(),
        device.holds_layer(graph, tensors, layer, caches, shape, valid as int),
        layer_fits(layer, shape),
        device.holds(x, held, shape.layer_head.dim as int, shape.layer_head.frames as int),
    ensures
        ({
            let sizes = shape.layer_head;
            let host = host_layer_values(
                device.host,
                layer,
                held,
                sizes.frames,
                sizes.dim,
                sizes.num_heads,
                sizes.query_head_dim,
                sizes.left_context_len,
                valid,
                caches.given(),
            );
            let y = tensors.applied(graph, x, shape);
            let left = sizes.left_context_len as int;
            host is Ok ==> {
                &&& device.holds(y.rows, host->Ok_0.rows, sizes.dim as int, sizes.frames as int)
                &&& device.holds(
                    y.new_cached_key,
                    host->Ok_0.key,
                    sizes.attention().query_dim(),
                    left,
                )
                &&& device.holds(
                    y.new_cached_nonlin_attention,
                    host->Ok_0.nonlin_attention,
                    sizes.nonlin_hidden_dim as int,
                    left,
                )
                &&& device.holds(
                    y.new_cached_val1,
                    host->Ok_0.val1,
                    sizes.self1_value_dim as int,
                    left,
                )
                &&& device.holds(
                    y.new_cached_val2,
                    host->Ok_0.val2,
                    shape.self2_value_dim as int,
                    left,
                )
                &&& device.holds(
                    y.new_cached_conv1,
                    host->Ok_0.conv1,
                    sizes.conv1_cache_len as int,
                    sizes.dim as int,
                )
                &&& device.holds(
                    y.new_cached_conv2,
                    host->Ok_0.conv2,
                    shape.layer_tail.conv_cache_len as int,
                    sizes.dim as int,
                )
            }
        }),
{
    let m = device.host;
    let sizes = shape.layer_head;
    let host = host_layer_values(
        m,
        layer,
        held,
        sizes.frames,
        sizes.dim,
        sizes.num_heads,
        sizes.query_head_dim,
        sizes.left_context_len,
        valid,
        caches.given(),
    );
    if host is Ok {
        law_graph_attention_is_the_host_attention(
            device,
            graph,
            tensors.layer_head.attention_weights,
            layer.self_attn_weights,
            caches.key,
            sizes.attention(),
            valid as int,
            x,
            held,
        );
        let attention = attention_values(
            m,
            layer.self_attn_weights,
            held,
            sizes.frames,
            sizes.dim,
            sizes.num_heads,
            sizes.query_head_dim,
            sizes.left_context_len,
            Some(caches.key),
            Some(key_mask(sizes.left_context_len as int, sizes.frames as int, valid as int)),
        )->Ok_0;
        let head = tensors.layer_head.applied(graph, x, sizes);
        assert(head.attention == tensors.layer_head.attention_weights.applied(
            graph,
            x,
            sizes.attention(),
        ) && head.new_cached_key == tensors.layer_head.attention_weights.next_cache(
            graph,
            x,
            sizes.attention(),
        )) by {
            reveal(XasrLayerHeadGraphTensors::applied);
        }
        law_graph_layer_front_is_the_host_one(
            device,
            graph,
            tensors.layer_head,
            layer,
            caches,
            sizes,
            valid as int,
            attention.weights,
            x,
            held,
        );
        let front = front_values(
            m,
            layer,
            held,
            attention.weights,
            sizes.frames,
            sizes.dim,
            sizes.num_heads,
            sizes.left_context_len,
            caches.given(),
        )->Ok_0;
        law_graph_layer_back_is_the_host_one(
            device,
            graph,
            tensors,
            layer,
            caches,
            shape,
            valid as int,
            head.attention,
            attention.weights,
            x,
            held,
            head.rows,
            front.rows,
        );
        reveal(XasrZipformerLayerGraphTensors::applied);
    }
}

} // verus!
