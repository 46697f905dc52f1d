//! Two graphs of one encoder, on devices with the same operations, compute the same from
//! the same weights, caches and rows.

use vstd::prelude::*;
use crate::alike::{alike, group_alike};
use crate::attention_graph::{
    nonlin_attention_block, self_attention_block, AttentionBlockValues,
    XasrNonlinAttentionGraphShape, XasrSelfAttentionGraphShape,
    XasrSelfAttentionWeightsGraphShape, XasrSelfAttentionWeightsGraphTensors,
};
use crate::graph::GgmlCpuGraphBuilder;
use crate::layer_graph::{
    XasrConvolutionModuleGraphShape, XasrConvolutionModuleGraphTensors, XasrDownsampleGraphShape,
    XasrDownsampleGraphTensors, XasrFeedForwardGraphTensors,
};
use crate::layer_values;
use crate::parity::Device;
use crate::tensor_value::{TensorValue, ELEMENT_BYTES};
use crate::zipformer_graph::{
    LayerValues, XasrLayerHeadGraphShape, XasrLayerHeadGraphTensors, XasrLayerTailGraphShape,
    XasrLayerTailGraphTensors, XasrZipformerLayerGraphShape, XasrZipformerLayerGraphTensors,
};

verus! {

/// A graph, and the device that it runs on.
pub struct OnDevice {
    pub device: Device,
    pub graph: GgmlCpuGraphBuilder,
}

impl OnDevice {
    /// Two tensors of two graphs are alike on their devices.
    pub open spec fn same(self, x: TensorValue, other: OnDevice, y: TensorValue) -> bool {
        alike(self.device, x, other.device, y)
    }
}

/// The weights of two feed-forward modules are alike.
pub open spec fn same_feed_forward(
    p: OnDevice,
    s: XasrFeedForwardGraphTensors,
    q: OnDevice,
    t: XasrFeedForwardGraphTensors,
) -> bool {
    &&& p.same(p.graph.value(s.in_proj_weight), q, q.graph.value(t.in_proj_weight))
    &&& p.same(p.graph.value(s.in_proj_bias), q, q.graph.value(t.in_proj_bias))
    &&& p.same(p.graph.value(s.out_proj_weight), q, q.graph.value(t.out_proj_weight))
    &&& p.same(p.graph.value(s.out_proj_bias), q, q.graph.value(t.out_proj_bias))
    &&& p.same(p.graph.value(s.swoosh_l_offset), q, q.graph.value(t.swoosh_l_offset))
    &&& p.same(p.graph.value(s.swoosh_l_shift), q, q.graph.value(t.swoosh_l_shift))
}

/// The weights of two attentions are alike.
pub open spec fn same_attention(
    p: OnDevice,
    s: XasrSelfAttentionWeightsGraphTensors,
    q: OnDevice,
    t: XasrSelfAttentionWeightsGraphTensors,
) -> bool {
    &&& p.same(p.graph.value(s.cache), q, q.graph.value(t.cache))
    &&& p.same(p.graph.value(s.mask), q, q.graph.value(t.mask))
    &&& p.same(p.graph.value(s.pos_embedding), q, q.graph.value(t.pos_embedding))
    &&& p.same(p.graph.value(s.in_proj_weight), q, q.graph.value(t.in_proj_weight))
    &&& p.same(p.graph.value(s.in_proj_bias), q, q.graph.value(t.in_proj_bias))
    &&& p.same(p.graph.value(s.linear_pos_weight), q, q.graph.value(t.linear_pos_weight))
}

/// The weights of two convolution modules are alike.
pub open spec fn same_module(
    p: OnDevice,
    s: XasrConvolutionModuleGraphTensors,
    q: OnDevice,
    t: XasrConvolutionModuleGraphTensors,
) -> bool {
    &&& p.same(p.graph.value(s.cache), q, q.graph.value(t.cache))
    &&& p.same(p.graph.value(s.in_proj_weight), q, q.graph.value(t.in_proj_weight))
    &&& p.same(p.graph.value(s.in_proj_bias), q, q.graph.value(t.in_proj_bias))
    &&& p.same(p.graph.value(s.causal_kernel), q, q.graph.value(t.causal_kernel))
    &&& p.same(p.graph.value(s.causal_bias), q, q.graph.value(t.causal_bias))
    &&& p.same(p.graph.value(s.chunk_kernel), q, q.graph.value(t.chunk_kernel))
    &&& p.same(p.graph.value(s.chunk_bias), q, q.graph.value(t.chunk_bias))
    &&& p.same(p.graph.value(s.chunk_scale), q, q.graph.value(t.chunk_scale))
    &&& p.same(p.graph.value(s.out_proj_weight), q, q.graph.value(t.out_proj_weight))
    &&& p.same(p.graph.value(s.out_proj_bias), q, q.graph.value(t.out_proj_bias))
    &&& p.same(p.graph.value(s.swoosh_r_offset), q, q.graph.value(t.swoosh_r_offset))
    &&& p.same(p.graph.value(s.swoosh_r_shift), q, q.graph.value(t.swoosh_r_shift))
}

/// The operands of two attention blocks are alike.
pub open spec fn same_block(
    p: OnDevice,
    s: AttentionBlockValues,
    q: OnDevice,
    t: AttentionBlockValues,
) -> bool {
    &&& p.same(s.cache, q, t.cache)
    &&& p.same(s.in_weight, q, t.in_weight)
    &&& p.same(s.in_bias, q, t.in_bias)
    &&& p.same(s.out_weight, q, t.out_weight)
    &&& p.same(s.out_bias, q, t.out_bias)
}

/// The weights of two first halves of a layer are alike.
pub open spec fn same_head(
    p: OnDevice,
    s: XasrLayerHeadGraphTensors,
    q: OnDevice,
    t: XasrLayerHeadGraphTensors,
) -> bool {
    &&& same_feed_forward(p, s.feed_forward1, q, t.feed_forward1)
    &&& same_attention(p, s.attention_weights, q, t.attention_weights)
    &&& same_block(p, s.nonlin_weights(p.graph), q, t.nonlin_weights(q.graph))
    &&& same_block(p, s.self1_weights(p.graph), q, t.self1_weights(q.graph))
    &&& same_module(p, s.conv_module1, q, t.conv_module1)
    &&& same_feed_forward(p, s.feed_forward2, q, t.feed_forward2)
    &&& p.same(p.graph.value(s.bypass_mid_scale), q, q.graph.value(t.bypass_mid_scale))
}

/// The weights of two last parts of a layer are alike.
pub open spec fn same_tail(
    p: OnDevice,
    s: XasrLayerTailGraphTensors,
    q: OnDevice,
    t: XasrLayerTailGraphTensors,
) -> bool {
    &&& same_module(p, s.conv_module2, q, t.conv_module2)
    &&& same_feed_forward(p, s.feed_forward3, q, t.feed_forward3)
    &&& p.same(p.graph.value(s.norm_bias), q, q.graph.value(t.norm_bias))
    &&& p.same(p.graph.value(s.bypass_scale), q, q.graph.value(t.bypass_scale))
}

/// The weights and caches of two layers are alike.
pub open spec fn same_layer(
    p: OnDevice,
    s: XasrZipformerLayerGraphTensors,
    q: OnDevice,
    t: XasrZipformerLayerGraphTensors,
) -> bool {
    &&& same_head(p, s.layer_head, q, t.layer_head)
    &&& same_block(p, s.self2_weights(p.graph), q, t.self2_weights(q.graph))
    &&& same_tail(p, s.layer_tail, q, t.layer_tail)
}

/// Two layers give alike rows, and keep alike caches.
pub open spec fn same_values(p: OnDevice, x: LayerValues, q: OnDevice, y: LayerValues) -> bool {
    &&& p.same(x.rows, q, y.rows)
    &&& p.same(x.new_cached_key, q, y.new_cached_key)
    &&& p.same(x.new_cached_nonlin_attention, q, y.new_cached_nonlin_attention)
    &&& p.same(x.new_cached_val1, q, y.new_cached_val1)
    &&& p.same(x.new_cached_val2, q, y.new_cached_val2)
    &&& p.same(x.new_cached_conv1, q, y.new_cached_conv1)
    &&& p.same(x.new_cached_conv2, q, y.new_cached_conv2)
}

proof fn lemma_feed_forward(
    p: OnDevice,
    s: XasrFeedForwardGraphTensors,
    x: TensorValue,
    q: OnDevice,
    t: XasrFeedForwardGraphTensors,
    y: TensorValue,
)
    requires
        same_feed_forward(p, s, q, t),
        p.same(x, q, y),
    ensures
        p.same(s.applied(p.graph, x), q, t.applied(q.graph, y)),
{
    broadcast use group_alike;

    reveal(XasrFeedForwardGraphTensors::applied);
}

proof fn lemma_attended_heads(
    p: OnDevice,
    values: TensorValue,
    attention: TensorValue,
    q: OnDevice,
    other_values: TensorValue,
    other_attention: TensorValue,
    frames: int,
    k_len: int,
    value_dim: int,
    head_dim: int,
    heads: int,
)
    requires
        p.same(values, q, other_values),
        p.same(attention, q, other_attention),
    ensures
        p.same(
            layer_values::attended_heads(
                values,
                attention,
                frames,
                k_len,
                value_dim,
                head_dim,
                heads,
            ),
            q,
            layer_values::attended_heads(
                other_values,
                other_attention,
                frames,
                k_len,
                value_dim,
                head_dim,
                heads,
            ),
        ),
    decreases heads,
{
    broadcast use group_alike;

    if heads > 1 {
        lemma_attended_heads(
            p,
            values,
            attention,
            q,
            other_values,
            other_attention,
            frames,
            k_len,
            value_dim,
            head_dim,
            heads - 1,
        );
    }
}

proof fn lemma_self_attention(
    p: OnDevice,
    s: AttentionBlockValues,
    attention: TensorValue,
    x: TensorValue,
    q: OnDevice,
    t: AttentionBlockValues,
    other: TensorValue,
    y: TensorValue,
    shape: XasrSelfAttentionGraphShape,
)
    requires
        same_block(p, s, q, t),
        p.same(attention, q, other),
        p.same(x, q, y),
    ensures
        ({
            let a = self_attention_block(s, attention, x, shape);
            let b = self_attention_block(t, other, y, shape);
            p.same(a.rows, q, b.rows) && p.same(a.new_cache, q, b.new_cache)
        }),
{
    broadcast use group_alike;

    reveal(self_attention_block);
    let values = s.cache.concat(layer_values::linear(s.in_weight, x, s.in_bias), 1);
    let others = t.cache.concat(layer_values::linear(t.in_weight, y, t.in_bias), 1);
    assert(p.same(values, q, others));
    let w = shape.weighting();
    lemma_attended_heads(
        p,
        values,
        attention,
        q,
        others,
        other,
        w.frames as int,
        w.k_len(),
        w.value_dim as int,
        (w.value_dim / w.num_heads) as int,
        w.num_heads as int,
    );
}

proof fn lemma_nonlin_attention(
    p: OnDevice,
    s: AttentionBlockValues,
    attention: TensorValue,
    x: TensorValue,
    q: OnDevice,
    t: AttentionBlockValues,
    other: TensorValue,
    y: TensorValue,
    shape: XasrNonlinAttentionGraphShape,
)
    requires
        same_block(p, s, q, t),
        p.same(attention, q, other),
        p.same(x, q, y),
    ensures
        ({
            let a = nonlin_attention_block(s, attention, x, shape);
            let b = nonlin_attention_block(t, other, y, shape);
            p.same(a.rows, q, b.rows) && p.same(a.new_cache, q, b.new_cache)
        }),
{
    broadcast use group_alike;

    reveal(nonlin_attention_block);
    let projected = layer_values::linear(s.in_weight, x, s.in_bias);
    let others = layer_values::linear(t.in_weight, y, t.in_bias);
    assert(p.same(projected, q, others));
    let values = s.cache.concat(
        shape.third(projected, 1).times(shape.third(projected, 0).tanh()),
        1,
    );
    let other_values = t.cache.concat(
        shape.third(others, 1).times(shape.third(others, 0).tanh()),
        1,
    );
    assert(p.same(values, q, other_values));
    let w = shape.weighting();
    lemma_attended_heads(
        p,
        values,
        attention,
        q,
        other_values,
        other,
        w.frames as int,
        w.k_len(),
        w.value_dim as int,
        (w.value_dim / w.num_heads) as int,
        w.num_heads as int,
    );
}

proof fn lemma_position_columns(
    p: OnDevice,
    positions: TensorValue,
    p_head: TensorValue,
    q: OnDevice,
    other_positions: TensorValue,
    other_head: TensorValue,
    frames: int,
    k_len: int,
    pos_output_dim: int,
    pos_head_dim: int,
    head: int,
    targets: int,
)
    requires
        p.same(positions, q, other_positions),
        p.same(p_head, q, other_head),
    ensures
        p.same(
            layer_values::position_columns(
                positions,
                p_head,
                frames,
                k_len,
                pos_output_dim,
                pos_head_dim,
                head,
                targets,
            ),
            q,
            layer_values::position_columns(
                other_positions,
                other_head,
                frames,
                k_len,
                pos_output_dim,
                pos_head_dim,
                head,
                targets,
            ),
        ),
    decreases targets,
{
    broadcast use group_alike;

    if targets > 1 {
        lemma_position_columns(
            p,
            positions,
            p_head,
            q,
            other_positions,
            other_head,
            frames,
            k_len,
            pos_output_dim,
            pos_head_dim,
            head,
            targets - 1,
        );
    }
}

/// What the heads of an attention take their parts from.
struct HeadInputs {
    queries: TensorValue,
    keys: TensorValue,
    position_queries: TensorValue,
    positions: TensorValue,
    mask: TensorValue,
}

spec fn same_inputs(p: OnDevice, x: HeadInputs, q: OnDevice, y: HeadInputs) -> bool {
    &&& p.same(x.queries, q, y.queries)
    &&& p.same(x.keys, q, y.keys)
    &&& p.same(x.position_queries, q, y.position_queries)
    &&& p.same(x.positions, q, y.positions)
    &&& p.same(x.mask, q, y.mask)
}

proof fn lemma_head_weights(
    p: OnDevice,
    x: HeadInputs,
    q: OnDevice,
    y: HeadInputs,
    shape: XasrSelfAttentionWeightsGraphShape,
    head: int,
)
    requires
        same_inputs(p, x, q, y),
    ensures
        p.same(
            shape.head_weights(
                x.queries,
                x.keys,
                x.position_queries,
                x.positions,
                x.mask,
                head,
            ),
            q,
            shape.head_weights(
                y.queries,
                y.keys,
                y.position_queries,
                y.positions,
                y.mask,
                head,
            ),
        ),
{
    broadcast use group_alike;

    let offset = (head * shape.pos_head_dim()) * ELEMENT_BYTES;
    let stride = shape.pos_output_dim * ELEMENT_BYTES;
    let dim = shape.pos_head_dim();
    let p_head = x.position_queries.window(dim, shape.frames as int, stride, offset);
    let other_head = y.position_queries.window(dim, shape.frames as int, stride, offset);
    assert(p.same(p_head, q, other_head));
    lemma_position_columns(
        p,
        x.positions,
        p_head,
        q,
        y.positions,
        other_head,
        shape.frames as int,
        shape.k_len(),
        shape.pos_output_dim as int,
        dim,
        head,
        shape.frames as int,
    );
}

proof fn lemma_planes(
    p: OnDevice,
    x: HeadInputs,
    q: OnDevice,
    y: HeadInputs,
    shape: XasrSelfAttentionWeightsGraphShape,
    heads: int,
)
    requires
        same_inputs(p, x, q, y),
    ensures
        p.same(
            shape.planes(x.queries, x.keys, x.position_queries, x.positions, x.mask, heads),
            q,
            shape.planes(y.queries, y.keys, y.position_queries, y.positions, y.mask, heads),
        ),
    decreases heads,
{
    broadcast use group_alike;

    lemma_head_weights(p, x, q, y, shape, heads - 1);
    if heads > 1 {
        lemma_planes(p, x, q, y, shape, heads - 1);
    }
}

proof fn lemma_attention(
    p: OnDevice,
    s: XasrSelfAttentionWeightsGraphTensors,
    x: TensorValue,
    q: OnDevice,
    t: XasrSelfAttentionWeightsGraphTensors,
    y: TensorValue,
    shape: XasrSelfAttentionWeightsGraphShape,
)
    requires
        same_attention(p, s, q, t),
        p.same(x, q, y),
    ensures
        p.same(s.applied(p.graph, x, shape), q, t.applied(q.graph, y, shape)),
        p.same(s.next_cache(p.graph, x, shape), q, t.next_cache(q.graph, y, shape)),
{
    broadcast use group_alike;

    reveal(XasrSelfAttentionWeightsGraphTensors::applied);
    reveal(XasrSelfAttentionWeightsGraphTensors::next_cache);
    let g = p.graph;
    let h = q.graph;
    assert(p.same(s.projected(g, x), q, t.projected(h, y)));
    assert(p.same(s.keys(g, x, shape), q, t.keys(h, y, shape)));
    let a = HeadInputs {
        queries: s.queries(g, x, shape),
        keys: s.keys(g, x, shape),
        position_queries: s.position_queries(g, x, shape),
        positions: s.positions(g),
        mask: g.value(s.mask),
    };
    let b = HeadInputs {
        queries: t.queries(h, y, shape),
        keys: t.keys(h, y, shape),
        position_queries: t.position_queries(h, y, shape),
        positions: t.positions(h),
        mask: h.value(t.mask),
    };
    assert(same_inputs(p, a, q, b));
    lemma_planes(p, a, q, b, shape, shape.num_heads as int);
}

proof fn lemma_module(
    p: OnDevice,
    s: XasrConvolutionModuleGraphTensors,
    x: TensorValue,
    q: OnDevice,
    t: XasrConvolutionModuleGraphTensors,
    y: TensorValue,
    shape: XasrConvolutionModuleGraphShape,
)
    requires
        same_module(p, s, q, t),
        p.same(x, q, y),
    ensures
        p.same(s.applied(p.graph, x, shape), q, t.applied(q.graph, y, shape)),
        p.same(s.next_cache(p.graph, x, shape), q, t.next_cache(q.graph, y, shape)),
{
    broadcast use group_alike;

    reveal(XasrConvolutionModuleGraphTensors::applied);
    reveal(XasrConvolutionModuleGraphTensors::next_cache);
    let g = p.graph;
    let h = q.graph;
    assert(p.same(s.channel_major(g, x, shape), q, t.channel_major(h, y, shape)));
    assert(p.same(s.cached_input(g, x, shape), q, t.cached_input(h, y, shape)));
    assert(p.same(s.mixed(g, x, shape), q, t.mixed(h, y, shape)));
}

#[verifier::spinoff_prover]
#[verifier::rlimit(40)]
proof fn lemma_head(
    p: OnDevice,
    s: XasrLayerHeadGraphTensors,
    x: TensorValue,
    q: OnDevice,
    t: XasrLayerHeadGraphTensors,
    y: TensorValue,
    shape: XasrLayerHeadGraphShape,
)
    requires
        same_head(p, s, q, t),
        p.same(x, q, y),
    ensures
        ({
            let a = s.applied(p.graph, x, shape);
            let b = t.applied(q.graph, y, shape);
            &&& p.same(a.attention, q, b.attention)
            &&& p.same(a.rows, q, b.rows)
            &&& p.same(a.new_cached_key, q, b.new_cached_key)
            &&& p.same(a.new_cached_nonlin_attention, q, b.new_cached_nonlin_attention)
            &&& p.same(a.new_cached_val1, q, b.new_cached_val1)
            &&& p.same(a.new_cached_conv1, q, b.new_cached_conv1)
        }),
{
    broadcast use group_alike;

    reveal(XasrLayerHeadGraphTensors::applied);
    let g = p.graph;
    let h = q.graph;
    let a = s.applied(g, x, shape);
    let b = t.applied(h, y, shape);
    lemma_feed_forward(p, s.feed_forward1, x, q, t.feed_forward1, y);
    assert(p.same(a.after_feed_forward, q, b.after_feed_forward));
    lemma_attention(
        p,
        s.attention_weights,
        x,
        q,
        t.attention_weights,
        y,
        shape.attention(),
    );
    lemma_nonlin_attention(
        p,
        s.nonlin_weights(g),
        a.attention,
        a.after_feed_forward,
        q,
        t.nonlin_weights(h),
        b.attention,
        b.after_feed_forward,
        shape.nonlin(),
    );
    assert(p.same(a.after_nonlin, q, b.after_nonlin));
    lemma_self_attention(
        p,
        s.self1_weights(g),
        a.attention,
        a.after_nonlin,
        q,
        t.self1_weights(h),
        b.attention,
        b.after_nonlin,
        shape.self_attention(shape.self1_value_dim),
    );
    assert(p.same(a.after_attention, q, b.after_attention));
    lemma_module(
        p,
        s.conv_module1,
        a.after_attention,
        q,
        t.conv_module1,
        b.after_attention,
        shape.conv(),
    );
    let convolved = a.after_attention.plus(
        s.conv_module1.applied(g, a.after_attention, shape.conv()),
    );
    let others = b.after_attention.plus(
        t.conv_module1.applied(h, b.after_attention, shape.conv()),
    );
    assert(p.same(convolved, q, others));
    lemma_feed_forward(p, s.feed_forward2, convolved, q, t.feed_forward2, others);
}

proof fn lemma_tail(
    p: OnDevice,
    s: XasrLayerTailGraphTensors,
    original: TensorValue,
    x: TensorValue,
    q: OnDevice,
    t: XasrLayerTailGraphTensors,
    other: TensorValue,
    y: TensorValue,
    shape: XasrLayerTailGraphShape,
)
    requires
        same_tail(p, s, q, t),
        p.same(original, q, other),
        p.same(x, q, y),
    ensures
        p.same(s.applied(p.graph, original, x, shape), q, t.applied(q.graph, other, y, shape)),
        p.same(
            s.conv_module2.next_cache(p.graph, x, shape.conv()),
            q,
            t.conv_module2.next_cache(q.graph, y, shape.conv()),
        ),
{
    broadcast use group_alike;

    reveal(XasrLayerTailGraphTensors::applied);
    lemma_module(p, s.conv_module2, x, q, t.conv_module2, y, shape.conv());
    let convolved = x.plus(s.conv_module2.applied(p.graph, x, shape.conv()));
    let others = y.plus(t.conv_module2.applied(q.graph, y, shape.conv()));
    assert(p.same(convolved, q, others));
    lemma_feed_forward(p, s.feed_forward3, convolved, q, t.feed_forward3, others);
}

/// Layers with alike weights and caches give alike values for alike rows.
pub proof fn law_same_layers_give_the_same(
    p: OnDevice,
    s: XasrZipformerLayerGraphTensors,
    x: TensorValue,
    q: OnDevice,
    t: XasrZipformerLayerGraphTensors,
    y: TensorValue,
    shape: XasrZipformerLayerGraphShape,
)
    requires
        same_layer(p, s, q, t),
        p.same(x, q, y),
    ensures
        same_values(p, s.applied(p.graph, x, shape), q, t.applied(q.graph, y, shape)),
{
    broadcast use group_alike;

    reveal(XasrZipformerLayerGraphTensors::applied);
    let a = s.layer_head.applied(p.graph, x, shape.layer_head);
    let b = t.layer_head.applied(q.graph, y, shape.layer_head);
    let values = shape.layer_head.self_attention(shape.self2_value_dim);
    lemma_head(p, s.layer_head, x, q, t.layer_head, y, shape.layer_head);
    lemma_self_attention(
        p,
        s.self2_weights(p.graph),
        a.attention,
        a.rows,
        q,
        t.self2_weights(q.graph),
        b.attention,
        b.rows,
        values,
    );
    let attended = a.rows.plus(
        self_attention_block(s.self2_weights(p.graph), a.attention, a.rows, values).rows,
    );
    let others = b.rows.plus(
        self_attention_block(t.self2_weights(q.graph), b.attention, b.rows, values).rows,
    );
    assert(p.same(attended, q, others));
    lemma_tail(p, s.layer_tail, x, attended, q, t.layer_tail, y, others, shape.layer_tail);
}

proof fn lemma_phase_sum(
    p: OnDevice,
    x: TensorValue,
    q: OnDevice,
    y: TensorValue,
    weights: Seq<u32>,
    dim: int,
    factor: int,
    out_frames: int,
    count: int,
)
    requires
        p.same(x, q, y),
    ensures
        p.same(
            layer_values::phase_sum(x, weights, dim, factor, out_frames, count),
            q,
            layer_values::phase_sum(y, weights, dim, factor, out_frames, count),
        ),
    decreases count,
{
    broadcast use group_alike;

    if count > 1 {
        lemma_phase_sum(p, x, q, y, weights, dim, factor, out_frames, count - 1);
    }
}

/// The padding that a downsampling needs is alike.
pub open spec fn same_padding(
    p: OnDevice,
    s: XasrDownsampleGraphTensors,
    q: OnDevice,
    t: XasrDownsampleGraphTensors,
    shape: XasrDownsampleGraphShape,
) -> bool {
    &&& shape.target_dim > shape.input_dim ==> p.same(
        p.graph.value(s.channel_pad->0),
        q,
        q.graph.value(t.channel_pad->0),
    )
    &&& shape.padded_frames() > shape.frames ==> p.same(
        p.graph.value(s.frame_pad->0),
        q,
        q.graph.value(t.frame_pad->0),
    )
}

/// Alike rows are downsampled alike.
pub proof fn lemma_same_downsampling(
    p: OnDevice,
    s: XasrDownsampleGraphTensors,
    x: TensorValue,
    q: OnDevice,
    t: XasrDownsampleGraphTensors,
    y: TensorValue,
    shape: XasrDownsampleGraphShape,
    weights: Seq<u32>,
)
    requires
        same_padding(p, s, q, t, shape),
        p.same(x, q, y),
    ensures
        p.same(shape.padded_value(p.graph, x, s), q, shape.padded_value(q.graph, y, t)),
        p.same(
            shape.rows_value(p.graph, x, s, weights),
            q,
            shape.rows_value(q.graph, y, t, weights),
        ),
{
    broadcast use group_alike;

    reveal(XasrDownsampleGraphShape::padded_value);
    reveal(XasrDownsampleGraphShape::rows_value);
    lemma_phase_sum(
        p,
        shape.padded_value(p.graph, x, s),
        q,
        shape.padded_value(q.graph, y, t),
        weights,
        shape.target_dim as int,
        shape.factor as int,
        shape.out_frames(),
        shape.factor as int,
    );
}

/// Alike rows are upsampled alike.
pub proof fn lemma_same_upsampling(
    p: OnDevice,
    x: TensorValue,
    q: OnDevice,
    y: TensorValue,
    dim: int,
    factor: int,
    target: int,
)
    requires
        p.same(x, q, y),
    ensures
        p.same(
            layer_values::upsampled(x, dim, factor, target),
            q,
            layer_values::upsampled(y, dim, factor, target),
        ),
    decreases target,
{
    broadcast use group_alike;

    if target > 1 {
        lemma_same_upsampling(p, x, q, y, dim, factor, target - 1);
    }
}

} // verus!
