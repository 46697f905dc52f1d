//! Attention blocks of the encoder as graph operations.

use vstd::prelude::*;
use crate::bits;
use crate::graph::{GgmlCpuGraphBuilder, GgmlCpuGraphError, GgmlCpuTensor};
use crate::layer_graph::{apply_linear_graph, product_or, sum_or};
use crate::layer_graph;
use crate::layer_values;
use crate::tensor_value::{TensorValue, ELEMENT_BYTES};

verus! {

/// Dimensions of the weighting of values by attention.
#[derive(Clone, Copy, Debug)]
pub struct XasrAttentionWeightedValuesGraphShape {
    pub frames: usize,
    pub left_context_len: usize,
    pub num_heads: usize,
    pub value_dim: usize,
}

impl XasrAttentionWeightedValuesGraphShape {
    /// Number of keys: the cached frames and the current ones.
    pub open spec fn k_len(self) -> int {
        self.left_context_len + self.frames
    }

    /// The attended heads side by side.
    pub open spec fn applied(self, values: TensorValue, attention: TensorValue) -> TensorValue {
        layer_values::attended_heads(
            values,
            attention,
            self.frames as int,
            self.k_len(),
            self.value_dim as int,
            (self.value_dim / self.num_heads) as int,
            self.num_heads as int,
        )
    }
}

/// Why the weighting of values is refused.
#[verifier::opaque]
pub open spec fn weighted_values_refusal(shape: XasrAttentionWeightedValuesGraphShape) -> Option<
    &'static str,
> {
    if shape.frames == 0 || shape.left_context_len == 0 || shape.num_heads == 0 || shape.value_dim
        == 0 {
        Some("xasr attention weighted values dimensions must be positive")
    } else if shape.value_dim % shape.num_heads != 0 {
        Some("xasr attention weighted values value_dim must be divisible by num_heads")
    } else if shape.k_len() > usize::MAX {
        Some("xasr attention weighted values key length overflows")
    } else if shape.value_dim * ELEMENT_BYTES > usize::MAX {
        Some("xasr attention weighted values row stride overflows")
    } else if shape.k_len() * ELEMENT_BYTES > usize::MAX {
        Some("xasr attention weighted values weight row stride overflows")
    } else if (shape.frames * shape.k_len()) * ELEMENT_BYTES > usize::MAX {
        Some("xasr attention weighted values weight head span overflows")
    } else if (shape.num_heads - 1) * ((shape.frames * shape.k_len()) * ELEMENT_BYTES)
        > usize::MAX {
        Some("xasr attention weighted values weight head offset overflows")
    } else {
        None
    }
}

/// Offsets of a head within rows that hold all heads.
proof fn lemma_head_offset(head: int, heads: int, head_dim: int, total: int)
    requires
        0 <= head < heads,
        head_dim >= 0,
        heads * head_dim == total,
    ensures
        0 <= head * head_dim,
        head * head_dim + head_dim <= total,
{
    assert(0 <= head * head_dim && head * head_dim + head_dim <= heads * head_dim)
        by (nonlinear_arith)
        requires
            0 <= head < heads,
            head_dim >= 0,
    ;
}

/// A multiple of the number of heads is that many heads of equal width.
proof fn lemma_heads_fill(total: int, heads: int)
    requires
        heads > 0,
        total >= 0,
        total % heads == 0,
    ensures
        heads * (total / heads) == total,
        total / heads <= total,
{
    vstd::arithmetic::div_mod::lemma_fundamental_div_mod(total, heads);
    vstd::arithmetic::div_mod::lemma_div_is_ordered_by_denominator(total, 1, heads);
}

/// Adds the values weighted by attention.
pub fn apply_attention_weighted_values_graph(
    graph: &mut GgmlCpuGraphBuilder,
    values: GgmlCpuTensor,
    attention_weights: GgmlCpuTensor,
    shape: XasrAttentionWeightedValuesGraphShape,
) -> (result: Result<GgmlCpuTensor, GgmlCpuGraphError>)
    requires
        old(graph).has_dense(values),
        old(graph).has_dense(attention_weights),
    ensures
        layer_graph::builds(
            result,
            *old(graph),
            *final(graph),
            weighted_values_refusal(shape),
            shape.applied(old(graph).value(values), old(graph).value(attention_weights)),
        ),
{
    proof {
        reveal(weighted_values_refusal);
    }
    if shape.frames == 0 || shape.left_context_len == 0 || shape.num_heads == 0 || shape.value_dim
        == 0 {
        return Err(
            GgmlCpuGraphError::UnsupportedInputs {
                reason: "xasr attention weighted values dimensions must be positive",
            },
        );
    }
    if shape.value_dim % shape.num_heads != 0 {
        return Err(
            GgmlCpuGraphError::UnsupportedInputs {
                reason: "xasr attention weighted values value_dim must be divisible by num_heads",
            },
        );
    }
    let k_len = sum_or(
        shape.left_context_len,
        shape.frames,
        "xasr attention weighted values key length overflows",
    )?;
    let value_head_dim = shape.value_dim / shape.num_heads;
    let value_row_stride = product_or(
        shape.value_dim,
        ELEMENT_BYTES,
        "xasr attention weighted values row stride overflows",
    )?;
    let attn_head_stride = product_or(
        k_len,
        ELEMENT_BYTES,
        "xasr attention weighted values weight row stride overflows",
    )?;
    let attn_head_len = product_or(
        shape.frames,
        k_len,
        "xasr attention weighted values weight head span overflows",
    )?;
    let attn_head_bytes = product_or(
        attn_head_len,
        ELEMENT_BYTES,
        "xasr attention weighted values weight head span overflows",
    )?;
    let ghost x = old(graph).value(values);
    let ghost a = old(graph).value(attention_weights);
    let mut head_outputs: Vec<GgmlCpuTensor> = Vec::new();
    let mut head: usize = 0;
    while head < shape.num_heads
        invariant
            shape.num_heads > 0,
            shape.value_dim % shape.num_heads == 0,
            value_head_dim == shape.value_dim / shape.num_heads,
            k_len == shape.k_len(),
            value_row_stride == shape.value_dim * ELEMENT_BYTES,
            attn_head_stride == k_len * ELEMENT_BYTES,
            attn_head_bytes == (shape.frames * k_len) * ELEMENT_BYTES,
            (shape.num_heads - 1) * attn_head_bytes <= usize::MAX ==> weighted_values_refusal(shape)
                is None,
            (shape.num_heads - 1) * attn_head_bytes > usize::MAX ==> weighted_values_refusal(shape)
                == Some("xasr attention weighted values weight head offset overflows"),
            old(graph).has_dense(values),
            old(graph).has_dense(attention_weights),
            x == old(graph).value(values),
            a == old(graph).value(attention_weights),
            graph.grew_from(*old(graph)),
            head <= shape.num_heads,
            head_outputs@.len() == head,
            head > 0 ==> (head - 1) * attn_head_bytes <= usize::MAX,
            forall|i: int|
                0 <= i < head ==> graph.has_dense(#[trigger] head_outputs@[i]) && graph.value(
                    head_outputs@[i],
                ) == layer_values::attended_head(
                    x,
                    a,
                    shape.frames as int,
                    k_len as int,
                    shape.value_dim as int,
                    value_head_dim as int,
                    i,
                ),
        decreases shape.num_heads - head,
    {
        proof {
            lemma_heads_fill(shape.value_dim as int, shape.num_heads as int);
            lemma_head_offset(
                head as int,
                shape.num_heads as int,
                value_head_dim as int,
                shape.value_dim as int,
            );
            vstd::arithmetic::mul::lemma_mul_inequality(
                head as int,
                shape.num_heads - 1,
                attn_head_bytes as int,
            );
        }
        let value_start = product_or(
            head,
            value_head_dim,
            "xasr attention weighted values value head offset overflows",
        )?;
        let value_offset = product_or(
            value_start,
            ELEMENT_BYTES,
            "xasr attention weighted values value head offset overflows",
        )?;
        let values_head = graph.view_2d(
            values,
            value_head_dim,
            k_len,
            value_row_stride,
            value_offset,
        );
        let values_head = graph.cont(values_head);
        let values_head = graph.transpose(values_head);
        let values_head = graph.cont(values_head);
        let attn_offset = product_or(
            head,
            attn_head_bytes,
            "xasr attention weighted values weight head offset overflows",
        )?;
        let attn_head = graph.view_2d(
            attention_weights,
            k_len,
            shape.frames,
            attn_head_stride,
            attn_offset,
        );
        let attended = graph.mul_mat(values_head, attn_head);
        let attended = graph.cont(attended);
        head_outputs.push(attended);
        head = head + 1;
    }
    let mut combined = head_outputs[0];
    let mut next: usize = 1;
    let ghost collected = *graph;
    while next < head_outputs.len()
        invariant
            head_outputs@.len() == shape.num_heads,
            1 <= next <= shape.num_heads,
            collected.grew_from(*old(graph)),
            graph.grew_from(collected),
            forall|i: int|
                0 <= i < shape.num_heads ==> collected.has_dense(#[trigger] head_outputs@[i])
                    && collected.value(head_outputs@[i]) == layer_values::attended_head(
                    x,
                    a,
                    shape.frames as int,
                    k_len as int,
                    shape.value_dim as int,
                    value_head_dim as int,
                    i,
                ),
            graph.has_dense(combined),
            graph.value(combined) == layer_values::attended_heads(
                x,
                a,
                shape.frames as int,
                k_len as int,
                shape.value_dim as int,
                value_head_dim as int,
                next as int,
            ),
        decreases head_outputs.len() - next,
    {
        combined = graph.concat(combined, head_outputs[next], 0);
        next = next + 1;
    }
    Ok(combined)
}

/// Operands of a self-attention block.
#[derive(Clone, Copy, Debug)]
pub struct XasrSelfAttentionGraphTensors {
    pub cache: GgmlCpuTensor,
    pub attention_weights: GgmlCpuTensor,
    pub in_proj_weight: GgmlCpuTensor,
    pub in_proj_bias: GgmlCpuTensor,
    pub out_proj_weight: GgmlCpuTensor,
    pub out_proj_bias: GgmlCpuTensor,
}

/// Dimensions of a self-attention block.
#[derive(Clone, Copy, Debug)]
pub struct XasrSelfAttentionGraphShape {
    pub dim: usize,
    pub frames: usize,
    pub left_context_len: usize,
    pub num_heads: usize,
    pub value_dim: usize,
}

/// Result of a self-attention block.
#[derive(Clone, Copy, Debug)]
pub struct XasrSelfAttentionGraphOutput {
    pub rows: GgmlCpuTensor,
    pub new_cache: GgmlCpuTensor,
}

impl XasrSelfAttentionGraphShape {
    pub open spec fn weighting(self) -> XasrAttentionWeightedValuesGraphShape {
        XasrAttentionWeightedValuesGraphShape {
            frames: self.frames,
            left_context_len: self.left_context_len,
            num_heads: self.num_heads,
            value_dim: self.value_dim,
        }
    }
}

impl XasrSelfAttentionGraphTensors {
    /// The tensors belong to `graph`.
    pub open spec fn within(self, graph: GgmlCpuGraphBuilder) -> bool {
        &&& graph.has_dense(self.cache)
        &&& graph.has_dense(self.attention_weights)
        &&& graph.has_dense(self.in_proj_weight)
        &&& graph.has_dense(self.in_proj_bias)
        &&& graph.has_dense(self.out_proj_weight)
        &&& graph.has_dense(self.out_proj_bias)
    }

    pub open spec fn weights(self, graph: GgmlCpuGraphBuilder) -> AttentionBlockValues {
        AttentionBlockValues {
            cache: graph.value(self.cache),
            in_weight: graph.value(self.in_proj_weight),
            in_bias: graph.value(self.in_proj_bias),
            out_weight: graph.value(self.out_proj_weight),
            out_bias: graph.value(self.out_proj_bias),
        }
    }
}

/// The values of the operands of an attention block.
pub struct AttentionBlockValues {
    pub cache: TensorValue,
    pub in_weight: TensorValue,
    pub in_bias: TensorValue,
    pub out_weight: TensorValue,
    pub out_bias: TensorValue,
}

/// Rows and new cache of an attention block.
pub struct AttentionBlockResult {
    pub rows: TensorValue,
    pub new_cache: TensorValue,
}

/// Self-attention: the values of the cached and the current frames, weighted
/// by attention and projected.  The values of the last `left_context_len`
/// frames become the new cache.
#[verifier::opaque]
pub open spec fn self_attention_block(
    operands: AttentionBlockValues,
    attention: TensorValue,
    x: TensorValue,
    shape: XasrSelfAttentionGraphShape,
) -> AttentionBlockResult {
    let values = operands.cache.concat(
        layer_values::linear(operands.in_weight, x, operands.in_bias),
        1,
    );
    AttentionBlockResult {
        rows: layer_values::linear(
            operands.out_weight,
            shape.weighting().applied(values, attention),
            operands.out_bias,
        ),
        new_cache: values.window(
            shape.value_dim as int,
            shape.left_context_len as int,
            shape.value_dim * ELEMENT_BYTES,
            (shape.frames * shape.value_dim) * ELEMENT_BYTES,
        ),
    }
}

/// Why a self-attention block is refused.
#[verifier::opaque]
pub open spec fn self_attention_refusal(
    shape: XasrSelfAttentionGraphShape,
) -> Option<&'static str> {
    if shape.dim == 0 || shape.frames == 0 || shape.left_context_len == 0 || shape.num_heads == 0
        || shape.value_dim == 0 {
        Some("xasr self attention dimensions must be positive")
    } else if shape.value_dim % shape.num_heads != 0 {
        Some("xasr self attention value_dim must be divisible by num_heads")
    } else if (shape.frames * shape.value_dim) * ELEMENT_BYTES > usize::MAX {
        Some("xasr self attention cache offset overflows")
    } else if shape.value_dim * ELEMENT_BYTES > usize::MAX {
        Some("xasr self attention value row stride overflows")
    } else {
        weighted_values_refusal(shape.weighting())
    }
}

/// What is promised of a block that returns rows and a new cache.
pub open spec fn builds_with_cache(
    before: GgmlCpuGraphBuilder,
    after: GgmlCpuGraphBuilder,
    rows: GgmlCpuTensor,
    new_cache: GgmlCpuTensor,
    rows_value: TensorValue,
    cache_value: TensorValue,
) -> bool {
    &&& after.has_dense(rows)
    &&& after.has_dense(new_cache)
    &&& after.value(rows) == rows_value
    &&& after.value(new_cache) == cache_value
}

/// Adds a self-attention block.
pub fn apply_self_attention_value_graph(
    graph: &mut GgmlCpuGraphBuilder,
    input: GgmlCpuTensor,
    tensors: XasrSelfAttentionGraphTensors,
    shape: XasrSelfAttentionGraphShape,
) -> (result: Result<XasrSelfAttentionGraphOutput, GgmlCpuGraphError>)
    requires
        old(graph).has(input),
        tensors.within(*old(graph)),
    ensures
        final(graph).grew_from(*old(graph)),
        match self_attention_refusal(shape) {
            Some(reason) => result == Err::<XasrSelfAttentionGraphOutput, GgmlCpuGraphError>(
                layer_graph::refusal_error(reason),
            ),
            None => result is Ok && builds_with_cache(
                *old(graph),
                *final(graph),
                result->Ok_0.rows,
                result->Ok_0.new_cache,
                self_attention_block(
                    tensors.weights(*old(graph)),
                    old(graph).value(tensors.attention_weights),
                    old(graph).value(input),
                    shape,
                ).rows,
                self_attention_block(
                    tensors.weights(*old(graph)),
                    old(graph).value(tensors.attention_weights),
                    old(graph).value(input),
                    shape,
                ).new_cache,
            ),
        },
{
    proof {
        reveal(self_attention_refusal);
        reveal(self_attention_block);
    }
    if shape.dim == 0 || shape.frames == 0 || shape.left_context_len == 0 || shape.num_heads == 0
        || shape.value_dim == 0 {
        return Err(
            GgmlCpuGraphError::UnsupportedInputs {
                reason: "xasr self attention dimensions must be positive",
            },
        );
    }
    if shape.value_dim % shape.num_heads != 0 {
        return Err(
            GgmlCpuGraphError::UnsupportedInputs {
                reason: "xasr self attention value_dim must be divisible by num_heads",
            },
        );
    }
    let current = apply_linear_graph(graph, tensors.in_proj_weight, input, tensors.in_proj_bias);
    let values = graph.concat(tensors.cache, current, 1);
    let new_cache_start = product_or(
        shape.frames,
        shape.value_dim,
        "xasr self attention cache offset overflows",
    )?;
    let new_cache_offset = product_or(
        new_cache_start,
        ELEMENT_BYTES,
        "xasr self attention cache offset overflows",
    )?;
    let value_row_stride = product_or(
        shape.value_dim,
        ELEMENT_BYTES,
        "xasr self attention value row stride overflows",
    )?;
    let new_cache = graph.view_2d(
        values,
        shape.value_dim,
        shape.left_context_len,
        value_row_stride,
        new_cache_offset,
    );
    let new_cache = graph.cont(new_cache);
    let combined = apply_attention_weighted_values_graph(
        graph,
        values,
        tensors.attention_weights,
        XasrAttentionWeightedValuesGraphShape {
            frames: shape.frames,
            left_context_len: shape.left_context_len,
            num_heads: shape.num_heads,
            value_dim: shape.value_dim,
        },
    )?;
    let rows = apply_linear_graph(
        graph,
        tensors.out_proj_weight,
        combined,
        tensors.out_proj_bias,
    );
    Ok(XasrSelfAttentionGraphOutput { rows, new_cache })
}

/// Operands of a nonlinear attention block.
#[derive(Clone, Copy, Debug)]
pub struct XasrNonlinAttentionGraphTensors {
    pub cache: GgmlCpuTensor,
    pub attention_weights: GgmlCpuTensor,
    pub in_proj_weight: GgmlCpuTensor,
    pub in_proj_bias: GgmlCpuTensor,
    pub out_proj_weight: GgmlCpuTensor,
    pub out_proj_bias: GgmlCpuTensor,
}

/// Dimensions of a nonlinear attention block.
#[derive(Clone, Copy, Debug)]
pub struct XasrNonlinAttentionGraphShape {
    pub dim: usize,
    pub frames: usize,
    pub left_context_len: usize,
    pub num_heads: usize,
    pub hidden_dim: usize,
}

/// Result of a nonlinear attention block.
#[derive(Clone, Copy, Debug)]
pub struct XasrNonlinAttentionGraphOutput {
    pub rows: GgmlCpuTensor,
    pub new_cache: GgmlCpuTensor,
}

impl XasrNonlinAttentionGraphShape {
    pub open spec fn weighting(self) -> XasrAttentionWeightedValuesGraphShape {
        XasrAttentionWeightedValuesGraphShape {
            frames: self.frames,
            left_context_len: self.left_context_len,
            num_heads: self.num_heads,
            value_dim: self.hidden_dim,
        }
    }

    /// Third `part` of each projected row.
    pub open spec fn third(self, projected: TensorValue, part: int) -> TensorValue {
        projected.window(
            self.hidden_dim as int,
            self.frames as int,
            (self.hidden_dim * 3) * ELEMENT_BYTES,
            part * (self.hidden_dim * ELEMENT_BYTES),
        )
    }
}

impl XasrNonlinAttentionGraphTensors {
    /// The tensors belong to `graph`.
    pub open spec fn within(self, graph: GgmlCpuGraphBuilder) -> bool {
        &&& graph.has_dense(self.cache)
        &&& graph.has_dense(self.attention_weights)
        &&& graph.has_dense(self.in_proj_weight)
        &&& graph.has_dense(self.in_proj_bias)
        &&& graph.has_dense(self.out_proj_weight)
        &&& graph.has_dense(self.out_proj_bias)
    }

    pub open spec fn weights(self, graph: GgmlCpuGraphBuilder) -> AttentionBlockValues {
        AttentionBlockValues {
            cache: graph.value(self.cache),
            in_weight: graph.value(self.in_proj_weight),
            in_bias: graph.value(self.in_proj_bias),
            out_weight: graph.value(self.out_proj_weight),
            out_bias: graph.value(self.out_proj_bias),
        }
    }
}

/// Nonlinear attention: the second third of the projection, gated by the tanh
/// of the first, gives the values; attended, they are gated by the last third
/// and projected back.  The values of the last `left_context_len` frames become
/// the new cache.
#[verifier::opaque]
pub open spec fn nonlin_attention_block(
    operands: AttentionBlockValues,
    attention: TensorValue,
    x: TensorValue,
    shape: XasrNonlinAttentionGraphShape,
) -> AttentionBlockResult {
    let projected = layer_values::linear(operands.in_weight, x, operands.in_bias);
    let values = operands.cache.concat(
        shape.third(projected, 1).times(shape.third(projected, 0).tanh()),
        1,
    );
    AttentionBlockResult {
        rows: layer_values::linear(
            operands.out_weight,
            shape.weighting().applied(values, attention).times(shape.third(projected, 2)),
            operands.out_bias,
        ),
        new_cache: values.window(
            shape.hidden_dim as int,
            shape.left_context_len as int,
            shape.hidden_dim * ELEMENT_BYTES,
            (shape.frames * shape.hidden_dim) * ELEMENT_BYTES,
        ),
    }
}

/// Why a nonlinear attention block is refused.
#[verifier::opaque]
pub open spec fn nonlin_attention_refusal(
    shape: XasrNonlinAttentionGraphShape,
) -> Option<&'static str> {
    if shape.dim == 0 || shape.frames == 0 || shape.left_context_len == 0 || shape.num_heads == 0
        || shape.hidden_dim == 0 {
        Some("xasr nonlin attention dimensions must be positive")
    } else if shape.hidden_dim % shape.num_heads != 0 {
        Some("xasr nonlin attention hidden_dim must be divisible by num_heads")
    } else if shape.hidden_dim * 3 > usize::MAX {
        Some("xasr nonlin attention projected dim overflows")
    } else if (shape.hidden_dim * 3) * ELEMENT_BYTES > usize::MAX {
        Some("xasr nonlin attention projected row stride overflows")
    } else if (shape.frames * shape.hidden_dim) * ELEMENT_BYTES > usize::MAX {
        Some("xasr nonlin attention cache offset overflows")
    } else {
        weighted_values_refusal(shape.weighting())
    }
}

/// Adds a nonlinear attention block.
pub fn apply_nonlin_attention_value_graph(
    graph: &mut GgmlCpuGraphBuilder,
    input: GgmlCpuTensor,
    tensors: XasrNonlinAttentionGraphTensors,
    shape: XasrNonlinAttentionGraphShape,
) -> (result: Result<XasrNonlinAttentionGraphOutput, GgmlCpuGraphError>)
    requires
        old(graph).has(input),
        tensors.within(*old(graph)),
    ensures
        final(graph).grew_from(*old(graph)),
        match nonlin_attention_refusal(shape) {
            Some(reason) => result == Err::<XasrNonlinAttentionGraphOutput, GgmlCpuGraphError>(
                layer_graph::refusal_error(reason),
            ),
            None => result is Ok && builds_with_cache(
                *old(graph),
                *final(graph),
                result->Ok_0.rows,
                result->Ok_0.new_cache,
                nonlin_attention_block(
                    tensors.weights(*old(graph)),
                    old(graph).value(tensors.attention_weights),
                    old(graph).value(input),
                    shape,
                ).rows,
                nonlin_attention_block(
                    tensors.weights(*old(graph)),
                    old(graph).value(tensors.attention_weights),
                    old(graph).value(input),
                    shape,
                ).new_cache,
            ),
        },
{
    proof {
        reveal(nonlin_attention_refusal);
        reveal(nonlin_attention_block);
    }
    if shape.dim == 0 || shape.frames == 0 || shape.left_context_len == 0 || shape.num_heads == 0
        || shape.hidden_dim == 0 {
        return Err(
            GgmlCpuGraphError::UnsupportedInputs {
                reason: "xasr nonlin attention dimensions must be positive",
            },
        );
    }
    if shape.hidden_dim % shape.num_heads != 0 {
        return Err(
            GgmlCpuGraphError::UnsupportedInputs {
                reason: "xasr nonlin attention hidden_dim must be divisible by num_heads",
            },
        );
    }
    let projected_dim = product_or(
        shape.hidden_dim,
        3,
        "xasr nonlin attention projected dim overflows",
    )?;
    let projected_row_stride = product_or(
        projected_dim,
        ELEMENT_BYTES,
        "xasr nonlin attention projected row stride overflows",
    )?;
    let projected = apply_linear_graph(graph, tensors.in_proj_weight, input, tensors.in_proj_bias);
    let gate = graph.view_2d(projected, shape.hidden_dim, shape.frames, projected_row_stride, 0);
    let gate = graph.cont(gate);
    let gate = graph.tanh(gate);
    let x_offset = product_or(
        shape.hidden_dim,
        ELEMENT_BYTES,
        "xasr nonlin attention x offset overflows",
    )?;
    let x = graph.view_2d(
        projected,
        shape.hidden_dim,
        shape.frames,
        projected_row_stride,
        x_offset,
    );
    let x = graph.cont(x);
    let x = graph.mul(x, gate);
    let y_offset = product_or(x_offset, 2, "xasr nonlin attention y offset overflows")?;
    let y = graph.view_2d(
        projected,
        shape.hidden_dim,
        shape.frames,
        projected_row_stride,
        y_offset,
    );
    let y = graph.cont(y);
    let values = graph.concat(tensors.cache, x, 1);
    let value_row_stride = product_or(
        shape.hidden_dim,
        ELEMENT_BYTES,
        "xasr nonlin attention value row stride overflows",
    )?;
    let new_cache_start = product_or(
        shape.frames,
        shape.hidden_dim,
        "xasr nonlin attention cache offset overflows",
    )?;
    let new_cache_offset = product_or(
        new_cache_start,
        ELEMENT_BYTES,
        "xasr nonlin attention cache offset overflows",
    )?;
    let new_cache = graph.view_2d(
        values,
        shape.hidden_dim,
        shape.left_context_len,
        value_row_stride,
        new_cache_offset,
    );
    let new_cache = graph.cont(new_cache);
    let attended = apply_attention_weighted_values_graph(
        graph,
        values,
        tensors.attention_weights,
        XasrAttentionWeightedValuesGraphShape {
            frames: shape.frames,
            left_context_len: shape.left_context_len,
            num_heads: shape.num_heads,
            value_dim: shape.hidden_dim,
        },
    )?;
    let attended = graph.mul(attended, y);
    let rows = apply_linear_graph(
        graph,
        tensors.out_proj_weight,
        attended,
        tensors.out_proj_bias,
    );
    Ok(XasrNonlinAttentionGraphOutput { rows, new_cache })
}

/// Operands of the attention weights.
#[derive(Clone, Copy, Debug)]
pub struct XasrSelfAttentionWeightsGraphTensors {
    pub cache: GgmlCpuTensor,
    pub mask: GgmlCpuTensor,
    pub pos_embedding: GgmlCpuTensor,
    pub in_proj_weight: GgmlCpuTensor,
    pub in_proj_bias: GgmlCpuTensor,
    pub linear_pos_weight: GgmlCpuTensor,
}

/// Dimensions of the attention weights.
#[derive(Clone, Copy, Debug)]
pub struct XasrSelfAttentionWeightsGraphShape {
    pub dim: usize,
    pub frames: usize,
    pub left_context_len: usize,
    pub num_heads: usize,
    pub query_head_dim: usize,
    pub pos_dim: usize,
    pub pos_output_dim: usize,
}

/// Result of the attention weights.
#[derive(Clone, Copy, Debug)]
pub struct XasrSelfAttentionWeightsGraphOutput {
    pub weights: GgmlCpuTensor,
    pub new_cache: GgmlCpuTensor,
}

impl XasrSelfAttentionWeightsGraphShape {
    pub open spec fn query_dim(self) -> int {
        self.num_heads * self.query_head_dim
    }

    pub open spec fn projected_dim(self) -> int {
        self.query_dim() * 2 + self.pos_output_dim
    }

    /// Number of keys: the cached frames and the current ones.
    pub open spec fn k_len(self) -> int {
        self.left_context_len + self.frames
    }

    /// Number of relative positions.
    pub open spec fn rel_len(self) -> int {
        self.left_context_len + self.frames * 2 - 1
    }

    pub open spec fn pos_head_dim(self) -> int {
        (self.pos_output_dim / self.num_heads) as int
    }

    /// Attention probabilities of one head.
    pub open spec fn head_weights(
        self,
        q: TensorValue,
        all_keys: TensorValue,
        p: TensorValue,
        positions: TensorValue,
        mask: TensorValue,
        head: int,
    ) -> TensorValue {
        let query_stride = self.query_dim() * ELEMENT_BYTES;
        let query_offset = (head * self.query_head_dim) * ELEMENT_BYTES;
        let q_head = q.window(
            self.query_head_dim as int,
            self.frames as int,
            query_stride,
            query_offset,
        );
        let k_head = all_keys.window(
            self.query_head_dim as int,
            self.k_len(),
            query_stride,
            query_offset,
        );
        let p_head = p.window(
            self.pos_head_dim(),
            self.frames as int,
            self.pos_output_dim * ELEMENT_BYTES,
            (head * self.pos_head_dim()) * ELEMENT_BYTES,
        );
        k_head.mul_mat(q_head).plus(self.position_scores(positions, p_head, head)).cont().soft_max(
            Some(mask),
            bits::ONE_BITS,
            bits::ZERO_BITS,
        ).cont()
    }

    /// Scores by relative position of one head.
    pub open spec fn position_scores(
        self,
        positions: TensorValue,
        p_head: TensorValue,
        head: int,
    ) -> TensorValue {
        layer_values::position_columns(
            positions,
            p_head,
            self.frames as int,
            self.k_len(),
            self.pos_output_dim as int,
            self.pos_head_dim(),
            head,
            self.frames as int,
        )
    }

    /// Attention probabilities of the first `heads` heads, one plane each.
    pub open spec fn planes(
        self,
        q: TensorValue,
        all_keys: TensorValue,
        p: TensorValue,
        positions: TensorValue,
        mask: TensorValue,
        heads: int,
    ) -> TensorValue
        decreases heads,
    {
        let last = self.head_weights(q, all_keys, p, positions, mask, heads - 1);
        if heads <= 1 {
            last
        } else {
            self.planes(q, all_keys, p, positions, mask, heads - 1).concat(last, 2)
        }
    }
}

impl XasrSelfAttentionWeightsGraphTensors {
    /// The tensors belong to `graph`.
    pub open spec fn within(self, graph: GgmlCpuGraphBuilder) -> bool {
        &&& graph.has_dense(self.cache)
        &&& graph.has_dense(self.mask)
        &&& graph.has_dense(self.pos_embedding)
        &&& graph.has_dense(self.in_proj_weight)
        &&& graph.has_dense(self.in_proj_bias)
        &&& graph.has_dense(self.linear_pos_weight)
    }

    pub open spec fn projected(self, graph: GgmlCpuGraphBuilder, x: TensorValue) -> TensorValue {
        layer_values::linear(graph.value(self.in_proj_weight), x, graph.value(self.in_proj_bias))
    }

    /// Queries of the current frames.
    pub open spec fn queries(
        self,
        graph: GgmlCpuGraphBuilder,
        x: TensorValue,
        shape: XasrSelfAttentionWeightsGraphShape,
    ) -> TensorValue {
        self.projected(graph, x).window(
            shape.query_dim(),
            shape.frames as int,
            shape.projected_dim() * ELEMENT_BYTES,
            0,
        )
    }

    /// Cached keys followed by those of the current frames.
    pub open spec fn keys(
        self,
        graph: GgmlCpuGraphBuilder,
        x: TensorValue,
        shape: XasrSelfAttentionWeightsGraphShape,
    ) -> TensorValue {
        graph.value(self.cache).concat(
            self.projected(graph, x).window(
                shape.query_dim(),
                shape.frames as int,
                shape.projected_dim() * ELEMENT_BYTES,
                shape.query_dim() * ELEMENT_BYTES,
            ),
            1,
        )
    }

    /// Position queries of the current frames.
    pub open spec fn position_queries(
        self,
        graph: GgmlCpuGraphBuilder,
        x: TensorValue,
        shape: XasrSelfAttentionWeightsGraphShape,
    ) -> TensorValue {
        self.projected(graph, x).window(
            shape.pos_output_dim as int,
            shape.frames as int,
            shape.projected_dim() * ELEMENT_BYTES,
            (shape.query_dim() * ELEMENT_BYTES) * 2,
        )
    }

    /// Projected position embeddings.
    pub open spec fn positions(self, graph: GgmlCpuGraphBuilder) -> TensorValue {
        graph.value(self.linear_pos_weight).mul_mat(graph.value(self.pos_embedding)).cont()
    }

    /// The keys of the last `left_context_len` frames.
    #[verifier::opaque]
    pub open spec fn next_cache(
        self,
        graph: GgmlCpuGraphBuilder,
        x: TensorValue,
        shape: XasrSelfAttentionWeightsGraphShape,
    ) -> TensorValue {
        self.keys(graph, x, shape).window(
            shape.query_dim(),
            shape.left_context_len as int,
            shape.query_dim() * ELEMENT_BYTES,
            (shape.frames * shape.query_dim()) * ELEMENT_BYTES,
        )
    }

    /// The attention probabilities, one plane for each head.
    #[verifier::opaque]
    pub open spec fn applied(
        self,
        graph: GgmlCpuGraphBuilder,
        x: TensorValue,
        shape: XasrSelfAttentionWeightsGraphShape,
    ) -> TensorValue {
        shape.planes(
            self.queries(graph, x, shape),
            self.keys(graph, x, shape),
            self.position_queries(graph, x, shape),
            self.positions(graph),
            graph.value(self.mask),
            shape.num_heads as int,
        )
    }

    /// What the block computes does not change while the graph grows.
    pub proof fn lemma_applied_in_grown(
        self,
        before: GgmlCpuGraphBuilder,
        after: GgmlCpuGraphBuilder,
        x: TensorValue,
        shape: XasrSelfAttentionWeightsGraphShape,
    )
        requires
            self.within(before),
            after.builds_on(before),
        ensures
            self.within(after),
            self.applied(after, x, shape) == self.applied(before, x, shape),
            self.next_cache(after, x, shape) == self.next_cache(before, x, shape),
    {
        reveal(XasrSelfAttentionWeightsGraphTensors::applied);
        reveal(XasrSelfAttentionWeightsGraphTensors::next_cache);
    }
}

/// Why attention weights are refused.
#[verifier::opaque]
pub open spec fn attention_weights_refusal(shape: XasrSelfAttentionWeightsGraphShape) -> Option<
    &'static str,
> {
    if shape.dim == 0 || shape.frames == 0 || shape.left_context_len == 0 || shape.num_heads == 0
        || shape.query_head_dim == 0 || shape.pos_dim == 0 || shape.pos_output_dim == 0 {
        Some("xasr self attention weights dimensions must be positive")
    } else if shape.pos_output_dim % shape.num_heads != 0 {
        Some("xasr self attention pos output dim must be divisible by num_heads")
    } else if shape.query_dim() > usize::MAX {
        Some("xasr self attention query dim overflows")
    } else if shape.projected_dim() > usize::MAX {
        Some("xasr self attention projected dim overflows")
    } else if shape.k_len() > usize::MAX {
        Some("xasr self attention key length overflows")
    } else if shape.left_context_len + shape.frames * 2 > usize::MAX {
        Some("xasr self attention relative length overflows")
    } else if shape.projected_dim() * ELEMENT_BYTES > usize::MAX {
        Some("xasr self attention projected row stride overflows")
    } else if (shape.frames * shape.query_dim()) * ELEMENT_BYTES > usize::MAX {
        Some("xasr self attention new cache offset overflows")
    } else if ((shape.frames - 1) * shape.pos_output_dim + (shape.num_heads - 1)
        * shape.pos_head_dim()) * ELEMENT_BYTES > usize::MAX {
        Some("xasr self attention relative position offset overflows")
    } else {
        None
    }
}

/// Tensors from which each head takes its part.
#[derive(Clone, Copy, Debug)]
struct AttentionHeadOperands {
    q: GgmlCpuTensor,
    all_keys: GgmlCpuTensor,
    p: GgmlCpuTensor,
    positions: GgmlCpuTensor,
    mask: GgmlCpuTensor,
}

impl AttentionHeadOperands {
    spec fn within(self, graph: GgmlCpuGraphBuilder) -> bool {
        &&& graph.has_dense(self.q)
        &&& graph.has_dense(self.all_keys)
        &&& graph.has_dense(self.p)
        &&& graph.has_dense(self.positions)
        &&& graph.has_dense(self.mask)
    }

    spec fn head_weights(
        self,
        graph: GgmlCpuGraphBuilder,
        shape: XasrSelfAttentionWeightsGraphShape,
        head: int,
    ) -> TensorValue {
        shape.head_weights(
            graph.value(self.q),
            graph.value(self.all_keys),
            graph.value(self.p),
            graph.value(self.positions),
            graph.value(self.mask),
            head,
        )
    }
}

/// The checks that stand before the heads are built have passed.
spec fn head_checks_passed(shape: XasrSelfAttentionWeightsGraphShape) -> bool {
    &&& shape.frames > 0
    &&& shape.num_heads > 0
    &&& shape.query_head_dim > 0
    &&& shape.pos_output_dim > 0
    &&& shape.pos_output_dim % shape.num_heads == 0
    &&& shape.left_context_len + shape.frames * 2 <= usize::MAX
    &&& shape.projected_dim() * ELEMENT_BYTES <= usize::MAX
}

/// The largest byte offset into the positions that a head uses.
spec fn last_position_offset(shape: XasrSelfAttentionWeightsGraphShape, head: int) -> int {
    ((shape.frames - 1) * shape.pos_output_dim + head * shape.pos_head_dim()) * ELEMENT_BYTES
}

/// Bounds on the offsets of head `head` at frame `target`.
proof fn lemma_position_offsets(shape: XasrSelfAttentionWeightsGraphShape, head: int, target: int)
    requires
        head_checks_passed(shape),
        0 <= head < shape.num_heads,
        0 <= target < shape.frames,
    ensures
        shape.num_heads * shape.pos_head_dim() == shape.pos_output_dim,
        0 <= shape.pos_head_dim() <= shape.pos_output_dim,
        0 <= head * shape.pos_head_dim() <= shape.pos_output_dim,
        0 <= (shape.frames - 1 - target) * shape.pos_output_dim <= (shape.frames - 1)
            * shape.pos_output_dim,
        0 <= target * (shape.pos_head_dim() * ELEMENT_BYTES) <= last_position_offset(shape, head),
        0 <= head * shape.query_head_dim <= shape.query_dim(),
        0 <= shape.query_dim(),
        last_position_offset(shape, head) <= last_position_offset(shape, shape.num_heads - 1),
{
    let out = shape.pos_output_dim as int;
    let phd = shape.pos_head_dim();
    lemma_heads_fill(out, shape.num_heads as int);
    vstd::arithmetic::div_mod::lemma_div_pos_is_pos(out, shape.num_heads as int);
    lemma_head_offset(head, shape.num_heads as int, phd, out);
    vstd::arithmetic::mul::lemma_mul_inequality(0, shape.frames - 1 - target, out);
    vstd::arithmetic::mul::lemma_mul_inequality(shape.frames - 1 - target, shape.frames - 1, out);
    lemma_head_offset(
        head,
        shape.num_heads as int,
        shape.query_head_dim as int,
        shape.query_dim(),
    );
    vstd::arithmetic::mul::lemma_mul_inequality(head, shape.num_heads - 1, phd);
    assert(0 <= target * (phd * 4) <= ((shape.frames - 1) * out + head * phd) * 4)
        by (nonlinear_arith)
        requires
            0 <= target <= shape.frames - 1,
            0 <= phd <= out,
            0 <= head * phd,
    ;
}

/// Adds the scores by relative position of one head.
fn apply_position_scores_graph(
    graph: &mut GgmlCpuGraphBuilder,
    positions: GgmlCpuTensor,
    p_head: GgmlCpuTensor,
    shape: XasrSelfAttentionWeightsGraphShape,
    head: usize,
) -> (result: Result<GgmlCpuTensor, GgmlCpuGraphError>)
    requires
        old(graph).has_dense(positions),
        old(graph).has_dense(p_head),
        head_checks_passed(shape),
        head < shape.num_heads,
    ensures
        layer_graph::builds(
            result,
            *old(graph),
            *final(graph),
            if last_position_offset(shape, head as int) > usize::MAX {
                Some("xasr self attention relative position offset overflows")
            } else {
                None
            },
            shape.position_scores(
                old(graph).value(positions),
                old(graph).value(p_head),
                head as int,
            ),
        ),
{
    let k_len = shape.left_context_len + shape.frames;
    let rel_len = shape.left_context_len + (shape.frames * 2 - 1);
    let pos_head_dim = shape.pos_output_dim / shape.num_heads;
    proof {
        lemma_position_offsets(shape, head as int, 0);
    }
    let pos_row_stride = product_or(
        shape.pos_output_dim,
        ELEMENT_BYTES,
        "xasr self attention pos row stride overflows",
    )?;
    let pos_head_span_bytes = product_or(
        pos_head_dim,
        ELEMENT_BYTES,
        "xasr self attention pos head span overflows",
    )?;
    let ghost pv = old(graph).value(positions);
    let ghost hv = old(graph).value(p_head);
    let mut pos_columns: Vec<GgmlCpuTensor> = Vec::new();
    let mut target: usize = 0;
    while target < shape.frames
        invariant
            head_checks_passed(shape),
            head < shape.num_heads,
            k_len == shape.k_len(),
            rel_len == shape.rel_len(),
            pos_head_dim == shape.pos_head_dim(),
            pos_row_stride == shape.pos_output_dim * ELEMENT_BYTES,
            pos_head_span_bytes == pos_head_dim * ELEMENT_BYTES,
            old(graph).has_dense(positions),
            old(graph).has_dense(p_head),
            pv == old(graph).value(positions),
            hv == old(graph).value(p_head),
            graph.grew_from(*old(graph)),
            target <= shape.frames,
            target > 0 ==> last_position_offset(shape, head as int) <= usize::MAX,
            pos_columns@.len() == target,
            forall|i: int|
                0 <= i < target ==> graph.has_dense(#[trigger] pos_columns@[i]) && graph.value(
                    pos_columns@[i],
                ) == layer_values::position_column(
                    pv,
                    hv,
                    shape.frames as int,
                    k_len as int,
                    shape.pos_output_dim as int,
                    pos_head_dim as int,
                    head as int,
                    i,
                ),
        decreases shape.frames - target,
    {
        proof {
            lemma_position_offsets(shape, head as int, target as int);
            lemma_position_offsets(shape, head as int, 0);
        }
        let relative_start = shape.frames - 1 - target;
        if relative_start > rel_len - k_len {
            return Err(
                GgmlCpuGraphError::UnsupportedInputs {
                    reason: "xasr self attention relative position view exceeds embedding length",
                },
            );
        }
        let row_start = product_or(
            relative_start,
            shape.pos_output_dim,
            "xasr self attention relative position offset overflows",
        )?;
        let head_start = head * pos_head_dim;
        let pos_start = sum_or(
            row_start,
            head_start,
            "xasr self attention relative position offset overflows",
        )?;
        let pos_offset = product_or(
            pos_start,
            ELEMENT_BYTES,
            "xasr self attention relative position offset overflows",
        )?;
        let pos_segment = graph.view_2d(positions, pos_head_dim, k_len, pos_row_stride, pos_offset);
        let pos_segment = graph.cont(pos_segment);
        let p_target_offset = product_or(
            target,
            pos_head_span_bytes,
            "xasr self attention p target offset overflows",
        )?;
        let p_target = graph.view_2d(p_head, pos_head_dim, 1, pos_head_span_bytes, p_target_offset);
        let p_target = graph.cont(p_target);
        let pos_score = graph.mul_mat(pos_segment, p_target);
        let pos_score = graph.cont(pos_score);
        pos_columns.push(pos_score);
        target = target + 1;
    }
    let mut pos_scores = pos_columns[0];
    let mut next: usize = 1;
    let ghost collected = *graph;
    while next < pos_columns.len()
        invariant
            pos_columns@.len() == shape.frames,
            1 <= next <= shape.frames,
            collected.grew_from(*old(graph)),
            graph.grew_from(collected),
            forall|i: int|
                0 <= i < shape.frames ==> collected.has_dense(#[trigger] pos_columns@[i])
                    && collected.value(pos_columns@[i]) == layer_values::position_column(
                    pv,
                    hv,
                    shape.frames as int,
                    k_len as int,
                    shape.pos_output_dim as int,
                    pos_head_dim as int,
                    head as int,
                    i,
                ),
            graph.has_dense(pos_scores),
            graph.value(pos_scores) == layer_values::position_columns(
                pv,
                hv,
                shape.frames as int,
                k_len as int,
                shape.pos_output_dim as int,
                pos_head_dim as int,
                head as int,
                next as int,
            ),
        decreases pos_columns.len() - next,
    {
        pos_scores = graph.concat(pos_scores, pos_columns[next], 1);
        next = next + 1;
    }
    Ok(pos_scores)
}

/// Adds the attention probabilities of one head.
fn apply_attention_head_graph(
    graph: &mut GgmlCpuGraphBuilder,
    operands: AttentionHeadOperands,
    shape: XasrSelfAttentionWeightsGraphShape,
    head: usize,
) -> (result: Result<GgmlCpuTensor, GgmlCpuGraphError>)
    requires
        operands.within(*old(graph)),
        head_checks_passed(shape),
        head < shape.num_heads,
    ensures
        layer_graph::builds(
            result,
            *old(graph),
            *final(graph),
            if last_position_offset(shape, head as int) > usize::MAX {
                Some("xasr self attention relative position offset overflows")
            } else {
                None
            },
            operands.head_weights(*old(graph), shape, head as int),
        ),
{
    proof {
        lemma_position_offsets(shape, head as int, 0);
    }
    let query_dim = product_or(
        shape.num_heads,
        shape.query_head_dim,
        "xasr self attention query dim overflows",
    )?;
    let k_len = shape.left_context_len + shape.frames;
    let pos_head_dim = shape.pos_output_dim / shape.num_heads;
    let query_row_stride = product_or(
        query_dim,
        ELEMENT_BYTES,
        "xasr self attention query row stride overflows",
    )?;
    let pos_row_stride = product_or(
        shape.pos_output_dim,
        ELEMENT_BYTES,
        "xasr self attention pos row stride overflows",
    )?;
    let query_head_start = product_or(
        head,
        shape.query_head_dim,
        "xasr self attention query head offset overflows",
    )?;
    let query_head_offset = product_or(
        query_head_start,
        ELEMENT_BYTES,
        "xasr self attention query head offset overflows",
    )?;
    let q_head = graph.view_2d(
        operands.q,
        shape.query_head_dim,
        shape.frames,
        query_row_stride,
        query_head_offset,
    );
    let q_head = graph.cont(q_head);
    let k_head = graph.view_2d(
        operands.all_keys,
        shape.query_head_dim,
        k_len,
        query_row_stride,
        query_head_offset,
    );
    let k_head = graph.cont(k_head);
    let qk_scores = graph.mul_mat(k_head, q_head);
    let pos_head_start = product_or(
        head,
        pos_head_dim,
        "xasr self attention pos head offset overflows",
    )?;
    let pos_head_offset = product_or(
        pos_head_start,
        ELEMENT_BYTES,
        "xasr self attention pos head offset overflows",
    )?;
    let p_head = graph.view_2d(
        operands.p,
        pos_head_dim,
        shape.frames,
        pos_row_stride,
        pos_head_offset,
    );
    let p_head = graph.cont(p_head);
    let pos_scores = apply_position_scores_graph(graph, operands.positions, p_head, shape, head)?;
    let scores = graph.add(qk_scores, pos_scores);
    let scores = graph.cont(scores);
    let probs = graph.soft_max_ext(scores, Some(operands.mask), bits::ONE_BITS, bits::ZERO_BITS);
    Ok(graph.cont(probs))
}

/// Adds the attention weights of all heads.
pub fn apply_self_attention_weights_graph(
    graph: &mut GgmlCpuGraphBuilder,
    input: GgmlCpuTensor,
    tensors: XasrSelfAttentionWeightsGraphTensors,
    shape: XasrSelfAttentionWeightsGraphShape,
) -> (result: Result<XasrSelfAttentionWeightsGraphOutput, GgmlCpuGraphError>)
    requires
        old(graph).has(input),
        tensors.within(*old(graph)),
    ensures
        final(graph).grew_from(*old(graph)),
        match attention_weights_refusal(shape) {
            Some(reason) => result == Err::<XasrSelfAttentionWeightsGraphOutput, GgmlCpuGraphError>(
                layer_graph::refusal_error(reason),
            ),
            None => result is Ok && builds_with_cache(
                *old(graph),
                *final(graph),
                result->Ok_0.weights,
                result->Ok_0.new_cache,
                tensors.applied(*old(graph), old(graph).value(input), shape),
                tensors.next_cache(*old(graph), old(graph).value(input), shape),
            ),
        },
{
    proof {
        reveal(attention_weights_refusal);
        reveal(XasrSelfAttentionWeightsGraphTensors::applied);
        reveal(XasrSelfAttentionWeightsGraphTensors::next_cache);
    }
    if shape.dim == 0 || shape.frames == 0 || shape.left_context_len == 0 || shape.num_heads == 0
        || shape.query_head_dim == 0 || shape.pos_dim == 0 || shape.pos_output_dim == 0 {
        return Err(
            GgmlCpuGraphError::UnsupportedInputs {
                reason: "xasr self attention weights dimensions must be positive",
            },
        );
    }
    if shape.pos_output_dim % shape.num_heads != 0 {
        return Err(
            GgmlCpuGraphError::UnsupportedInputs {
                reason: "xasr self attention pos output dim must be divisible by num_heads",
            },
        );
    }
    let query_dim = product_or(
        shape.num_heads,
        shape.query_head_dim,
        "xasr self attention query dim overflows",
    )?;
    let doubled = product_or(query_dim, 2, "xasr self attention projected dim overflows")?;
    let projected_dim = sum_or(
        doubled,
        shape.pos_output_dim,
        "xasr self attention projected dim overflows",
    )?;
    let _k_len = sum_or(
        shape.left_context_len,
        shape.frames,
        "xasr self attention key length overflows",
    )?;
    let doubled_frames = product_or(
        shape.frames,
        2,
        "xasr self attention relative length overflows",
    )?;
    let _rel_end = sum_or(
        shape.left_context_len,
        doubled_frames,
        "xasr self attention relative length overflows",
    )?;
    let projected_row_stride = product_or(
        projected_dim,
        ELEMENT_BYTES,
        "xasr self attention projected row stride overflows",
    )?;
    let query_row_stride = product_or(
        query_dim,
        ELEMENT_BYTES,
        "xasr self attention query row stride overflows",
    )?;
    let projected = apply_linear_graph(graph, tensors.in_proj_weight, input, tensors.in_proj_bias);
    let q = graph.view_2d(projected, query_dim, shape.frames, projected_row_stride, 0);
    let q = graph.cont(q);
    let current_k = graph.view_2d(
        projected,
        query_dim,
        shape.frames,
        projected_row_stride,
        query_row_stride,
    );
    let current_k = graph.cont(current_k);
    let p_offset = product_or(
        query_row_stride,
        2,
        "xasr self attention positional projection offset overflows",
    )?;
    let p = graph.view_2d(
        projected,
        shape.pos_output_dim,
        shape.frames,
        projected_row_stride,
        p_offset,
    );
    let p = graph.cont(p);
    let all_keys = graph.concat(tensors.cache, current_k, 1);
    let new_cache_start = product_or(
        shape.frames,
        query_dim,
        "xasr self attention new cache offset overflows",
    )?;
    let new_cache_offset = product_or(
        new_cache_start,
        ELEMENT_BYTES,
        "xasr self attention new cache offset overflows",
    )?;
    let new_cache = graph.view_2d(
        all_keys,
        query_dim,
        shape.left_context_len,
        query_row_stride,
        new_cache_offset,
    );
    let new_cache = graph.cont(new_cache);
    let projected_pos = graph.mul_mat(tensors.linear_pos_weight, tensors.pos_embedding);
    let positions = graph.cont(projected_pos);
    let operands = AttentionHeadOperands { q, all_keys, p, positions, mask: tensors.mask };
    let ghost qv = tensors.queries(*old(graph), old(graph).value(input), shape);
    let ghost kv = tensors.keys(*old(graph), old(graph).value(input), shape);
    let ghost pv = tensors.position_queries(*old(graph), old(graph).value(input), shape);
    let ghost ev = tensors.positions(*old(graph));
    let ghost mv = old(graph).value(tensors.mask);
    let ghost prepared = *graph;
    proof {
        assert(prepared.value(q) == qv);
        assert(prepared.value(all_keys) == kv);
        assert(prepared.value(p) == pv);
        assert(prepared.value(positions) == ev);
        assert(prepared.value(tensors.mask) == mv);
        assert(prepared.value(new_cache) == tensors.next_cache(
            *old(graph),
            old(graph).value(input),
            shape,
        ));
    }
    let mut head_outputs: Vec<GgmlCpuTensor> = Vec::new();
    let mut head: usize = 0;
    while head < shape.num_heads
        invariant
            head_checks_passed(shape),
            last_position_offset(shape, shape.num_heads - 1) <= usize::MAX
                ==> attention_weights_refusal(shape) is None,
            last_position_offset(shape, shape.num_heads - 1) > usize::MAX
                ==> attention_weights_refusal(shape) == Some(
                "xasr self attention relative position offset overflows",
            ),
            operands.within(prepared),
            prepared.grew_from(*old(graph)),
            graph.grew_from(prepared),
            prepared.value(operands.q) == qv,
            prepared.value(operands.all_keys) == kv,
            prepared.value(operands.p) == pv,
            prepared.value(operands.positions) == ev,
            prepared.value(operands.mask) == mv,
            head <= shape.num_heads,
            head > 0 ==> last_position_offset(shape, head - 1) <= usize::MAX,
            head_outputs@.len() == head,
            forall|i: int|
                0 <= i < head ==> graph.has_dense(#[trigger] head_outputs@[i]) && graph.value(
                    head_outputs@[i],
                ) == shape.head_weights(qv, kv, pv, ev, mv, i),
        decreases shape.num_heads - head,
    {
        proof {
            lemma_position_offsets(shape, head as int, 0);
        }
        let probs = apply_attention_head_graph(graph, operands, shape, head)?;
        head_outputs.push(probs);
        head = head + 1;
    }
    let mut weights = head_outputs[0];
    let mut next: usize = 1;
    let ghost collected = *graph;
    while next < head_outputs.len()
        invariant
            head_outputs@.len() == shape.num_heads,
            1 <= next <= shape.num_heads,
            collected.grew_from(prepared),
            graph.grew_from(collected),
            forall|i: int|
                0 <= i < shape.num_heads ==> collected.has_dense(#[trigger] head_outputs@[i])
                    && collected.value(head_outputs@[i]) == shape.head_weights(
                    qv,
                    kv,
                    pv,
                    ev,
                    mv,
                    i,
                ),
            graph.has_dense(weights),
            graph.value(weights) == shape.planes(qv, kv, pv, ev, mv, next as int),
        decreases head_outputs.len() - next,
    {
        weights = graph.concat(weights, head_outputs[next], 2);
        next = next + 1;
    }
    Ok(XasrSelfAttentionWeightsGraphOutput { weights, new_cache })
}

} // verus!
