//! The attention of a graph and that of the host.

use vstd::prelude::*;
use crate::attention_graph::{
    XasrSelfAttentionWeightsGraphShape, XasrSelfAttentionWeightsGraphTensors,
};
use crate::bits::{MINUS_THOUSAND_BITS, ONE_BITS, ZERO_BITS};
use crate::encoder_tables::{attention_mask, mask_row, position_table};
use crate::encoder_weights::{StoredLinear, XasrSelfAttentionWeightsWeights};
use crate::graph::GgmlCpuGraphBuilder;
use crate::layer_values;
use crate::parity::{
    law_graph_linear_is_the_host_linear, lemma_held_row, lemma_place, lemma_repeats,
    lemma_rows_that_succeed, lemma_window, Device,
};
use crate::parity_conv::lemma_same_dot;
use crate::reference_attention::{attention_values, projected_positions, AttentionShape};
use crate::reference_conv::{grid, lemma_grid_at, lemma_grid_len};
use crate::reference_layer::key_mask;
use crate::reference_rows::linear_rows;
use crate::rows::{self, joined, part_of};
use crate::softmax::{degenerate, softmax_row, softmax_rows};
use crate::sums::dot;
use crate::tensor_value::{Scalar, TensorValue};

verus! {

/// The entries of a mask: minus one thousand where it hides a key.
pub open spec fn mask_entries(masked: Seq<bool>) -> Seq<u32> {
    Seq::new(
        masked.len(),
        |i: int|
            if masked[i] {
                MINUS_THOUSAND_BITS
            } else {
                ZERO_BITS
            },
    )
}

/// Scores, with minus one thousand for hidden keys.
pub open spec fn hidden_scores(scores: Seq<u32>, masked: Seq<bool>) -> Seq<u32> {
    Seq::new(
        scores.len(),
        |i: int|
            if masked[i] {
                MINUS_THOUSAND_BITS
            } else {
                scores[i]
            },
    )
}

impl Device {
    /// A matrix times a row.
    pub open spec fn plain_product(self, weight: StoredLinear, row: Seq<u32>) -> Seq<u32> {
        Seq::new(
            weight.output_dim as nat,
            |r: int| (self.dot)(part_of(weight.values@, weight.input_dim as int, r), row),
        )
    }

    /// Scores, their softmax, and sums weighted by it are those of the host.
    pub open spec fn attends_as_the_host(self) -> bool {
        let m = self.host;
        &&& forall|weight: StoredLinear, row: Seq<u32>|
            row.len() == weight.input_dim && weight.values@.len() == weight.output_dim
                * weight.input_dim ==> #[trigger] (m.apply_linear)(weight, row, None) == Ok::<
                Seq<u32>,
                Seq<char>,
            >(self.plain_product(weight, row))
        &&& forall|key: Seq<u32>, query: Seq<u32>, position: Seq<u32>, place: Seq<u32>|
            key.len() == query.len() && position.len() == place.len() ==> #[trigger] (m.add)(
                (self.dot)(key, query),
                (self.dot)(position, place),
            ) == dot(
                m,
                dot(m, ZERO_BITS, query, 0, key, 0, key.len() as int),
                place,
                0,
                position,
                0,
                position.len() as int,
            )
        &&& forall|values: Seq<u32>, weights: Seq<u32>|
            values.len() == weights.len() ==> #[trigger] (self.dot)(values, weights) == dot(
                m,
                ZERO_BITS,
                weights,
                0,
                values,
                0,
                values.len() as int,
            )
        &&& forall|scores: Seq<u32>, masked: Seq<bool>|
            scores.len() == masked.len() && scores.len() > 0 && !degenerate(
                m,
                hidden_scores(scores, masked),
            ) ==> #[trigger] (self.masked_softmax)(
                scores,
                Some(mask_entries(masked)),
                ONE_BITS,
                ZERO_BITS,
            ) == softmax_row(m, hidden_scores(scores, masked))
    }

    /// The tensor holds columns of rows of `stride` elements, from column `first` on.
    pub open spec fn holds_part(
        self,
        x: TensorValue,
        held: Seq<u32>,
        stride: int,
        first: int,
        dim: int,
        frames: int,
    ) -> bool {
        &&& x.has_shape(dim, frames, 1, 1)
        &&& forall|c: int, t: int|
            0 <= c < dim && 0 <= t < frames ==> self.value(#[trigger] (x.at)(c, t, 0, 0))
                == held[t * stride + first + c]
    }

    /// The tensor holds a plane of rows for each head.
    pub open spec fn holds_planes(
        self,
        x: TensorValue,
        entries: Seq<u32>,
        keys: int,
        frames: int,
        heads: int,
    ) -> bool {
        &&& x.has_shape(keys, frames, heads, 1)
        &&& entries.len() == heads * frames * keys
        &&& forall|s: int, t: int, h: int|
            0 <= s < keys && 0 <= t < frames && 0 <= h < heads ==> self.value(
                #[trigger] (x.at)(s, t, h, 0),
            ) == entries[(h * frames + t) * keys + s]
    }
}

/// The sizes of the attention of a graph, as the host takes them.
pub open spec fn host_shape(shape: XasrSelfAttentionWeightsGraphShape) -> AttentionShape {
    AttentionShape {
        num_heads: shape.num_heads as int,
        query_head_dim: shape.query_head_dim as int,
        pos_output_dim: shape.pos_output_dim as int,
        frames: shape.frames as int,
        left_context_len: shape.left_context_len as int,
    }
}

/// The dimensions are those of the weights.
pub open spec fn attention_shape_fits(
    weights: XasrSelfAttentionWeightsWeights,
    shape: XasrSelfAttentionWeightsGraphShape,
) -> bool {
    &&& shape.dim > 0
    &&& shape.frames > 0
    &&& shape.num_heads > 0
    &&& shape.pos_output_dim > 0
    &&& shape.pos_output_dim % shape.num_heads == 0
    &&& shape.query_dim() <= usize::MAX
    &&& shape.k_len() <= usize::MAX
    &&& weights.in_proj.weight.input_dim == shape.dim
    &&& weights.in_proj.weight.output_dim == shape.projected_dim()
    &&& weights.linear_pos.input_dim == shape.pos_dim
    &&& weights.linear_pos.output_dim == shape.pos_output_dim
}

impl Device {
    /// The tensors hold the weights of an attention, a cache of keys, the mask and
    /// the position embeddings.
    pub open spec fn holds_attention(
        self,
        graph: GgmlCpuGraphBuilder,
        tensors: XasrSelfAttentionWeightsGraphTensors,
        weights: XasrSelfAttentionWeightsWeights,
        cache: Seq<u32>,
        shape: XasrSelfAttentionWeightsGraphShape,
        valid: int,
    ) -> bool {
        &&& self.holds_linear(
            graph.value(tensors.in_proj_weight),
            graph.value(tensors.in_proj_bias),
            weights.in_proj,
        )
        &&& self.holds(
            graph.value(tensors.linear_pos_weight),
            weights.linear_pos.values@,
            shape.pos_dim as int,
            shape.pos_output_dim as int,
        )
        &&& self.holds(
            graph.value(tensors.pos_embedding),
            position_table(
                self.host,
                shape.frames as int,
                shape.left_context_len as int,
                shape.pos_dim as int,
            ),
            shape.pos_dim as int,
            shape.rel_len(),
        )
        &&& self.holds(
            graph.value(tensors.mask),
            attention_mask(shape.left_context_len as int, shape.frames as int, valid),
            shape.k_len(),
            shape.frames as int,
        )
        &&& self.holds(
            graph.value(tensors.cache),
            cache,
            shape.query_dim(),
            shape.left_context_len as int,
        )
    }
}

/// The columns of the position scores, one after the other.
proof fn lemma_position_columns(
    positions: TensorValue,
    p_head: TensorValue,
    frames: int,
    k_len: int,
    pos_output_dim: int,
    pos_head_dim: int,
    head: int,
    targets: int,
    s: int,
    t: int,
)
    requires
        0 <= t < targets,
    ensures
        layer_values::position_columns(
            positions,
            p_head,
            frames,
            k_len,
            pos_output_dim,
            pos_head_dim,
            head,
            targets,
        ).has_shape(k_len, targets, 1, 1),
        (layer_values::position_columns(
            positions,
            p_head,
            frames,
            k_len,
            pos_output_dim,
            pos_head_dim,
            head,
            targets,
        ).at)(s, t, 0, 0) == (layer_values::position_column(
            positions,
            p_head,
            frames,
            k_len,
            pos_output_dim,
            pos_head_dim,
            head,
            t,
        ).at)(s, 0, 0, 0),
    decreases targets,
{
    if targets > 1 {
        let earlier = if t < targets - 1 {
            t
        } else {
            0
        };
        lemma_position_columns(
            positions,
            p_head,
            frames,
            k_len,
            pos_output_dim,
            pos_head_dim,
            head,
            targets - 1,
            s,
            earlier,
        );
    }
}

/// Parts of a projected row: `width` columns from column `first`.
pub proof fn lemma_columns(
    device: Device,
    x: TensorValue,
    held: Seq<u32>,
    dim: int,
    frames: int,
    first: int,
    width: int,
)
    requires
        device.holds(x, held, dim, frames),
        0 <= first,
        0 <= width,
        first + width <= dim,
        0 <= frames,
    ensures
        device.holds(
            x.window(width, frames, dim * 4, first * 4),
            grid(frames, width, |t: int, c: int| held[t * dim + first + c]),
            width,
            frames,
        ),
        device.holds_part(
            x.window(width, frames, dim * 4, first * 4),
            held,
            dim,
            first,
            width,
            frames,
        ),
{
    let at = |t: int, c: int| held[t * dim + first + c];
    let y = x.window(width, frames, dim * 4, first * 4);
    lemma_grid_len(frames, width, at);
    assert forall|c: int, t: int| 0 <= c < width && 0 <= t < frames implies device.value(
        #[trigger] (y.at)(c, t, 0, 0),
    ) == grid(frames, width, at)[t * width + c] && device.value((y.at)(c, t, 0, 0)) == at(t, c) by {
        lemma_grid_at(frames, width, at, t, c);
        assert(0 * dim == 0);
        lemma_window(x, dim, frames, width, frames, first, 0, 1, dim * 4, first * 4, c, t);
        assert(device.value((x.at)(first + c, t, 0, 0)) == held[t * dim + (first + c)]);
    }
}

/// Two lists of rows, one behind the other.
pub proof fn lemma_stacked(
    device: Device,
    x: TensorValue,
    y: TensorValue,
    held: Seq<u32>,
    more: Seq<u32>,
    dim: int,
    first: int,
    second: int,
)
    requires
        device.holds(x, held, dim, first),
        device.holds(y, more, dim, second),
        0 <= dim,
        0 <= first,
        0 <= second,
    ensures
        device.holds(x.concat(y, 1), held + more, dim, first + second),
{
    let z = x.concat(y, 1);
    assert(first * dim + second * dim == (first + second) * dim) by (nonlinear_arith);
    assert forall|c: int, t: int| 0 <= c < dim && 0 <= t < first + second implies device.value(
        #[trigger] (z.at)(c, t, 0, 0),
    ) == (held + more)[t * dim + c] by {
        if t < first {
            lemma_place(t, first, c, dim);
            assert(device.value((x.at)(c, t, 0, 0)) == held[t * dim + c]);
        } else {
            lemma_place(t - first, second, c, dim);
            assert(device.value((y.at)(c, t - first, 0, 0)) == more[(t - first) * dim + c]);
            assert((t - first) * dim + first * dim == t * dim) by (nonlinear_arith);
        }
    }
}

/// The last rows of a list of rows.
pub proof fn lemma_last_rows(
    device: Device,
    x: TensorValue,
    held: Seq<u32>,
    dim: int,
    top: int,
    count: int,
)
    requires
        device.holds(x, held, dim, top + count),
        0 <= dim,
        0 <= top,
        0 <= count,
    ensures
        device.holds(
            x.window(dim, count, dim * 4, (top * dim) * 4),
            held.subrange(top * dim, (top + count) * dim),
            dim,
            count,
        ),
{
    let y = x.window(dim, count, dim * 4, (top * dim) * 4);
    assert(top * dim + count * dim == (top + count) * dim && 0 <= top * dim && 0 <= count * dim)
        by (nonlinear_arith)
        requires
            0 <= dim,
            0 <= top,
            0 <= count,
    ;
    assert forall|c: int, t: int| 0 <= c < dim && 0 <= t < count implies device.value(
        #[trigger] (y.at)(c, t, 0, 0),
    ) == held.subrange(top * dim, (top + count) * dim)[t * dim + c] by {
        lemma_place(t, count, c, dim);
        lemma_window(x, dim, top + count, dim, count, 0, top, 1, dim * 4, (top * dim) * 4, c, t);
        assert(device.value((x.at)(c, top + t, 0, 0)) == held[(top + t) * dim + c]);
        assert((top + t) * dim == top * dim + t * dim) by (nonlinear_arith);
    }
}

/// The projected position embeddings.
proof fn lemma_positions(
    device: Device,
    graph: GgmlCpuGraphBuilder,
    tensors: XasrSelfAttentionWeightsGraphTensors,
    weights: XasrSelfAttentionWeightsWeights,
    cache: Seq<u32>,
    shape: XasrSelfAttentionWeightsGraphShape,
    valid: int,
)
    requires
        device.attends_as_the_host(),
        device.holds_attention(graph, tensors, weights, cache, shape, valid),
        attention_shape_fits(weights, shape),
    ensures
        projected_positions(
            device.host,
            weights.linear_pos,
            shape.frames as int,
            shape.left_context_len as int,
        ) is Ok,
        device.holds(
            tensors.positions(graph),
            projected_positions(
                device.host,
                weights.linear_pos,
                shape.frames as int,
                shape.left_context_len as int,
            )->Ok_0,
            shape.pos_output_dim as int,
            shape.rel_len(),
        ),
{
    let m = device.host;
    let d = shape.pos_dim as int;
    let w = shape.pos_output_dim as int;
    let n = shape.rel_len();
    let table = position_table(m, shape.frames as int, shape.left_context_len as int, d);
    let row = |t: int| (m.apply_linear)(weights.linear_pos, part_of(table, d, t), None);
    let part = |t: int| row(t)->Ok_0;
    let weight = graph.value(tensors.linear_pos_weight);
    let embedding = graph.value(tensors.pos_embedding);
    let y = tensors.positions(graph);
    assert forall|t: int| 0 <= t < n implies (#[trigger] row(t)) == Ok::<Seq<u32>, Seq<char>>(
        device.plain_product(weights.linear_pos, part_of(table, d, t)),
    ) by {
        rows::lemma_part_bounds(t, n, d);
    }
    lemma_rows_that_succeed(n, row, w);
    assert forall|i: int| 0 <= i < n implies (#[trigger] part(i)).len() == w by {
        assert(row(i) is Ok);
    }
    assert forall|c: int, t: int| 0 <= c < w && 0 <= t < n implies device.value(
        #[trigger] (y.at)(c, t, 0, 0),
    ) == joined(n, part)[t * w + c] by {
        rows::lemma_joined_at(n, part, w, t, c);
        assert(row(t) is Ok);
        lemma_held_row(device, embedding, table, d, n, t);
        lemma_held_row(device, weight, weights.linear_pos.values@, d, w, c);
        lemma_repeats(t, n);
        assert(device.value(Scalar::Dot(weight.row(c, 0, 0), embedding.row(t, 0, 0))) == (
        device.dot)(
            device.values(weight.row(c, 0, 0)),
            device.values(embedding.row(t, 0, 0)),
        ));
    }
}

/// A row of one head.
proof fn lemma_head_row(
    device: Device,
    x: TensorValue,
    held: Seq<u32>,
    stride: int,
    first: int,
    dim: int,
    frames: int,
    heads: int,
    head_dim: int,
    head: int,
    t: int,
)
    requires
        device.holds_part(x, held, stride, first, dim, frames),
        dim == heads * head_dim,
        0 <= head_dim,
        0 <= head < heads,
        0 <= t < frames,
    ensures
        x.window(head_dim, frames, dim * 4, (head * head_dim) * 4).has_shape(
            head_dim,
            frames,
            1,
            1,
        ),
        device.values(
            x.window(head_dim, frames, dim * 4, (head * head_dim) * 4).row(t, 0, 0),
        ) == Seq::new(
            head_dim as nat,
            |i: int| held[t * stride + first + head * head_dim + i],
        ),
{
    let y = x.window(head_dim, frames, dim * 4, (head * head_dim) * 4);
    let expected = Seq::new(
        head_dim as nat,
        |i: int| held[t * stride + first + head * head_dim + i],
    );
    rows::lemma_part_bounds(head, heads, head_dim);
    assert forall|i: int| 0 <= i < head_dim implies #[trigger] device.values(y.row(t, 0, 0))[i]
        == expected[i] by {
        assert(0 * dim == 0);
        lemma_window(
            x,
            dim,
            frames,
            head_dim,
            frames,
            head * head_dim,
            0,
            1,
            dim * 4,
            (head * head_dim) * 4,
            i,
            t,
        );
        assert(y.row(t, 0, 0)[i] == (y.at)(i, t, 0, 0));
        assert(device.value((x.at)(head * head_dim + i, t, 0, 0)) == held[t * stride + first + (head
            * head_dim + i)]);
    }
    assert(device.values(y.row(t, 0, 0)) =~= expected);
}

/// What the attention of a graph reads, as the host holds it.
pub struct AttentionOperands {
    pub q: TensorValue,
    pub keys: TensorValue,
    pub p: TensorValue,
    pub positions: TensorValue,
    pub mask: TensorValue,
}

/// What the attention of the host reads.
pub struct AttentionInputs {
    pub projected: Seq<u32>,
    pub keys: Seq<u32>,
    pub positions: Seq<u32>,
    pub mask: Seq<bool>,
}

impl AttentionInputs {
    /// The score without the mask.
    pub open spec fn open_score(
        self,
        device: Device,
        shape: AttentionShape,
        h: int,
        t: int,
        s: int,
    ) -> u32 {
        shape.score(device.host, self.projected, self.keys, self.positions, None, h, t, s)
    }

    /// The scores of a frame, for one head.
    pub open spec fn score_row(
        self,
        device: Device,
        shape: AttentionShape,
        h: int,
        t: int,
    ) -> Seq<u32> {
        Seq::new(
            shape.keys() as nat,
            |s: int|
                shape.score(
                    device.host,
                    self.projected,
                    self.keys,
                    self.positions,
                    Some(self.mask),
                    h,
                    t,
                    s,
                ),
        )
    }
}

impl Device {
    /// The tensors hold what the attention of the host reads.
    pub open spec fn holds_operands(
        self,
        shape: XasrSelfAttentionWeightsGraphShape,
        operands: AttentionOperands,
        inputs: AttentionInputs,
    ) -> bool {
        let width = shape.projected_dim();
        let frames = shape.frames as int;
        &&& self.holds_part(operands.q, inputs.projected, width, 0, shape.query_dim(), frames)
        &&& self.holds_part(
            operands.keys,
            inputs.keys,
            shape.query_dim(),
            0,
            shape.query_dim(),
            shape.k_len(),
        )
        &&& self.holds_part(
            operands.p,
            inputs.projected,
            width,
            2 * shape.query_dim(),
            shape.pos_output_dim as int,
            frames,
        )
        &&& self.holds_part(
            operands.positions,
            inputs.positions,
            shape.pos_output_dim as int,
            0,
            shape.pos_output_dim as int,
            shape.rel_len(),
        )
        &&& inputs.mask.len() == shape.k_len()
        &&& operands.mask.has_shape(shape.k_len(), frames, 1, 1)
        &&& forall|s: int, t: int|
            0 <= s < shape.k_len() && 0 <= t < frames ==> self.value(
                #[trigger] (operands.mask.at)(s, t, 0, 0),
            ) == mask_entries(inputs.mask)[s]
    }
}

/// The sizes that the lemmas on heads need.
spec fn heads_fit(shape: XasrSelfAttentionWeightsGraphShape) -> bool {
    &&& shape.frames > 0
    &&& shape.num_heads > 0
    &&& shape.pos_output_dim % shape.num_heads == 0
}

/// The part of a score by relative position.
proof fn lemma_position_score(
    device: Device,
    shape: XasrSelfAttentionWeightsGraphShape,
    operands: AttentionOperands,
    inputs: AttentionInputs,
    h: int,
    t: int,
    s: int,
)
    requires
        device.holds_operands(shape, operands, inputs),
        heads_fit(shape),
        0 <= h < shape.num_heads,
        0 <= t < shape.frames,
        0 <= s < shape.k_len(),
    ensures
        ({
            let phd = shape.pos_head_dim();
            let out = shape.pos_output_dim as int;
            let p_head = operands.p.window(phd, shape.frames as int, out * 4, (h * phd) * 4);
            let y = shape.position_scores(operands.positions, p_head, h);
            &&& y.has_shape(shape.k_len(), shape.frames as int, 1, 1)
            &&& device.value((y.at)(s, t, 0, 0)) == (device.dot)(
                Seq::new(
                    phd as nat,
                    |i: int|
                        inputs.positions[(shape.frames - 1 - t + s) * out + h * phd + i],
                ),
                Seq::new(
                    phd as nat,
                    |i: int|
                        inputs.projected[t * shape.projected_dim() + 2 * shape.query_dim() + h
                            * phd + i],
                ),
            )
        }),
{
    let phd = shape.pos_head_dim();
    let out = shape.pos_output_dim as int;
    let n = shape.frames as int;
    let k = shape.k_len();
    let heads = shape.num_heads as int;
    vstd::arithmetic::div_mod::lemma_fundamental_div_mod(out, heads);
    assert(heads * phd == out);
    assert(0 <= phd) by (nonlinear_arith)
        requires
            phd == out / heads,
            heads > 0,
            out >= 0,
    ;
    let p_head = operands.p.window(phd, n, out * 4, (h * phd) * 4);
    lemma_head_row(
        device,
        operands.p,
        inputs.projected,
        shape.projected_dim(),
        2 * shape.query_dim(),
        out,
        n,
        heads,
        phd,
        h,
        t,
    );
    lemma_position_columns(operands.positions, p_head, n, k, out, phd, h, n, s, t);
    let column = layer_values::position_column(
        operands.positions,
        p_head,
        n,
        k,
        out,
        phd,
        h,
        t,
    );
    let segment = operands.positions.window(
        phd,
        k,
        out * 4,
        ((n - 1 - t) * out + h * phd) * 4,
    );
    let target = p_head.window(phd, 1, phd * 4, t * (phd * 4));
    let placed = Seq::new(
        phd as nat,
        |i: int| inputs.positions[(n - 1 - t + s) * out + h * phd + i],
    );
    let asked = Seq::new(
        phd as nat,
        |i: int|
            inputs.projected[t * shape.projected_dim() + 2 * shape.query_dim() + h * phd + i],
    );
    rows::lemma_part_bounds(h, heads, phd);
    assert forall|i: int| 0 <= i < phd implies #[trigger] device.values(segment.row(s, 0, 0))[i]
        == placed[i] by {
        lemma_window(
            operands.positions,
            out,
            shape.rel_len(),
            phd,
            k,
            h * phd,
            n - 1 - t,
            1,
            out * 4,
            ((n - 1 - t) * out + h * phd) * 4,
            i,
            s,
        );
        assert(segment.row(s, 0, 0)[i] == (segment.at)(i, s, 0, 0));
        assert(device.value((operands.positions.at)(h * phd + i, n - 1 - t + s, 0, 0))
            == inputs.positions[(n - 1 - t + s) * out + 0 + (h * phd + i)]);
    }
    assert(device.values(segment.row(s, 0, 0)) =~= placed);
    assert(target.row(0, 0, 0) =~= p_head.row(t, 0, 0)) by {
        assert forall|i: int| 0 <= i < phd implies #[trigger] target.row(0, 0, 0)[i]
            == p_head.row(t, 0, 0)[i] by {
            assert(t * (phd * 4) == (t * phd + 0) * 4) by (nonlinear_arith);
            lemma_window(p_head, phd, n, phd, 1, 0, t, 1, phd * 4, t * (phd * 4), i, 0);
        }
    }
    lemma_repeats(0, 1);
    assert((column.at)(s, 0, 0, 0) == Scalar::Dot(segment.row(s, 0, 0), target.row(0, 0, 0)));
    assert(device.value(Scalar::Dot(segment.row(s, 0, 0), target.row(0, 0, 0))) == (device.dot)(
        device.values(segment.row(s, 0, 0)),
        device.values(target.row(0, 0, 0)),
    ));
}

/// The scores of a head before the mask.
spec fn head_scores(
    shape: XasrSelfAttentionWeightsGraphShape,
    operands: AttentionOperands,
    h: int,
) -> TensorValue {
    let stride = shape.query_dim() * 4;
    let offset = (h * shape.query_head_dim) * 4;
    let q_head = operands.q.window(
        shape.query_head_dim as int,
        shape.frames as int,
        stride,
        offset,
    );
    let k_head = operands.keys.window(
        shape.query_head_dim as int,
        shape.k_len(),
        stride,
        offset,
    );
    let p_head = operands.p.window(
        shape.pos_head_dim(),
        shape.frames as int,
        shape.pos_output_dim * 4,
        (h * shape.pos_head_dim()) * 4,
    );
    k_head.mul_mat(q_head).plus(shape.position_scores(operands.positions, p_head, h)).cont()
}

/// A score before the mask.
proof fn lemma_score(
    device: Device,
    shape: XasrSelfAttentionWeightsGraphShape,
    operands: AttentionOperands,
    inputs: AttentionInputs,
    h: int,
    t: int,
    s: int,
)
    requires
        device.attends_as_the_host(),
        device.holds_operands(shape, operands, inputs),
        heads_fit(shape),
        0 <= h < shape.num_heads,
        0 <= t < shape.frames,
        0 <= s < shape.k_len(),
    ensures
        head_scores(shape, operands, h).has_shape(shape.k_len(), shape.frames as int, 1, 1),
        device.value((head_scores(shape, operands, h).at)(s, t, 0, 0)) == inputs.open_score(
            device,
            host_shape(shape),
            h,
            t,
            s,
        ),
{
    let m = device.host;
    let qhd = shape.query_head_dim as int;
    let phd = shape.pos_head_dim();
    let qd = shape.query_dim();
    let width = shape.projected_dim();
    let n = shape.frames as int;
    let k = shape.k_len();
    let out = shape.pos_output_dim as int;
    let heads = shape.num_heads as int;
    let q_head = operands.q.window(qhd, n, qd * 4, (h * qhd) * 4);
    let k_head = operands.keys.window(qhd, k, qd * 4, (h * qhd) * 4);
    let p_head = operands.p.window(phd, n, out * 4, (h * phd) * 4);
    let by_position = shape.position_scores(operands.positions, p_head, h);
    let y = head_scores(shape, operands, h);
    lemma_head_row(device, operands.q, inputs.projected, width, 0, qd, n, heads, qhd, h, t);
    lemma_head_row(device, operands.keys, inputs.keys, qd, 0, qd, k, heads, qhd, h, s);
    lemma_position_score(device, shape, operands, inputs, h, t, s);
    let query = Seq::new(qhd as nat, |i: int| inputs.projected[t * width + 0 + h * qhd + i]);
    let key = Seq::new(qhd as nat, |i: int| inputs.keys[s * qd + 0 + h * qhd + i]);
    let position = Seq::new(
        phd as nat,
        |i: int| inputs.positions[(n - 1 - t + s) * out + h * phd + i],
    );
    let place = Seq::new(
        phd as nat,
        |i: int| inputs.projected[t * width + 2 * qd + h * phd + i],
    );
    assert(0 <= phd) by (nonlinear_arith)
        requires
            phd == out / heads,
            heads > 0,
            out >= 0,
    ;
    lemma_repeats(s, k);
    lemma_repeats(t, n);
    let content = Scalar::Dot(k_head.row(s, 0, 0), q_head.row(t, 0, 0));
    assert((k_head.mul_mat(q_head).at)(s, t, 0, 0) == content);
    assert(by_position.repeated(s, t, 0, 0) == (by_position.at)(s, t, 0, 0));
    assert((y.at)(s, t, 0, 0) == Scalar::Sum(
        Box::new(content),
        Box::new((by_position.at)(s, t, 0, 0)),
    ));
    assert(device.value(content) == (device.dot)(key, query));
    assert(device.value((y.at)(s, t, 0, 0)) == (m.add)(
        (device.dot)(key, query),
        (device.dot)(position, place),
    ));
    let by_content = dot(m, ZERO_BITS, query, 0, key, 0, qhd);
    assert(device.value((y.at)(s, t, 0, 0)) == dot(m, by_content, place, 0, position, 0, phd));
    lemma_same_dot(
        m,
        ZERO_BITS,
        inputs.projected,
        t * width + h * qhd,
        inputs.keys,
        s * qd + h * qhd,
        query,
        key,
        qhd,
    );
    lemma_same_dot(
        m,
        by_content,
        inputs.projected,
        t * width + 2 * qd + h * phd,
        inputs.positions,
        (n - 1 - t + s) * out + h * phd,
        place,
        position,
        phd,
    );
    assert(2 * qd == qd * 2);
}

/// The attention of one head.
proof fn lemma_head_plane(
    device: Device,
    shape: XasrSelfAttentionWeightsGraphShape,
    operands: AttentionOperands,
    inputs: AttentionInputs,
    h: int,
    t: int,
    s: int,
)
    requires
        device.attends_as_the_host(),
        device.holds_operands(shape, operands, inputs),
        heads_fit(shape),
        0 <= h < shape.num_heads,
        0 <= t < shape.frames,
        0 <= s < shape.k_len(),
        !degenerate(device.host, inputs.score_row(device, host_shape(shape), h, t)),
    ensures
        ({
            let y = shape.head_weights(
                operands.q,
                operands.keys,
                operands.p,
                operands.positions,
                operands.mask,
                h,
            );
            &&& y.has_shape(shape.k_len(), shape.frames as int, 1, 1)
            &&& device.value((y.at)(s, t, 0, 0)) == softmax_row(
                device.host,
                inputs.score_row(device, host_shape(shape), h, t),
            )[s]
        }),
{
    let n = shape.frames as int;
    let k = shape.k_len();
    let y = shape.head_weights(
        operands.q,
        operands.keys,
        operands.p,
        operands.positions,
        operands.mask,
        h,
    );
    let scores = head_scores(shape, operands, h);
    lemma_score(device, shape, operands, inputs, h, t, s);
    let open = Seq::new(
        k as nat,
        |j: int| inputs.open_score(device, host_shape(shape), h, t, j),
    );
    assert forall|j: int| 0 <= j < k implies #[trigger] device.values(scores.row(t, 0, 0))[j]
        == open[j] by {
        lemma_score(device, shape, operands, inputs, h, t, j);
        assert(scores.row(t, 0, 0)[j] == (scores.at)(j, t, 0, 0));
    }
    assert(device.values(scores.row(t, 0, 0)) =~= open);
    let entries = Seq::new(k as nat, |j: int| operands.mask.repeated(j, t, 0, 0));
    assert forall|j: int| 0 <= j < k implies #[trigger] device.values(entries)[j]
        == mask_entries(inputs.mask)[j] by {
        lemma_repeats(j, k);
        lemma_repeats(t, n);
        assert(entries[j] == (operands.mask.at)(j, t, 0, 0));
    }
    assert(device.values(entries) =~= mask_entries(inputs.mask));
    let row = inputs.score_row(device, host_shape(shape), h, t);
    assert(hidden_scores(open, inputs.mask) =~= row);
    let probability = Scalar::Softmax {
        row: scores.row(t, 0, 0),
        mask: Some(entries),
        scale: ONE_BITS,
        max_bias: ZERO_BITS,
        index: s,
    };
    assert((y.at)(s, t, 0, 0) == probability);
    assert(device.value(probability) == (device.masked_softmax)(
        device.values(scores.row(t, 0, 0)),
        Some(device.values(entries)),
        ONE_BITS,
        ZERO_BITS,
    )[s]);
}

/// The planes of the heads, one behind the other.
proof fn lemma_planes(
    device: Device,
    shape: XasrSelfAttentionWeightsGraphShape,
    operands: AttentionOperands,
    inputs: AttentionInputs,
    heads: int,
    h: int,
    t: int,
    s: int,
)
    requires
        device.attends_as_the_host(),
        device.holds_operands(shape, operands, inputs),
        heads_fit(shape),
        0 <= h < heads <= shape.num_heads,
        0 <= t < shape.frames,
        0 <= s < shape.k_len(),
        forall|h: int, t: int|
            0 <= h < shape.num_heads && 0 <= t < shape.frames ==> !degenerate(
                device.host,
                #[trigger] inputs.score_row(device, host_shape(shape), h, t),
            ),
    ensures
        ({
            let y = shape.planes(
                operands.q,
                operands.keys,
                operands.p,
                operands.positions,
                operands.mask,
                heads,
            );
            &&& y.has_shape(shape.k_len(), shape.frames as int, heads, 1)
            &&& device.value((y.at)(s, t, h, 0)) == softmax_row(
                device.host,
                inputs.score_row(device, host_shape(shape), h, t),
            )[s]
        }),
    decreases heads,
{
    lemma_head_plane(device, shape, operands, inputs, heads - 1, t, s);
    if heads > 1 {
        let earlier = if h < heads - 1 {
            h
        } else {
            0
        };
        lemma_planes(device, shape, operands, inputs, heads - 1, earlier, t, s);
    }
}

/// A row of the scores of the host.
proof fn lemma_score_row(
    device: Device,
    shape: AttentionShape,
    inputs: AttentionInputs,
    h: int,
    t: int,
)
    requires
        0 <= h < shape.num_heads,
        0 <= t < shape.frames,
        0 < shape.keys(),
    ensures
        0 <= h * shape.frames + t < shape.num_heads * shape.frames,
        part_of(
            shape.scores(
                device.host,
                inputs.projected,
                inputs.keys,
                inputs.positions,
                Some(inputs.mask),
            ),
            shape.keys(),
            h * shape.frames + t,
        ) == inputs.score_row(device, shape, h, t),
{
    let k = shape.keys();
    let n = shape.num_heads * shape.frames;
    let r = h * shape.frames + t;
    let at = |r: int, source: int|
        shape.score(
            device.host,
            inputs.projected,
            inputs.keys,
            inputs.positions,
            Some(inputs.mask),
            r / shape.frames,
            r % shape.frames,
            source,
        );
    lemma_place(h, shape.num_heads, t, shape.frames);
    rows::lemma_part_bounds(r, n, k);
    lemma_grid_len(n, k, at);
    let taken = part_of(grid(n, k, at), k, r);
    assert forall|s: int| 0 <= s < k implies #[trigger] taken[s] == inputs.score_row(
        device,
        shape,
        h,
        t,
    )[s] by {
        lemma_grid_at(n, k, at, r, s);
    }
    assert(taken =~= inputs.score_row(device, shape, h, t));
}

/// The planes of a graph are the weights of the host.
proof fn lemma_all_planes(
    device: Device,
    shape: XasrSelfAttentionWeightsGraphShape,
    operands: AttentionOperands,
    inputs: AttentionInputs,
)
    requires
        device.attends_as_the_host(),
        device.holds_operands(shape, operands, inputs),
        heads_fit(shape),
        shape.k_len() <= usize::MAX,
        softmax_rows(
            device.host,
            host_shape(shape).scores(
                device.host,
                inputs.projected,
                inputs.keys,
                inputs.positions,
                Some(inputs.mask),
            ),
            shape.k_len() as usize,
        ) is Ok,
    ensures
        device.holds_planes(
            shape.planes(
                operands.q,
                operands.keys,
                operands.p,
                operands.positions,
                operands.mask,
                shape.num_heads as int,
            ),
            softmax_rows(
                device.host,
                host_shape(shape).scores(
                    device.host,
                    inputs.projected,
                    inputs.keys,
                    inputs.positions,
                    Some(inputs.mask),
                ),
                shape.k_len() as usize,
            )->Ok_0,
            shape.k_len(),
            shape.frames as int,
            shape.num_heads as int,
        ),
{
    let m = device.host;
    let k = shape.k_len();
    let n = shape.frames as int;
    let heads = shape.num_heads as int;
    let sizes = host_shape(shape);
    let scores = sizes.scores(
        m,
        inputs.projected,
        inputs.keys,
        inputs.positions,
        Some(inputs.mask),
    );
    let at = |r: int, source: int|
        sizes.score(
            m,
            inputs.projected,
            inputs.keys,
            inputs.positions,
            Some(inputs.mask),
            r / sizes.frames,
            r % sizes.frames,
            source,
        );
    assert(0 <= heads * n) by (nonlinear_arith)
        requires
            0 <= heads,
            0 <= n,
    ;
    lemma_grid_len(heads * n, k, at);
    assert(scores.len() == heads * n * k);
    vstd::arithmetic::div_mod::lemma_fundamental_div_mod_converse(
        scores.len() as int,
        k,
        heads * n,
        0,
    );
    let part = |r: int| softmax_row(m, part_of(scores, k, r));
    assert forall|r: int| 0 <= r < heads * n implies (#[trigger] part(r)).len() == k by {
        rows::lemma_part_bounds(r, heads * n, k);
    }
    rows::lemma_joined_len(heads * n, part, k);
    assert forall|h: int, t: int| 0 <= h < shape.num_heads && 0 <= t < shape.frames implies
        !degenerate(m, #[trigger] inputs.score_row(device, sizes, h, t)) by {
        lemma_score_row(device, sizes, inputs, h, t);
        assert(!degenerate(m, part_of(scores, k, h * n + t)));
    }
    let y = shape.planes(
        operands.q,
        operands.keys,
        operands.p,
        operands.positions,
        operands.mask,
        heads,
    );
    lemma_planes(device, shape, operands, inputs, heads, 0, 0, 0);
    assert forall|s: int, t: int, h: int| 0 <= s < k && 0 <= t < n && 0 <= h < heads implies
        device.value(#[trigger] (y.at)(s, t, h, 0)) == joined(heads * n, part)[(h * n + t) * k
        + s] by {
        lemma_planes(device, shape, operands, inputs, heads, h, t, s);
        lemma_score_row(device, sizes, inputs, h, t);
        rows::lemma_joined_at(heads * n, part, k, h * n + t, s);
    }
}

/// The attention of a graph is that of the host: the weights of each head, and the
/// keys that it leaves in the cache.
pub proof fn law_graph_attention_is_the_host_attention(
    device: Device,
    graph: GgmlCpuGraphBuilder,
    tensors: XasrSelfAttentionWeightsGraphTensors,
    weights: XasrSelfAttentionWeightsWeights,
    cache: Seq<u32>,
    shape: XasrSelfAttentionWeightsGraphShape,
    valid: int,
    x: TensorValue,
    held: Seq<u32>,
)
    requires
        device.multiplies_as_the_host(),
        device.attends_as_the_host(),
        device.holds_attention(graph, tensors, weights, cache, shape, valid),
        attention_shape_fits(weights, shape),
        device.holds(x, held, shape.dim as int, shape.frames as int),
    ensures
        ({
            let host = attention_values(
                device.host,
                weights,
                held,
                shape.frames,
                shape.dim,
                shape.num_heads,
                shape.query_head_dim,
                shape.left_context_len,
                Some(cache),
                Some(key_mask(shape.left_context_len as int, shape.frames as int, valid)),
            );
            host is Ok ==> {
                &&& device.holds_planes(
                    tensors.applied(graph, x, shape),
                    host->Ok_0.weights,
                    shape.k_len(),
                    shape.frames as int,
                    shape.num_heads as int,
                )
                &&& device.holds(
                    tensors.next_cache(graph, x, shape),
                    host->Ok_0.cached_key,
                    shape.query_dim(),
                    shape.left_context_len as int,
                )
            }
        }),
{
    reveal(XasrSelfAttentionWeightsGraphTensors::applied);
    reveal(XasrSelfAttentionWeightsGraphTensors::next_cache);
    let m = device.host;
    let left = shape.left_context_len as int;
    let n = shape.frames as int;
    let qd = shape.query_dim();
    let width = shape.projected_dim();
    let out = shape.pos_output_dim as int;
    let k = shape.k_len();
    let sizes = host_shape(shape);
    let host = attention_values(
        m,
        weights,
        held,
        shape.frames,
        shape.dim,
        shape.num_heads,
        shape.query_head_dim,
        shape.left_context_len,
        Some(cache),
        Some(key_mask(left, n, valid)),
    );
    if host is Ok {
        law_graph_linear_is_the_host_linear(
            device,
            graph.value(tensors.in_proj_weight),
            graph.value(tensors.in_proj_bias),
            weights.in_proj,
            x,
            held,
            shape.frames,
        );
        let projected = linear_rows(m, weights.in_proj, held, shape.frames, shape.dim)->Ok_0;
        let projection = tensors.projected(graph, x);
        assert(0 <= qd) by (nonlinear_arith)
            requires
                qd == shape.num_heads * shape.query_head_dim,
        ;
        lemma_columns(device, projection, projected, width, n, 0, qd);
        lemma_columns(device, projection, projected, width, n, qd, qd);
        lemma_columns(device, projection, projected, width, n, 2 * qd, out);
        lemma_positions(device, graph, tensors, weights, cache, shape, valid);
        let positions = projected_positions(m, weights.linear_pos, n, left)->Ok_0;
        let at = |t: int, c: int| projected[t * width + qd + c];
        let host_at = |t: int, c: int| projected[t * sizes.width() + sizes.query_dim() + c];
        assert(at =~= host_at);
        let keys = sizes.all_keys(cache, projected);
        let current = projection.window(qd, n, width * 4, qd * 4);
        lemma_stacked(
            device,
            graph.value(tensors.cache),
            current,
            cache,
            grid(n, qd, at),
            qd,
            left,
            n,
        );
        let all_keys = tensors.keys(graph, x, shape);
        assert(device.holds(all_keys, keys, qd, k));
        lemma_last_rows(device, all_keys, keys, qd, n, left);
        let operands = AttentionOperands {
            q: tensors.queries(graph, x, shape),
            keys: all_keys,
            p: tensors.position_queries(graph, x, shape),
            positions: tensors.positions(graph),
            mask: graph.value(tensors.mask),
        };
        let inputs = AttentionInputs { projected, keys, positions, mask: key_mask(left, n, valid) };
        assert forall|s: int, t: int| 0 <= s < k && 0 <= t < n implies device.value(
            #[trigger] (operands.mask.at)(s, t, 0, 0),
        ) == mask_entries(inputs.mask)[s] by {
            let part = |t: int| mask_row(left, n, valid);
            rows::lemma_joined_at(n, part, k, t, s);
        }
        lemma_all_planes(device, shape, operands, inputs);
    }
}

} // verus!
