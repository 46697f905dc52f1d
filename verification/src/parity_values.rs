//! The values that a graph attends to and those of the host.

use vstd::prelude::*;
use crate::attention_graph::{
    nonlin_attention_block, self_attention_block, AttentionBlockValues,
    XasrNonlinAttentionGraphShape, XasrSelfAttentionGraphShape,
};
use crate::bits::ZERO_BITS;
use crate::encoder_weights::{
    XasrLinearPairWeights, XasrLinearWithBias, XasrNonlinAttentionWeights,
};
use crate::float_ops::FloatModel;
use crate::layer_values;
use crate::parity::{
    law_graph_linear_is_the_host_linear, lemma_place, lemma_repeats, lemma_window, Device,
};
use crate::parity_attention::{lemma_columns, lemma_last_rows, lemma_stacked};
use crate::reference_conv::{grid, lemma_grid_at, lemma_grid_len};
use crate::reference_rows::linear_rows;
use crate::reference_values::{
    by_frame, by_head, last_of_heads, nonlin_values, padded_heads, self_attention_values,
    tanh_gated, times_third, weighted_sum, weighted_values,
};
use crate::rows::{self, joined, part_of};
use crate::sums::dot;
use crate::tensor_value::{Scalar, TensorValue};

verus! {

/// The element at a row-major position of planes.
pub proof fn lemma_flat_planes(
    x: TensorValue,
    keys: int,
    frames: int,
    planes: int,
    h: int,
    t: int,
    s: int,
)
    requires
        x.has_shape(keys, frames, planes, 1),
        0 <= s < keys,
        0 <= t < frames,
        0 <= h < planes,
    ensures
        x.flat((h * frames + t) * keys + s) == (x.at)(s, t, h, 0),
{
    let k = (h * frames + t) * keys + s;
    lemma_place(h, planes, t, frames);
    lemma_place(h * frames + t, planes * frames, s, keys);
    lemma_place(t, frames, s, keys);
    lemma_repeats(h, planes);
    let plane = keys * frames;
    let within = t * keys + s;
    assert(frames * keys == plane) by (nonlinear_arith)
        requires
            plane == keys * frames,
    ;
    assert(k == h * plane + within) by (nonlinear_arith)
        requires
            k == (h * frames + t) * keys + s,
            plane == keys * frames,
            within == t * keys + s,
    ;
    vstd::arithmetic::div_mod::lemma_fundamental_div_mod_converse(k, plane, h, within);
    assert(planes * frames * keys == plane * planes) by (nonlinear_arith)
        requires
            plane == keys * frames,
    ;
    vstd::arithmetic::div_mod::lemma_fundamental_div_mod_converse(k, plane * planes, 0, k);
}

/// A weighted sum is a sum of products.
proof fn lemma_weighted_sum(
    m: FloatModel,
    weights: Seq<u32>,
    values: Seq<u32>,
    frames: int,
    k_len: int,
    head_dim: int,
    r: int,
    d: int,
    weight_row: Seq<u32>,
    value_row: Seq<u32>,
    n: int,
)
    requires
        forall|s: int| 0 <= s < n ==> #[trigger] weight_row[s] == weights[r * k_len + s],
        forall|s: int|
            0 <= s < n ==> #[trigger] value_row[s] == values[((r / frames) * k_len + s) * head_dim
                + d],
    ensures
        weighted_sum(m, weights, values, frames, k_len, head_dim, r, d, n) == dot(
            m,
            ZERO_BITS,
            weight_row,
            0,
            value_row,
            0,
            n,
        ),
    decreases n,
{
    if n > 0 {
        lemma_weighted_sum(
            m,
            weights,
            values,
            frames,
            k_len,
            head_dim,
            r,
            d,
            weight_row,
            value_row,
            n - 1,
        );
        assert(weight_row[n - 1] == weights[r * k_len + (n - 1)]);
        assert(value_row[n - 1] == values[((r / frames) * k_len + (n - 1)) * head_dim + d]);
    }
}

/// `split` holds the values head by head, and `weights` the attention of the first
/// heads.
spec fn splits(
    values: Seq<u32>,
    split: Seq<u32>,
    attention: Seq<u32>,
    weights: Seq<u32>,
    frames: int,
    k_len: int,
    heads: int,
    head_dim: int,
) -> bool {
    &&& forall|h: int, s: int, d: int|
        0 <= h < heads && 0 <= s < k_len && 0 <= d < head_dim
            ==> #[trigger] split[(h * k_len + s) * head_dim + d] == values[s * (heads * head_dim)
            + (h * head_dim + d)]
    &&& forall|i: int| 0 <= i < heads * frames * k_len ==> #[trigger] weights[i] == attention[i]
}

/// What one head picks.
proof fn lemma_attended_head(
    device: Device,
    x: TensorValue,
    planes: TensorValue,
    values: Seq<u32>,
    split: Seq<u32>,
    attention: Seq<u32>,
    weights: Seq<u32>,
    frames: int,
    k_len: int,
    heads: int,
    head_dim: int,
    all_heads: int,
    h: int,
    t: int,
    d: int,
)
    requires
        device.attends_as_the_host(),
        device.holds(x, values, heads * head_dim, k_len),
        device.holds_planes(planes, attention, k_len, frames, all_heads),
        splits(values, split, attention, weights, frames, k_len, heads, head_dim),
        0 <= h < heads <= all_heads,
        0 <= t < frames,
        0 <= d < head_dim,
        0 < k_len,
    ensures
        ({
            let y = layer_values::attended_head(
                x,
                planes,
                frames,
                k_len,
                heads * head_dim,
                head_dim,
                h,
            );
            &&& y.has_shape(head_dim, frames, 1, 1)
            &&& device.value((y.at)(d, t, 0, 0)) == weighted_sum(
                device.host,
                weights,
                split,
                frames,
                k_len,
                head_dim,
                h * frames + t,
                d,
                k_len,
            )
        }),
{
    let dim = heads * head_dim;
    let r = h * frames + t;
    let y = layer_values::attended_head(x, planes, frames, k_len, dim, head_dim, h);
    let window = x.window(head_dim, k_len, dim * 4, (h * head_dim) * 4);
    let turned = window.transposed().cont();
    let plane = planes.strided(
        k_len,
        frames,
        1,
        1,
        k_len * 4,
        (k_len * 4) * frames,
        (k_len * 4) * frames,
        h * ((frames * k_len) * 4),
    );
    lemma_place(h, heads, t, frames);
    lemma_place(h, heads, d, head_dim);
    rows::lemma_part_bounds(h, heads, head_dim);
    let value_row = device.values(turned.row(d, 0, 0));
    let weight_row = device.values(plane.row(t, 0, 0));
    assert forall|s: int| 0 <= s < k_len implies #[trigger] value_row[s] == split[((r / frames)
        * k_len + s) * head_dim + d] by {
        assert(0 * dim == 0);
        lemma_window(
            x,
            dim,
            k_len,
            head_dim,
            k_len,
            h * head_dim,
            0,
            1,
            dim * 4,
            (h * head_dim) * 4,
            d,
            s,
        );
        assert(turned.row(d, 0, 0)[s] == (window.at)(d, s, 0, 0));
        assert(device.value((x.at)(h * head_dim + d, s, 0, 0)) == values[s * dim + (h * head_dim
            + d)]);
        assert(split[(h * k_len + s) * head_dim + d] == values[s * (heads * head_dim) + (h
            * head_dim + d)]);
    }
    assert forall|s: int| 0 <= s < k_len implies #[trigger] weight_row[s] == weights[r * k_len
        + s] by {
        let offset = h * ((frames * k_len) * 4);
        assert(offset + t * (k_len * 4) == (r * k_len) * 4) by (nonlinear_arith)
            requires
                offset == h * ((frames * k_len) * 4),
                r == h * frames + t,
        ;
        vstd::arithmetic::div_mod::lemma_fundamental_div_mod_converse(
            offset + t * (k_len * 4),
            4,
            r * k_len,
            0,
        );
        assert(0 * ((k_len * 4) * frames) == 0) by (nonlinear_arith);
        lemma_flat_planes(planes, k_len, frames, all_heads, h, t, s);
        assert(plane.row(t, 0, 0)[s] == (planes.at)(s, t, h, 0));
        lemma_place(r, heads * frames, s, k_len);
        assert(weights[r * k_len + s] == attention[r * k_len + s]);
    }
    lemma_weighted_sum(
        device.host,
        weights,
        split,
        frames,
        k_len,
        head_dim,
        r,
        d,
        weight_row,
        value_row,
        k_len,
    );
    lemma_repeats(0, 1);
    assert((y.at)(d, t, 0, 0) == Scalar::Dot(turned.row(d, 0, 0), plane.row(t, 0, 0)));
    assert(device.value(Scalar::Dot(turned.row(d, 0, 0), plane.row(t, 0, 0))) == (device.dot)(
        value_row,
        weight_row,
    ));
}

/// The heads side by side.
proof fn lemma_attended_heads(
    device: Device,
    x: TensorValue,
    planes: TensorValue,
    values: Seq<u32>,
    split: Seq<u32>,
    attention: Seq<u32>,
    weights: Seq<u32>,
    frames: int,
    k_len: int,
    heads: int,
    head_dim: int,
    all_heads: int,
    count: int,
    h: int,
    t: int,
    d: int,
)
    requires
        device.attends_as_the_host(),
        device.holds(x, values, heads * head_dim, k_len),
        device.holds_planes(planes, attention, k_len, frames, all_heads),
        splits(values, split, attention, weights, frames, k_len, heads, head_dim),
        0 <= h < count <= heads <= all_heads,
        0 <= t < frames,
        0 <= d < head_dim,
        0 < k_len,
    ensures
        ({
            let y = layer_values::attended_heads(
                x,
                planes,
                frames,
                k_len,
                heads * head_dim,
                head_dim,
                count,
            );
            &&& y.has_shape(count * head_dim, frames, 1, 1)
            &&& device.value((y.at)(h * head_dim + d, t, 0, 0)) == weighted_sum(
                device.host,
                weights,
                split,
                frames,
                k_len,
                head_dim,
                h * frames + t,
                d,
                k_len,
            )
        }),
    decreases count,
{
    lemma_attended_head(
        device,
        x,
        planes,
        values,
        split,
        attention,
        weights,
        frames,
        k_len,
        heads,
        head_dim,
        all_heads,
        count - 1,
        t,
        d,
    );
    if count > 1 {
        let earlier = if h < count - 1 {
            h
        } else {
            0
        };
        lemma_attended_heads(
            device,
            x,
            planes,
            values,
            split,
            attention,
            weights,
            frames,
            k_len,
            heads,
            head_dim,
            all_heads,
            count - 1,
            earlier,
            t,
            d,
        );
        assert((count - 1) * head_dim + head_dim == count * head_dim) by (nonlinear_arith);
        if h < count - 1 {
            lemma_place(h, count - 1, d, head_dim);
        }
    } else {
        assert(1 * head_dim == head_dim);
        assert(h == 0);
        assert(0 * head_dim == 0);
    }
}

/// The attended values of a graph are those of the host.
proof fn lemma_attended(
    device: Device,
    x: TensorValue,
    planes: TensorValue,
    values: Seq<u32>,
    split: Seq<u32>,
    attention: Seq<u32>,
    weights: Seq<u32>,
    frames: int,
    k_len: int,
    heads: int,
    head_dim: int,
    all_heads: int,
)
    requires
        device.attends_as_the_host(),
        device.holds(x, values, heads * head_dim, k_len),
        device.holds_planes(planes, attention, k_len, frames, all_heads),
        splits(values, split, attention, weights, frames, k_len, heads, head_dim),
        0 < heads <= all_heads,
        0 < head_dim,
        0 < frames,
        0 < k_len,
    ensures
        device.holds(
            layer_values::attended_heads(
                x,
                planes,
                frames,
                k_len,
                heads * head_dim,
                head_dim,
                heads,
            ),
            by_frame(
                weighted_values(device.host, weights, split, heads, frames, k_len, head_dim),
                heads,
                frames,
                head_dim,
            ),
            heads * head_dim,
            frames,
        ),
{
    let m = device.host;
    let dim = heads * head_dim;
    let y = layer_values::attended_heads(x, planes, frames, k_len, dim, head_dim, heads);
    let sums = weighted_values(m, weights, split, heads, frames, k_len, head_dim);
    let sum_at = |r: int, d: int| weighted_sum(m, weights, split, frames, k_len, head_dim, r, d, k_len);
    let at = |t: int, c: int| sums[((c / head_dim) * frames + t) * head_dim + c % head_dim];
    assert(0 < dim) by (nonlinear_arith)
        requires
            0 < heads,
            0 < head_dim,
            dim == heads * head_dim,
    ;
    lemma_grid_len(frames, dim, at);
    lemma_attended_heads(
        device,
        x,
        planes,
        values,
        split,
        attention,
        weights,
        frames,
        k_len,
        heads,
        head_dim,
        all_heads,
        heads,
        0,
        0,
        0,
    );
    assert forall|c: int, t: int| 0 <= c < dim && 0 <= t < frames implies device.value(
        #[trigger] (y.at)(c, t, 0, 0),
    ) == grid(frames, dim, at)[t * dim + c] by {
        lemma_grid_at(frames, dim, at, t, c);
        let h = c / head_dim;
        let d = c % head_dim;
        vstd::arithmetic::div_mod::lemma_fundamental_div_mod(c, head_dim);
        assert(head_dim * h == h * head_dim) by (nonlinear_arith);
        assert(0 <= h < heads && 0 <= d < head_dim) by (nonlinear_arith)
            requires
                c == head_dim * h + d,
                d == c % head_dim,
                0 <= c < heads * head_dim,
                0 < head_dim,
        ;
        lemma_attended_heads(
            device,
            x,
            planes,
            values,
            split,
            attention,
            weights,
            frames,
            k_len,
            heads,
            head_dim,
            all_heads,
            heads,
            h,
            t,
            d,
        );
        lemma_place(h, heads, t, frames);
        lemma_grid_at(heads * frames, head_dim, sum_at, h * frames + t, d);
    }
}

impl Device {
    /// The tensors hold two matrices with their biases, and a cache of values.
    pub open spec fn holds_block(
        self,
        operands: AttentionBlockValues,
        in_proj: XasrLinearWithBias,
        out_proj: XasrLinearWithBias,
        cache: Seq<u32>,
        value_dim: int,
        left_context_len: int,
    ) -> bool {
        &&& self.holds_linear(operands.in_weight, operands.in_bias, in_proj)
        &&& self.holds_linear(operands.out_weight, operands.out_bias, out_proj)
        &&& self.holds(operands.cache, cache, value_dim, left_context_len)
    }
}

/// The dimensions are those of the weights, and divide into heads.
pub open spec fn self_attention_fits(
    weights: XasrLinearPairWeights,
    shape: XasrSelfAttentionGraphShape,
) -> bool {
    &&& shape.frames > 0
    &&& shape.num_heads > 0
    &&& shape.value_dim > 0
    &&& shape.value_dim % shape.num_heads == 0
    &&& shape.left_context_len + shape.frames <= usize::MAX
    &&& weights.in_proj.weight.input_dim == shape.dim
    &&& weights.in_proj.weight.output_dim == shape.value_dim
    &&& weights.out_proj.weight.input_dim == shape.value_dim
}

/// A multiple of the number of heads is that many heads of equal width.
proof fn lemma_heads(total: int, heads: int)
    requires
        0 < heads,
        0 < total,
        total % heads == 0,
    ensures
        heads * (total / heads) == total,
        0 < total / heads,
{
    vstd::arithmetic::div_mod::lemma_fundamental_div_mod(total, heads);
    let part = total / heads;
    assert(0 < part) by (nonlinear_arith)
        requires
            heads * part == total,
            0 < heads,
            0 < total,
    ;
}

/// Values taken head by head.
proof fn lemma_by_head(flat: Seq<u32>, heads: int, count: int, head_dim: int, h: int, s: int, d: int)
    requires
        0 <= h < heads,
        0 <= s < count,
        0 <= d < head_dim,
    ensures
        by_head(flat, heads, count, head_dim)[(h * count + s) * head_dim + d] == flat[s * (heads
            * head_dim) + (h * head_dim + d)],
{
    let at = |r: int, d: int|
        flat[(r % count) * (heads * head_dim) + (r / count) * head_dim + d];
    lemma_place(h, heads, s, count);
    lemma_grid_at(heads * count, head_dim, at, h * count + s, d);
}

/// A self-attention block of a graph is that of the host: its rows, and the values
/// that it leaves in the cache.
pub proof fn law_graph_self_attention_is_the_host_one(
    device: Device,
    operands: AttentionBlockValues,
    weights: XasrLinearPairWeights,
    cache: Seq<u32>,
    planes: TensorValue,
    attention: Seq<u32>,
    shape: XasrSelfAttentionGraphShape,
    x: TensorValue,
    held: Seq<u32>,
)
    requires
        device.multiplies_as_the_host(),
        device.attends_as_the_host(),
        device.holds_block(
            operands,
            weights.in_proj,
            weights.out_proj,
            cache,
            shape.value_dim as int,
            shape.left_context_len as int,
        ),
        self_attention_fits(weights, shape),
        device.holds_planes(
            planes,
            attention,
            shape.left_context_len + shape.frames,
            shape.frames as int,
            shape.num_heads as int,
        ),
        device.holds(x, held, shape.dim as int, shape.frames as int),
    ensures
        ({
            let host = self_attention_values(
                device.host,
                weights,
                held,
                attention,
                shape.frames,
                shape.dim,
                shape.num_heads,
                shape.left_context_len,
                Some(cache),
            );
            let block = self_attention_block(operands, planes, x, shape);
            &&& host is Ok
            &&& device.holds(
                block.rows,
                host->Ok_0.rows,
                weights.out_proj.weight.output_dim as int,
                shape.frames as int,
            )
            &&& device.holds(
                block.new_cache,
                host->Ok_0.cache,
                shape.value_dim as int,
                shape.left_context_len as int,
            )
        }),
{
    reveal(self_attention_block);
    let m = device.host;
    let n = shape.frames as int;
    let left = shape.left_context_len as int;
    let k = left + n;
    let heads = shape.num_heads as int;
    let dim = shape.value_dim as int;
    let head_dim = dim / heads;
    lemma_heads(dim, heads);
    law_graph_linear_is_the_host_linear(
        device,
        operands.in_weight,
        operands.in_bias,
        weights.in_proj,
        x,
        held,
        shape.frames,
    );
    let current = linear_rows(m, weights.in_proj, held, shape.frames, shape.dim)->Ok_0;
    let current_value = layer_values::linear(operands.in_weight, x, operands.in_bias);
    let flat = cache + current;
    let values = operands.cache.concat(current_value, 1);
    lemma_stacked(device, operands.cache, current_value, cache, current, dim, left, n);
    lemma_last_rows(device, values, flat, dim, n, left);
    let split = by_head(flat, heads, k, head_dim);
    assert forall|h: int, s: int, d: int| 0 <= h < heads && 0 <= s < k && 0 <= d < head_dim implies
        #[trigger] split[(h * k + s) * head_dim + d] == flat[s * (heads * head_dim) + (h * head_dim
        + d)] by {
        lemma_by_head(flat, heads, k, head_dim, h, s, d);
    }
    assert(splits(flat, split, attention, attention, n, k, heads, head_dim));
    lemma_attended(
        device,
        values,
        planes,
        flat,
        split,
        attention,
        attention,
        n,
        k,
        heads,
        head_dim,
        heads,
    );
    let attended = by_frame(
        weighted_values(m, attention, split, heads, n, k, head_dim),
        heads,
        n,
        head_dim,
    );
    law_graph_linear_is_the_host_linear(
        device,
        operands.out_weight,
        operands.out_bias,
        weights.out_proj,
        shape.weighting().applied(values, planes),
        attended,
        shape.frames,
    );
}

/// The dimensions are those of the weights, with a single head.
pub open spec fn nonlin_attention_fits(
    weights: XasrNonlinAttentionWeights,
    shape: XasrNonlinAttentionGraphShape,
) -> bool {
    &&& shape.frames > 0
    &&& shape.num_heads == 1
    &&& shape.hidden_dim > 0
    &&& shape.left_context_len + shape.frames <= usize::MAX
    &&& weights.in_proj.weight.input_dim == shape.dim
    &&& weights.in_proj.weight.output_dim == 3 * shape.hidden_dim
    &&& weights.out_proj.weight.input_dim == shape.hidden_dim
}

/// The gated values of a graph.
proof fn lemma_gated(
    device: Device,
    shape: XasrNonlinAttentionGraphShape,
    projection: TensorValue,
    projected: Seq<u32>,
)
    requires
        device.holds(
            projection,
            projected,
            3 * shape.hidden_dim as int,
            shape.frames as int,
        ),
    ensures
        device.holds(
            shape.third(projection, 1).times(shape.third(projection, 0).tanh()),
            tanh_gated(device.host, projected, shape.frames as int, shape.hidden_dim as int),
            shape.hidden_dim as int,
            shape.frames as int,
        ),
{
    let m = device.host;
    let w = shape.hidden_dim as int;
    let n = shape.frames as int;
    let y = shape.third(projection, 1).times(shape.third(projection, 0).tanh());
    let at = |t: int, i: int|
        (m.mul)(projected[t * (3 * w) + w + i], (m.tanh)(projected[t * (3 * w) + i]));
    lemma_grid_len(n, w, at);
    lemma_columns(device, projection, projected, 3 * w, n, 0, w);
    lemma_columns(device, projection, projected, 3 * w, n, w, w);
    let gate = shape.third(projection, 0);
    let value = shape.third(projection, 1);
    assert forall|c: int, t: int| 0 <= c < w && 0 <= t < n implies device.value(
        #[trigger] (y.at)(c, t, 0, 0),
    ) == grid(n, w, at)[t * w + c] by {
        lemma_grid_at(n, w, at, t, c);
        lemma_repeats(c, w);
        lemma_repeats(t, n);
        assert(device.value((gate.at)(c, t, 0, 0)) == projected[t * (3 * w) + 0 + c]);
        assert(device.value((value.at)(c, t, 0, 0)) == projected[t * (3 * w) + w + c]);
        assert(gate.tanh().repeated(c, t, 0, 0) == (gate.tanh().at)(c, t, 0, 0));
        reveal_with_fuel(Device::value, 3);
    }
}

/// Attended values of a graph, gated by the last third.
proof fn lemma_times_third(
    device: Device,
    shape: XasrNonlinAttentionGraphShape,
    projection: TensorValue,
    projected: Seq<u32>,
    x: TensorValue,
    attended: Seq<u32>,
)
    requires
        device.holds(
            projection,
            projected,
            3 * shape.hidden_dim as int,
            shape.frames as int,
        ),
        device.holds(x, attended, shape.hidden_dim as int, shape.frames as int),
    ensures
        device.holds(
            x.times(shape.third(projection, 2)),
            times_third(
                device.host,
                attended,
                projected,
                shape.frames as int,
                shape.hidden_dim as int,
            ),
            shape.hidden_dim as int,
            shape.frames as int,
        ),
{
    let m = device.host;
    let w = shape.hidden_dim as int;
    let n = shape.frames as int;
    let factor = shape.third(projection, 2);
    let y = x.times(factor);
    let at = |t: int, i: int|
        (m.mul)(attended[t * w + i], projected[t * (3 * w) + 2 * w + i]);
    lemma_grid_len(n, w, at);
    lemma_columns(device, projection, projected, 3 * w, n, 2 * w, w);
    assert forall|c: int, t: int| 0 <= c < w && 0 <= t < n implies device.value(
        #[trigger] (y.at)(c, t, 0, 0),
    ) == grid(n, w, at)[t * w + c] by {
        lemma_grid_at(n, w, at, t, c);
        lemma_repeats(c, w);
        lemma_repeats(t, n);
        assert(device.value((x.at)(c, t, 0, 0)) == attended[t * w + c]);
        assert(device.value((factor.at)(c, t, 0, 0)) == projected[t * (3 * w) + 2 * w + c]);
        reveal_with_fuel(Device::value, 2);
    }
}

/// With a single head, the cache and the values of the frames follow one another.
proof fn lemma_single_head(cached: Seq<u32>, gated: Seq<u32>, left: int, frames: int, dim: int)
    requires
        0 <= left,
        0 < frames,
        0 < dim,
        cached.len() == left * dim,
        gated.len() == frames * dim,
    ensures
        padded_heads(cached, gated, 1, left, frames, dim) == cached + gated,
        last_of_heads(cached + gated, 1, left, frames, dim) == (cached + gated).subrange(
            frames * dim,
            (left + frames) * dim,
        ),
{
    let k = left + frames;
    let flat = cached + gated;
    let at = |r: int, d: int|
        if r % k >= left {
            gated[(r % k - left) * (1 * dim) + (r / k) * dim + d]
        } else if r * dim + d < cached.len() {
            cached[r * dim + d]
        } else {
            ZERO_BITS
        };
    assert(left * dim + frames * dim == k * dim && 0 <= left * dim && 0 <= frames * dim)
        by (nonlinear_arith)
        requires
            k == left + frames,
            0 <= left,
            0 < frames,
            0 < dim,
    ;
    assert(1 * k == k);
    lemma_grid_len(1 * k, dim, at);
    assert forall|i: int| 0 <= i < k * dim implies #[trigger] flat[i] == grid(1 * k, dim, at)[i] by {
        let s = i / dim;
        let d = i % dim;
        vstd::arithmetic::div_mod::lemma_fundamental_div_mod(i, dim);
        assert(dim * s == s * dim) by (nonlinear_arith);
        assert(0 <= s < k && 0 <= d < dim) by (nonlinear_arith)
            requires
                i == dim * s + d,
                d == i % dim,
                0 <= i < k * dim,
                0 < dim,
        ;
        lemma_grid_at(1 * k, dim, at, s, d);
        lemma_repeats(s, k);
        vstd::arithmetic::div_mod::lemma_fundamental_div_mod_converse(s, k, 0, s);
        if s >= left {
            assert((s - left) * (1 * dim) + 0 * dim + d == i - left * dim) by (nonlinear_arith)
                requires
                    i == s * dim + d,
            ;
            assert(left * dim <= i) by (nonlinear_arith)
                requires
                    i == s * dim + d,
                    left <= s,
                    0 <= d,
                    0 < dim,
            ;
        } else {
            lemma_place(s, left, d, dim);
        }
    }
    assert(grid(1 * k, dim, at) =~= flat);
    let part = |h: int| part_of(flat, k * dim, h).subrange(frames * dim, k * dim);
    assert(joined(1, part) =~= part(0)) by {
        reveal_with_fuel(joined, 2);
    }
    assert(part_of(flat, k * dim, 0) =~= flat) by {
        assert(0 * (k * dim) == 0 && (0 + 1) * (k * dim) == k * dim) by (nonlinear_arith);
    }
}

/// A nonlinear attention block of a graph with one head is that of the host: its
/// rows, and the values that it leaves in the cache.
pub proof fn law_graph_nonlin_attention_is_the_host_one(
    device: Device,
    operands: AttentionBlockValues,
    weights: XasrNonlinAttentionWeights,
    cache: Seq<u32>,
    planes: TensorValue,
    attention: Seq<u32>,
    all_heads: int,
    shape: XasrNonlinAttentionGraphShape,
    x: TensorValue,
    held: Seq<u32>,
)
    requires
        device.multiplies_as_the_host(),
        device.attends_as_the_host(),
        device.holds_block(
            operands,
            weights.in_proj,
            weights.out_proj,
            cache,
            shape.hidden_dim as int,
            shape.left_context_len as int,
        ),
        nonlin_attention_fits(weights, shape),
        all_heads > 0,
        device.holds_planes(
            planes,
            attention,
            shape.left_context_len + shape.frames,
            shape.frames as int,
            all_heads,
        ),
        device.holds(x, held, shape.dim as int, shape.frames as int),
    ensures
        ({
            let host = nonlin_values(
                device.host,
                weights,
                held,
                attention.take(shape.frames * (shape.left_context_len + shape.frames)),
                shape.frames,
                shape.dim,
                1,
                shape.left_context_len,
                Some(cache),
            );
            let block = nonlin_attention_block(operands, planes, x, shape);
            &&& host is Ok
            &&& device.holds(
                block.rows,
                host->Ok_0.rows,
                weights.out_proj.weight.output_dim as int,
                shape.frames as int,
            )
            &&& device.holds(
                block.new_cache,
                host->Ok_0.cache,
                shape.hidden_dim as int,
                shape.left_context_len as int,
            )
        }),
{
    reveal(nonlin_attention_block);
    let m = device.host;
    let n = shape.frames as int;
    let left = shape.left_context_len as int;
    let k = left + n;
    let w = shape.hidden_dim as int;
    law_graph_linear_is_the_host_linear(
        device,
        operands.in_weight,
        operands.in_bias,
        weights.in_proj,
        x,
        held,
        shape.frames,
    );
    let projected = linear_rows(m, weights.in_proj, held, shape.frames, shape.dim)->Ok_0;
    let projection = layer_values::linear(operands.in_weight, x, operands.in_bias);
    lemma_gated(device, shape, projection, projected);
    let gated = tanh_gated(m, projected, n, w);
    let current = shape.third(projection, 1).times(shape.third(projection, 0).tanh());
    let flat = cache + gated;
    let values = operands.cache.concat(current, 1);
    lemma_stacked(device, operands.cache, current, cache, gated, w, left, n);
    lemma_last_rows(device, values, flat, w, n, left);
    lemma_single_head(cache, gated, left, n, w);
    vstd::arithmetic::div_mod::lemma_fundamental_div_mod_converse(w, 1, w, 0);
    assert(1 * left * w == left * w);
    let taken = attention.take(n * k);
    assert(n * k <= all_heads * n * k && 0 <= n * k) by (nonlinear_arith)
        requires
            1 <= all_heads,
            0 <= n,
            0 <= k,
    ;
    assert forall|h: int, s: int, d: int| 0 <= h < 1 && 0 <= s < k && 0 <= d < w implies
        #[trigger] flat[(h * k + s) * w + d] == flat[s * (1 * w) + (h * w + d)] by {
        assert(h == 0);
        assert(0 * k == 0 && 0 * w == 0 && 1 * w == w) by (nonlinear_arith);
    }
    assert(1 * n * k == n * k);
    assert(splits(flat, flat, attention, taken, n, k, 1, w));
    lemma_attended(device, values, planes, flat, flat, attention, taken, n, k, 1, w, all_heads);
    let attended = by_frame(weighted_values(m, taken, flat, 1, n, k, w), 1, n, w);
    lemma_times_third(
        device,
        shape,
        projection,
        projected,
        shape.weighting().applied(values, planes),
        attended,
    );
    law_graph_linear_is_the_host_linear(
        device,
        operands.out_weight,
        operands.out_bias,
        weights.out_proj,
        shape.weighting().applied(values, planes).times(shape.third(projection, 2)),
        times_third(m, attended, projected, n, w),
        shape.frames,
    );
}

} // verus!
