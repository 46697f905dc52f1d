//! What attention gathers.

use vstd::prelude::*;
use vstd::arithmetic::div_mod::lemma_fundamental_div_mod_converse;
use crate::attention_laws::{lemma_head_inside, lemma_inside, lemma_shares, remembered, stretch};
use crate::encoder_weights::{XasrLinearPairWeights, XasrNonlinAttentionWeights};
use crate::float_ops::FloatModel;
use crate::reference_conv::{grid, lemma_grid_at, lemma_grid_len};
use crate::reference_conv_module::cache_or_zeros;
use crate::reference_rows::linear_rows;
use crate::reference_values::{
    by_frame, by_head, last_of_heads, nonlin_values, padded_heads, self_attention_values, tanh_gated,
    times_third, weighted_sum, weighted_values,
};
use crate::row_laws::{law_rows_go_through_a_matrix_one_by_one, matrices_fill_rows};
use crate::rows::{lemma_joined_at, lemma_part_bounds, part_of};
use crate::sum_laws::{products, summed};

verus! {

/// What a frame gathers of one entry of the values of all keys: every value times the weight
/// of its key, summed up.
pub open spec fn gathered(m: FloatModel, weights: Seq<u32>, values: Seq<u32>) -> u32 {
    summed(m, 0, products(m, weights, values))
}

/// Entry `c` of the first `count` rows.
pub open spec fn column(rows: Seq<u32>, width: int, c: int, count: int) -> Seq<u32> {
    Seq::new(count as nat, |s: int| rows[s * width + c])
}

proof fn lemma_weighted(
    m: FloatModel,
    weights: Seq<u32>,
    values: Seq<u32>,
    frames: int,
    k_len: int,
    head_dim: int,
    head: int,
    t: int,
    d: int,
    n: int,
)
    requires
        0 <= n <= k_len,
        0 <= t < frames,
        0 <= (head * frames + t) * k_len,
        (head * frames + t) * k_len + n <= weights.len(),
    ensures
        weighted_sum(m, weights, values, frames, k_len, head_dim, head * frames + t, d, n)
            == gathered(
            m,
            stretch(weights, (head * frames + t) * k_len, n),
            Seq::new(n as nat, |s: int| values[(head * k_len + s) * head_dim + d]),
        ),
    decreases n,
{
    let r = head * frames + t;
    let at = |s: int| values[(head * k_len + s) * head_dim + d];
    lemma_fundamental_div_mod_converse(r, frames, head, t);
    if n > 0 {
        lemma_weighted(m, weights, values, frames, k_len, head_dim, head, t, d, n - 1);
        let terms = products(m, stretch(weights, r * k_len, n), Seq::new(n as nat, at));
        assert(terms.drop_last() =~= products(
            m,
            stretch(weights, r * k_len, n - 1),
            Seq::new((n - 1) as nat, at),
        ));
    }
}

/// What is gathered for a head stands at the place of the head in the row of the frame.
#[verifier::spinoff_prover]
proof fn lemma_gathered(
    m: FloatModel,
    weights: Seq<u32>,
    values: Seq<u32>,
    heads: int,
    frames: int,
    k_len: int,
    head_dim: int,
    head: int,
    t: int,
    d: int,
)
    requires
        0 <= head < heads,
        0 <= t < frames,
        0 <= d < head_dim,
        0 <= k_len,
        weights.len() == heads * frames * k_len,
    ensures
        ({
            let sums = weighted_values(m, weights, values, heads, frames, k_len, head_dim);
            let attended = by_frame(sums, heads, frames, head_dim);
            &&& attended.len() == frames * (heads * head_dim)
            &&& attended[t * (heads * head_dim) + (head * head_dim + d)] == gathered(
                m,
                stretch(weights, (head * frames + t) * k_len, k_len),
                Seq::new(k_len as nat, |s: int| values[(head * k_len + s) * head_dim + d]),
            )
        }),
{
    let sums = weighted_values(m, weights, values, heads, frames, k_len, head_dim);
    let r = head * frames + t;
    lemma_head_inside(head, heads, head_dim);
    lemma_inside(head, heads, frames, t, 1);
    lemma_part_bounds(r, heads * frames, k_len);
    lemma_fundamental_div_mod_converse(head * head_dim + d, head_dim, head, d);
    let at = |r: int, d: int|
        weighted_sum(m, weights, values, frames, k_len, head_dim, r, d, k_len);
    lemma_grid_at(heads * frames, head_dim, at, r, d);
    let place = |t: int, c: int|
        sums[((c / head_dim) * frames + t) * head_dim + c % head_dim];
    lemma_grid_at(frames, heads * head_dim, place, t, head * head_dim + d);
    lemma_weighted(m, weights, values, frames, k_len, head_dim, head, t, d, k_len);
}

/// Every frame gathers, with every head, the values of all keys by the weights of the keys:
/// those that are remembered come first, and then those of the frames.  What is gathered goes
/// through the second matrix, frame by frame, and the values of the last frames are
/// remembered.
#[verifier::spinoff_prover]
#[verifier::rlimit(30)]
pub proof fn law_self_attention_gathers_values_by_their_weights(
    m: FloatModel,
    weights: XasrLinearPairWeights,
    rows: Seq<u32>,
    attention: Seq<u32>,
    frames: usize,
    dim: usize,
    num_heads: usize,
    left_context_len: usize,
    cached: Option<Seq<u32>>,
) -> (found: (Seq<u32>, Seq<u32>))
    requires
        matrices_fill_rows(m),
        frames > 0,
        left_context_len + frames <= usize::MAX,
        self_attention_values(
            m,
            weights,
            rows,
            attention,
            frames,
            dim,
            num_heads,
            left_context_len,
            cached,
        ) is Ok,
    ensures
        ({
            let result = self_attention_values(
                m,
                weights,
                rows,
                attention,
                frames,
                dim,
                num_heads,
                left_context_len,
                cached,
            )->Ok_0;
            let values = found.0;
            let attended = found.1;
            let width = weights.in_proj.weight.output_dim as int;
            let out = weights.out_proj.weight.output_dim as int;
            let share = width / num_heads as int;
            let keys = left_context_len + frames;
            &&& values.len() == keys * width
            &&& values.take(left_context_len * width) == remembered(
                cached,
                left_context_len * width,
            )
            &&& forall|t: int|
                0 <= t < frames ==> (m.apply_linear)(
                    weights.in_proj.weight,
                    #[trigger] rows.subrange(t * dim, (t + 1) * dim),
                    Some(weights.in_proj.bias@),
                ) == Ok::<Seq<u32>, Seq<char>>(stretch(values, (left_context_len + t) * width, width))
            &&& attended.len() == frames * width
            &&& forall|head: int, t: int, d: int|
                0 <= head < num_heads && 0 <= t < frames && 0 <= d < share
                    ==> #[trigger] attended[t * width + (head * share + d)] == gathered(
                    m,
                    stretch(attention, (head * frames + t) * keys, keys),
                    column(values, width, head * share + d, keys),
                )
            &&& forall|t: int|
                0 <= t < frames ==> (m.apply_linear)(
                    weights.out_proj.weight,
                    #[trigger] attended.subrange(t * width, (t + 1) * width),
                    Some(weights.out_proj.bias@),
                ) == Ok::<Seq<u32>, Seq<char>>(result.rows.subrange(t * out, (t + 1) * out))
            &&& result.cache == values.skip(frames * width)
        }),
{
    let width = weights.in_proj.weight.output_dim as int;
    let heads = num_heads as int;
    let share = width / heads;
    let left = left_context_len as int;
    let n = frames as int;
    let keys = left + n;
    let before = cache_or_zeros(cached, left * width);
    let current = linear_rows(m, weights.in_proj, rows, frames, dim)->Ok_0;
    let values = before + current;
    let sorted = by_head(values, heads, keys, share);
    let attended = by_frame(
        weighted_values(m, attention, sorted, heads, n, keys, share),
        heads,
        n,
        share,
    );
    lemma_shares(width, heads);
    law_rows_go_through_a_matrix_one_by_one(m, weights.in_proj, rows, frames, dim, 0);
    assert(left * width + n * width == keys * width && 0 <= left * width && 0 <= n * width)
        by (nonlinear_arith)
        requires
            keys == left + n,
            0 <= left,
            0 <= n,
            0 <= width,
    ;
    assert(before =~= remembered(cached, left * width));
    assert(values.take(left * width) =~= before);
    assert forall|t: int| 0 <= t < frames implies (m.apply_linear)(
        weights.in_proj.weight,
        #[trigger] rows.subrange(t * dim, (t + 1) * dim),
        Some(weights.in_proj.bias@),
    ) == Ok::<Seq<u32>, Seq<char>>(stretch(values, (left_context_len + t) * width, width)) by {
        law_rows_go_through_a_matrix_one_by_one(m, weights.in_proj, rows, frames, dim, t);
        lemma_part_bounds(t, n, width);
        assert((left + t) * width == left * width + t * width) by (nonlinear_arith);
        assert(stretch(values, (left_context_len + t) * width, width) =~= current.subrange(
            t * width,
            (t + 1) * width,
        ));
    }
    let place = |r: int, d: int| values[(r % keys) * (heads * share) + (r / keys) * share + d];
    assert forall|head: int, t: int, d: int|
        0 <= head < num_heads && 0 <= t < frames && 0 <= d < share implies #[trigger] attended[t
        * width + (head * share + d)] == gathered(
        m,
        stretch(attention, (head * frames + t) * keys, keys),
        column(values, width, head * share + d, keys),
    ) by {
        lemma_gathered(m, attention, sorted, heads, n, keys, share, head, t, d);
        let of_head = Seq::new(keys as nat, |s: int| sorted[(head * keys + s) * share + d]);
        assert forall|s: int| 0 <= s < keys implies of_head[s] == values[s * width + (head * share
            + d)] by {
            lemma_inside(head, heads, keys, s, 1);
            lemma_fundamental_div_mod_converse(head * keys + s, keys, head, s);
            lemma_grid_at(heads * keys, share, place, head * keys + s, d);
        }
        assert(of_head =~= column(values, width, head * share + d, keys));
    }
    lemma_grid_len(
        n,
        heads * share,
        |t: int, c: int|
            weighted_values(m, attention, sorted, heads, n, keys, share)[((c / share) * n + t)
                * share + c % share],
    );
    assert forall|t: int| 0 <= t < frames implies (m.apply_linear)(
        weights.out_proj.weight,
        #[trigger] attended.subrange(t * width, (t + 1) * width),
        Some(weights.out_proj.bias@),
    ) == Ok::<Seq<u32>, Seq<char>>(
        linear_rows(m, weights.out_proj, attended, frames, width as usize)->Ok_0.subrange(
            t * weights.out_proj.weight.output_dim,
            (t + 1) * weights.out_proj.weight.output_dim,
        ),
    ) by {
        law_rows_go_through_a_matrix_one_by_one(
            m,
            weights.out_proj,
            attended,
            frames,
            width as usize,
            t,
        );
    }
    assert(values.subrange(n * width, keys * width) =~= values.skip(n * width));
    (values, attended)
}

/// The value of a key in the nonlinear attention, for one entry of a head: that of a frame is
/// the second third of its projected row, gated by the hyperbolic tangent of the first third.
/// Before the frames stands what is remembered, with zeros after its end.
pub open spec fn key_value(
    m: FloatModel,
    cached: Seq<u32>,
    projected: Seq<u32>,
    hidden: int,
    share: int,
    left: int,
    frames: int,
    head: int,
    key: int,
    d: int,
) -> u32 {
    let old = (head * (left + frames) + key) * share + d;
    let row = (key - left) * (3 * hidden);
    let entry = head * share + d;
    if key >= left {
        (m.mul)(projected[row + hidden + entry], (m.tanh)(projected[row + entry]))
    } else if old < cached.len() {
        cached[old]
    } else {
        0
    }
}

proof fn lemma_key_value(
    m: FloatModel,
    cached: Seq<u32>,
    projected: Seq<u32>,
    heads: int,
    share: int,
    left: int,
    frames: int,
    head: int,
    key: int,
    d: int,
)
    requires
        0 <= head < heads,
        0 <= left,
        0 <= frames,
        0 <= key < left + frames,
        0 <= d < share,
    ensures
        ({
            let hidden = heads * share;
            let keys = left + frames;
            let gated = tanh_gated(m, projected, frames, hidden);
            let padded = padded_heads(cached, gated, heads, left, frames, share);
            &&& padded.len() == heads * keys * share
            &&& padded[(head * keys + key) * share + d] == key_value(
                m,
                cached,
                projected,
                hidden,
                share,
                left,
                frames,
                head,
                key,
                d,
            )
        }),
{
    let hidden = heads * share;
    let keys = left + frames;
    let gated = tanh_gated(m, projected, frames, hidden);
    lemma_inside(head, heads, keys, key, 1);
    lemma_fundamental_div_mod_converse(head * keys + key, keys, head, key);
    lemma_head_inside(head, heads, share);
    let k_len = left + frames;
    let at = |r: int, d: int|
        if r % k_len >= left {
            gated[(r % k_len - left) * (heads * share) + (r / k_len) * share + d]
        } else if r * share + d < cached.len() {
            cached[r * share + d]
        } else {
            0u32
        };
    lemma_grid_at(heads * keys, share, at, head * keys + key, d);
    assert(padded_heads(cached, gated, heads, left, frames, share) =~= grid(
        heads * keys,
        share,
        at,
    ));
    if key >= left {
        let gate = |t: int, i: int|
            (m.mul)(
                projected[t * (3 * hidden) + hidden + i],
                (m.tanh)(projected[t * (3 * hidden) + i]),
            );
        lemma_grid_at(frames, hidden, gate, key - left, head * share + d);
    }
}

/// Nonlinear attention gathers, with every head, the gated values of all keys by the weights
/// of the keys.  What is gathered is multiplied with the last third of the projected row of
/// the frame, and goes through the second matrix.  The values of the last keys of every head
/// are remembered.
#[verifier::spinoff_prover]
#[verifier::rlimit(40)]
pub proof fn law_nonlinear_attention_gathers_gated_values(
    m: FloatModel,
    weights: XasrNonlinAttentionWeights,
    rows: Seq<u32>,
    attention: Seq<u32>,
    frames: usize,
    dim: usize,
    num_heads: usize,
    left_context_len: usize,
    cached: Option<Seq<u32>>,
) -> (found: (Seq<u32>, Seq<u32>))
    requires
        matrices_fill_rows(m),
        frames > 0,
        left_context_len + frames <= usize::MAX,
        nonlin_values(
            m,
            weights,
            rows,
            attention,
            frames,
            dim,
            num_heads,
            left_context_len,
            cached,
        ) is Ok,
    ensures
        ({
            let result = nonlin_values(
                m,
                weights,
                rows,
                attention,
                frames,
                dim,
                num_heads,
                left_context_len,
                cached,
            )->Ok_0;
            let projected = found.0;
            let gated = found.1;
            let hidden = weights.out_proj.weight.input_dim as int;
            let out = weights.out_proj.weight.output_dim as int;
            let share = hidden / num_heads as int;
            let left = left_context_len as int;
            let keys = left + frames;
            let before = remembered(cached, num_heads * left * share);
            &&& projected.len() == frames * (3 * hidden)
            &&& forall|t: int|
                0 <= t < frames ==> (m.apply_linear)(
                    weights.in_proj.weight,
                    #[trigger] rows.subrange(t * dim, (t + 1) * dim),
                    Some(weights.in_proj.bias@),
                ) == Ok::<Seq<u32>, Seq<char>>(stretch(projected, t * (3 * hidden), 3 * hidden))
            &&& gated.len() == frames * hidden
            &&& forall|head: int, t: int, d: int|
                0 <= head < num_heads && 0 <= t < frames && 0 <= d < share
                    ==> #[trigger] gated[t * hidden + (head * share + d)] == (m.mul)(
                    gathered(
                        m,
                        stretch(attention, (head * frames + t) * keys, keys),
                        Seq::new(
                            keys as nat,
                            |key: int|
                                key_value(
                                    m,
                                    before,
                                    projected,
                                    hidden,
                                    share,
                                    left,
                                    frames as int,
                                    head,
                                    key,
                                    d,
                                ),
                        ),
                    ),
                    projected[t * (3 * hidden) + 2 * hidden + (head * share + d)],
                )
            &&& forall|t: int|
                0 <= t < frames ==> (m.apply_linear)(
                    weights.out_proj.weight,
                    #[trigger] gated.subrange(t * hidden, (t + 1) * hidden),
                    Some(weights.out_proj.bias@),
                ) == Ok::<Seq<u32>, Seq<char>>(result.rows.subrange(t * out, (t + 1) * out))
            &&& share > 0 && left > 0 ==> result.cache.len() == num_heads * (left * share)
            &&& forall|head: int, k: int, d: int|
                0 <= head < num_heads && 0 <= k < left && 0 <= d < share
                    ==> result.cache[head * (left * share) + (k * share + d)]
                    == #[trigger] key_value(
                    m,
                    before,
                    projected,
                    hidden,
                    share,
                    left,
                    frames as int,
                    head,
                    frames + k,
                    d,
                )
        }),
{
    let hidden = weights.out_proj.weight.input_dim as int;
    let heads = num_heads as int;
    let share = hidden / heads;
    let left = left_context_len as int;
    let n = frames as int;
    let keys = left + n;
    let out = weights.out_proj.weight.output_dim as int;
    let before = cache_or_zeros(cached, heads * left * share);
    let projected = linear_rows(m, weights.in_proj, rows, frames, dim)->Ok_0;
    let padded = padded_heads(
        before,
        tanh_gated(m, projected, n, hidden),
        heads,
        left,
        n,
        share,
    );
    let attended = by_frame(
        weighted_values(m, attention, padded, heads, n, keys, share),
        heads,
        n,
        share,
    );
    let gated = times_third(m, attended, projected, n, hidden);
    lemma_shares(hidden, heads);
    assert(0 <= heads * left * share) by (nonlinear_arith)
        requires
            0 <= heads,
            0 <= left,
            0 <= share,
    ;
    assert(before =~= remembered(cached, heads * left * share));
    law_rows_go_through_a_matrix_one_by_one(m, weights.in_proj, rows, frames, dim, 0);
    assert forall|t: int| 0 <= t < frames implies (m.apply_linear)(
        weights.in_proj.weight,
        #[trigger] rows.subrange(t * dim, (t + 1) * dim),
        Some(weights.in_proj.bias@),
    ) == Ok::<Seq<u32>, Seq<char>>(stretch(projected, t * (3 * hidden), 3 * hidden)) by {
        law_rows_go_through_a_matrix_one_by_one(m, weights.in_proj, rows, frames, dim, t);
        lemma_part_bounds(t, n, 3 * hidden);
    }
    let third = |t: int, i: int|
        (m.mul)(
            attended[t * hidden + i],
            projected[t * (3 * hidden) + 2 * hidden + i],
        );
    lemma_grid_len(n, hidden, third);
    assert forall|head: int, t: int, d: int|
        0 <= head < num_heads && 0 <= t < frames && 0 <= d < share implies #[trigger] gated[t
        * hidden + (head * share + d)] == (m.mul)(
        gathered(
            m,
            stretch(attention, (head * frames + t) * keys, keys),
            Seq::new(
                keys as nat,
                |key: int|
                    key_value(
                        m,
                        before,
                        projected,
                        hidden,
                        share,
                        left,
                        frames as int,
                        head,
                        key,
                        d,
                    ),
            ),
        ),
        projected[t * (3 * hidden) + 2 * hidden + (head * share + d)],
    ) by {
        lemma_gathered(m, attention, padded, heads, n, keys, share, head, t, d);
        let of_head = Seq::new(keys as nat, |s: int| padded[(head * keys + s) * share + d]);
        let named = Seq::new(
            keys as nat,
            |key: int|
                key_value(
                    m,
                    before,
                    projected,
                    hidden,
                    share,
                    left,
                    frames as int,
                    head,
                    key,
                    d,
                ),
        );
        assert forall|s: int| 0 <= s < keys implies of_head[s] == named[s] by {
            lemma_key_value(m, before, projected, heads, share, left, n, head, s, d);
        }
        assert(of_head =~= named);
        lemma_head_inside(head, heads, share);
        lemma_grid_at(n, hidden, third, t, head * share + d);
    }
    assert forall|t: int| 0 <= t < frames implies (m.apply_linear)(
        weights.out_proj.weight,
        #[trigger] gated.subrange(t * hidden, (t + 1) * hidden),
        Some(weights.out_proj.bias@),
    ) == Ok::<Seq<u32>, Seq<char>>(
        linear_rows(m, weights.out_proj, gated, frames, hidden as usize)->Ok_0.subrange(
            t * out,
            (t + 1) * out,
        ),
    ) by {
        law_rows_go_through_a_matrix_one_by_one(
            m,
            weights.out_proj,
            gated,
            frames,
            hidden as usize,
            t,
        );
    }
    let last = last_of_heads(padded, heads, left, n, share);
    let part = |h: int| part_of(padded, keys * share, h).subrange(n * share, keys * share);
    assert(keys * share == n * share + left * share && 0 <= n * share && 0 <= left * share)
        by (nonlinear_arith)
        requires
            keys == left + n,
            0 <= left,
            0 <= n,
            0 <= share,
    ;
    if share > 0 && left > 0 {
        assert(left * share > 0) by (nonlinear_arith)
            requires
                left > 0,
                share > 0,
        ;
        lemma_key_value(m, before, projected, heads, share, left, n, 0, 0, 0);
        assert(heads * keys * share == heads * (keys * share)) by (nonlinear_arith);
        assert forall|h: int| 0 <= h < heads implies (#[trigger] part(h)).len() == left * share by {
            lemma_part_bounds(h, heads, keys * share);
        }
        lemma_joined_at(heads, part, left * share, 0, 0);
    }
    assert forall|head: int, k: int, d: int|
        0 <= head < num_heads && 0 <= k < left && 0 <= d < share implies last[head * (left * share)
        + (k * share + d)] == #[trigger] key_value(
        m,
        before,
        projected,
        hidden,
        share,
        left,
        frames as int,
        head,
        frames + k,
        d,
    ) by {
        lemma_key_value(m, before, projected, heads, share, left, n, head, n + k, d);
        lemma_inside(k, left, share, d, 1);
        assert(heads * keys * share == heads * (keys * share)) by (nonlinear_arith);
        lemma_part_bounds(head, heads, keys * share);
        assert forall|h: int| 0 <= h < heads implies (#[trigger] part(h)).len() == left * share by {
            lemma_part_bounds(h, heads, keys * share);
        }
        lemma_joined_at(heads, part, left * share, head, k * share + d);
        assert((head * keys + (n + k)) * share + d == head * (keys * share) + n * share + (k * share
            + d)) by (nonlinear_arith);
    }
    (projected, gated)
}

} // verus!
