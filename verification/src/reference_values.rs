//! What attention gathers, on the host.

use vstd::prelude::*;
use vstd::string::StringExecFns;
use crate::bits::ZERO_BITS;
use crate::decoder::text_outcome;
use crate::encoder_weights::{XasrLinearPairWeights, XasrNonlinAttentionWeights};
use crate::float_ops;
use crate::float_ops::{mul_add, mul_add_of, FloatModel, FloatOps};
use crate::reference_conv::{grid, lemma_grid_at, lemma_is_grid};
use crate::reference_conv_module::{cache_or_zeros, copy_cache};
use crate::reference_rows::{
    apply_linear_to_rows, frame_rows_refusal, lemma_index, lemma_split, linear_rows, push_all,
    validate_frame_rows,
};
use crate::rows;
use crate::rows::{joined, part_of};
use crate::text;
use crate::text::decimal;

verus! {

/// What a value projection gives.
#[derive(Clone, Debug, PartialEq)]
pub struct XasrValueProjectionReferenceOutput {
    /// One row for each frame.
    pub rows: Vec<u32>,
    /// The values of the last frames.
    pub new_cache: Vec<u32>,
}

/// What a value projection gives.
pub struct ProjectedValues {
    pub rows: Seq<u32>,
    pub cache: Seq<u32>,
}

/// Why attention weights are refused.
pub open spec fn attention_len_refusal(
    len: int,
    num_heads: usize,
    frames: usize,
    k_len: usize,
) -> Option<Seq<char>> {
    if len != num_heads * frames * k_len {
        Some(
            "xasr attention weights have "@ + decimal(len as nat) + " values, expected "@ + decimal(
                (num_heads * frames * k_len) as nat,
            ),
        )
    } else {
        None
    }
}

/// Checks that there is a weight for each frame and key of each head.
pub fn validate_attention_weights(
    attn_weights: &[u32],
    num_heads: usize,
    frames: usize,
    k_len: usize,
) -> (result: Result<(), String>)
    requires
        num_heads * frames <= usize::MAX,
        num_heads * frames * k_len <= usize::MAX,
    ensures
        text_outcome(
            result,
            attention_len_refusal(attn_weights@.len() as int, num_heads, frames, k_len),
        ),
{
    let expected = num_heads * frames * k_len;
    if attn_weights.len() != expected {
        let mut reason = text::copy_text("xasr attention weights have ");
        text::push_number(&mut reason, attn_weights.len());
        reason.append(" values, expected ");
        text::push_number(&mut reason, expected);
        return Err(reason);
    }
    Ok(())
}

/// The weighted sum of element `d` of the first `n` values of a head, for row
/// `r` of the weights.
pub open spec fn weighted_sum(
    m: FloatModel,
    weights: Seq<u32>,
    values: Seq<u32>,
    frames: int,
    k_len: int,
    head_dim: int,
    r: int,
    d: int,
    n: int,
) -> u32
    decreases n,
{
    if n <= 0 {
        ZERO_BITS
    } else {
        mul_add_of(
            m,
            weighted_sum(m, weights, values, frames, k_len, head_dim, r, d, n - 1),
            weights[r * k_len + (n - 1)],
            values[((r / frames) * k_len + (n - 1)) * head_dim + d],
        )
    }
}

/// The weighted sums of all frames of all heads.
pub open spec fn weighted_values(
    m: FloatModel,
    weights: Seq<u32>,
    values: Seq<u32>,
    num_heads: int,
    frames: int,
    k_len: int,
    head_dim: int,
) -> Seq<u32> {
    grid(
        num_heads * frames,
        head_dim,
        |r: int, d: int| weighted_sum(m, weights, values, frames, k_len, head_dim, r, d, k_len),
    )
}

/// Why values are not gathered.
pub open spec fn weighted_refusal(
    len: int,
    values_len: int,
    num_heads: usize,
    frames: usize,
    k_len: usize,
    head_dim: usize,
) -> Option<Seq<char>> {
    if attention_len_refusal(len, num_heads, frames, k_len) is Some {
        attention_len_refusal(len, num_heads, frames, k_len)
    } else if values_len != num_heads * k_len * head_dim {
        Some(
            "xasr attention values have "@ + decimal(values_len as nat) + " values, expected "@
                + decimal((num_heads * k_len * head_dim) as nat),
        )
    } else {
        None
    }
}

#[verifier::spinoff_prover]
fn sum_weighted<O: FloatOps>(
    ops: &O,
    attn_weights: &[u32],
    values: &[u32],
    num_heads: usize,
    frames: usize,
    k_len: usize,
    head_dim: usize,
    row: usize,
    d: usize,
) -> (sum: u32)
    requires
        frames > 0,
        row < num_heads * frames,
        d < head_dim,
        attn_weights@.len() == num_heads * frames * k_len,
        values@.len() == num_heads * k_len * head_dim,
    ensures
        float_ops::functional(ops) ==> sum == weighted_sum(
            float_ops::model(ops),
            attn_weights@,
            values@,
            frames as int,
            k_len as int,
            head_dim as int,
            row as int,
            d as int,
            k_len as int,
        ),
{
    proof {
        vstd::arithmetic::div_mod::lemma_fundamental_div_mod(row as int, frames as int);
        assert(row / frames < num_heads) by (nonlinear_arith)
            requires
                row == frames * (row / frames) + row % frames,
                0 <= row % frames,
                row < num_heads * frames,
                frames > 0,
        ;
    }
    let head = row / frames;
    let mut sum = ZERO_BITS;
    let mut source: usize = 0;
    assert(attn_weights.len() == attn_weights@.len() && values.len() == values@.len());
    while source < k_len
        invariant
            source <= k_len,
            head == row / frames,
            head < num_heads,
            row < num_heads * frames,
            d < head_dim,
            attn_weights@.len() == num_heads * frames * k_len <= usize::MAX,
            values@.len() == num_heads * k_len * head_dim <= usize::MAX,
            float_ops::functional(ops) ==> sum == weighted_sum(
                float_ops::model(ops),
                attn_weights@,
                values@,
                frames as int,
                k_len as int,
                head_dim as int,
                row as int,
                d as int,
                source as int,
            ),
        decreases k_len - source,
    {
        let ghost place = head * k_len + source;
        proof {
            lemma_index(row as int, num_heads * frames, source as int, k_len as int);
            lemma_index(head as int, num_heads as int, source as int, k_len as int);
            lemma_index(place, num_heads * k_len, d as int, head_dim as int);
            assert(place <= place * head_dim) by (nonlinear_arith)
                requires
                    0 <= place,
                    1 <= head_dim,
            ;
        }
        let index = (head * k_len + source) * head_dim + d;
        sum = mul_add(ops, sum, attn_weights[row * k_len + source], values[index]);
        source = source + 1;
    }
    sum
}

/// Gathers values by their weights.
#[verifier::spinoff_prover]
pub fn attention_weighted_values<O: FloatOps>(
    ops: &O,
    attn_weights: &[u32],
    values: &[u32],
    num_heads: usize,
    frames: usize,
    k_len: usize,
    head_dim: usize,
) -> (result: Result<Vec<u32>, String>)
    requires
        num_heads * frames <= usize::MAX,
        num_heads * frames * k_len <= usize::MAX,
        num_heads * k_len <= usize::MAX,
        num_heads * k_len * head_dim <= usize::MAX,
    ensures
        text_outcome(
            result,
            weighted_refusal(
                attn_weights@.len() as int,
                values@.len() as int,
                num_heads,
                frames,
                k_len,
                head_dim,
            ),
        ),
        result is Ok ==> result->Ok_0@.len() == num_heads * frames * head_dim,
        result is Ok && float_ops::functional(ops) ==> result->Ok_0@ == weighted_values(
            float_ops::model(ops),
            attn_weights@,
            values@,
            num_heads as int,
            frames as int,
            k_len as int,
            head_dim as int,
        ),
{
    match validate_attention_weights(attn_weights, num_heads, frames, k_len) {
        Ok(_) => {},
        Err(reason) => return Err(reason),
    }
    let expected = num_heads * k_len * head_dim;
    if values.len() != expected {
        let mut reason = text::copy_text("xasr attention values have ");
        text::push_number(&mut reason, values.len());
        reason.append(" values, expected ");
        text::push_number(&mut reason, expected);
        return Err(reason);
    }
    let ghost m = float_ops::model(ops);
    let ghost at = |r: int, d: int|
        weighted_sum(
            m,
            attn_weights@,
            values@,
            frames as int,
            k_len as int,
            head_dim as int,
            r,
            d,
            k_len as int,
        );
    let count = num_heads * frames;
    let mut output: Vec<u32> = Vec::new();
    let mut row: usize = 0;
    assert(0 * head_dim == 0) by (nonlinear_arith);
    while row < count
        invariant
            row <= count,
            count == num_heads * frames,
            m == float_ops::model(ops),
            at == (|r: int, d: int|
                weighted_sum(
                    m,
                    attn_weights@,
                    values@,
                    frames as int,
                    k_len as int,
                    head_dim as int,
                    r,
                    d,
                    k_len as int,
                )),
            attn_weights@.len() == num_heads * frames * k_len,
            values@.len() == num_heads * k_len * head_dim,
            output@.len() == row * head_dim,
            float_ops::functional(ops) ==> forall|i: int|
                0 <= i < row * head_dim ==> #[trigger] output@[i] == at(
                    i / head_dim as int,
                    i % head_dim as int,
                ),
        decreases count - row,
    {
        proof {
            assert(frames > 0) by (nonlinear_arith)
                requires
                    0 <= row < num_heads * frames,
                    0 <= frames,
            ;
            assert(row * head_dim + head_dim == (row + 1) * head_dim) by (nonlinear_arith);
        }
        let mut d: usize = 0;
        while d < head_dim
            invariant
                d <= head_dim,
                row < count,
                frames > 0,
                count == num_heads * frames,
                m == float_ops::model(ops),
                at == (|r: int, d: int|
                    weighted_sum(
                        m,
                        attn_weights@,
                        values@,
                        frames as int,
                        k_len as int,
                        head_dim as int,
                        r,
                        d,
                        k_len as int,
                    )),
                attn_weights@.len() == num_heads * frames * k_len,
                values@.len() == num_heads * k_len * head_dim,
                output@.len() == row * head_dim + d,
                float_ops::functional(ops) ==> forall|i: int|
                    0 <= i < row * head_dim + d ==> #[trigger] output@[i] == at(
                        i / head_dim as int,
                        i % head_dim as int,
                    ),
            decreases head_dim - d,
        {
            let sum = sum_weighted(
                ops,
                attn_weights,
                values,
                num_heads,
                frames,
                k_len,
                head_dim,
                row,
                d,
            );
            proof {
                lemma_index(row as int, count as int, d as int, head_dim as int);
            }
            output.push(sum);
            d = d + 1;
        }
        row = row + 1;
    }
    proof {
        if float_ops::functional(ops) {
            lemma_is_grid(output@, count as int, head_dim as int, at);
        }
    }
    Ok(output)
}

/// Rows of all heads, head by head.
pub open spec fn by_head(flat: Seq<u32>, num_heads: int, count: int, head_dim: int) -> Seq<u32> {
    grid(
        num_heads * count,
        head_dim,
        |r: int, d: int| flat[(r % count) * (num_heads * head_dim) + (r / count) * head_dim + d],
    )
}

/// Rows of one head after the other, joined frame by frame.
pub open spec fn by_frame(heads: Seq<u32>, num_heads: int, count: int, head_dim: int) -> Seq<u32> {
    grid(
        count,
        num_heads * head_dim,
        |t: int, c: int| heads[((c / head_dim) * count + t) * head_dim + c % head_dim],
    )
}

/// Position of element `d` of head `h` in row `t`.
proof fn lemma_head_index(t: int, count: int, h: int, num_heads: int, d: int, head_dim: int)
    requires
        0 <= t < count,
        0 <= h < num_heads,
        0 <= d < head_dim,
    ensures
        0 <= h * head_dim,
        h * head_dim + d < num_heads * head_dim,
        0 <= t * (num_heads * head_dim),
        t * (num_heads * head_dim) + h * head_dim + d < count * (num_heads * head_dim),
        0 <= h * count + t < num_heads * count,
        0 <= (h * count + t) * head_dim,
        (h * count + t) * head_dim + d < num_heads * count * head_dim,
        h * count + t <= (h * count + t) * head_dim,
{
    lemma_index(h, num_heads, d, head_dim);
    lemma_index(t, count, h * head_dim + d, num_heads * head_dim);
    lemma_index(h, num_heads, t, count);
    lemma_index(h * count + t, num_heads * count, d, head_dim);
    let place = h * count + t;
    assert(place <= place * head_dim) by (nonlinear_arith)
        requires
            0 <= place,
            1 <= head_dim,
    ;
}

/// Splits rows into heads.
#[verifier::spinoff_prover]
fn split_heads(flat: &[u32], num_heads: usize, count: usize, head_dim: usize) -> (heads: Vec<u32>)
    requires
        flat@.len() == count * (num_heads * head_dim),
        num_heads * count <= usize::MAX,
    ensures
        heads@ == by_head(flat@, num_heads as int, count as int, head_dim as int),
        heads@.len() == num_heads * count * head_dim,
{
    let ghost at = |r: int, d: int|
        flat@[(r % (count as int)) * (num_heads * head_dim) + (r / (count as int)) * head_dim + d];
    let total = num_heads * count;
    let mut output: Vec<u32> = Vec::new();
    let mut row: usize = 0;
    assert(0 * head_dim == 0) by (nonlinear_arith);
    assert(flat.len() == flat@.len());
    while row < total
        invariant
            row <= total,
            total == num_heads * count,
            flat@.len() == count * (num_heads * head_dim) <= usize::MAX,
            at == (|r: int, d: int|
                flat@[(r % (count as int)) * (num_heads * head_dim) + (r / (count as int))
                    * head_dim + d]),
            output@.len() == row * head_dim,
            forall|i: int|
                0 <= i < row * head_dim ==> #[trigger] output@[i] == at(
                    i / head_dim as int,
                    i % head_dim as int,
                ),
        decreases total - row,
    {
        proof {
            lemma_split(row as int, num_heads as int, count as int);
            assert(row * head_dim + head_dim == (row + 1) * head_dim) by (nonlinear_arith);
        }
        let head = row / count;
        let t = row % count;
        let mut d: usize = 0;
        while d < head_dim
            invariant
                d <= head_dim,
                row < total,
                total == num_heads * count,
                head == row / count,
                t == row % count,
                head < num_heads,
                t < count,
                flat@.len() == count * (num_heads * head_dim) <= usize::MAX,
                at == (|r: int, d: int|
                    flat@[(r % (count as int)) * (num_heads * head_dim) + (r / (count as int))
                        * head_dim + d]),
                output@.len() == row * head_dim + d,
                forall|i: int|
                    0 <= i < row * head_dim + d ==> #[trigger] output@[i] == at(
                        i / head_dim as int,
                        i % head_dim as int,
                    ),
            decreases head_dim - d,
        {
            proof {
                lemma_head_index(
                    t as int,
                    count as int,
                    head as int,
                    num_heads as int,
                    d as int,
                    head_dim as int,
                );
                lemma_index(row as int, total as int, d as int, head_dim as int);
                let width = num_heads * head_dim;
                assert(width <= count * width) by (nonlinear_arith)
                    requires
                        1 <= count,
                        0 <= width,
                ;
            }
            let index = t * (num_heads * head_dim) + head * head_dim + d;
            output.push(flat[index]);
            d = d + 1;
        }
        row = row + 1;
    }
    proof {
        lemma_is_grid(output@, total as int, head_dim as int, at);
    }
    output
}

/// Joins heads into rows.
#[verifier::spinoff_prover]
fn join_heads(heads: &[u32], num_heads: usize, count: usize, head_dim: usize) -> (flat: Vec<u32>)
    requires
        heads@.len() == num_heads * count * head_dim,
        num_heads * head_dim <= usize::MAX,
    ensures
        flat@ == by_frame(heads@, num_heads as int, count as int, head_dim as int),
        flat@.len() == count * (num_heads * head_dim),
{
    let ghost at = |t: int, c: int|
        heads@[((c / (head_dim as int)) * count + t) * head_dim + c % (head_dim as int)];
    let width = num_heads * head_dim;
    let mut output: Vec<u32> = Vec::new();
    let mut t: usize = 0;
    assert(0 * width == 0) by (nonlinear_arith);
    assert(heads.len() == heads@.len());
    while t < count
        invariant
            t <= count,
            width == num_heads * head_dim,
            heads@.len() == num_heads * count * head_dim <= usize::MAX,
            at == (|t: int, c: int|
                heads@[((c / (head_dim as int)) * count + t) * head_dim + c % (head_dim as int)]),
            output@.len() == t * width,
            forall|i: int|
                0 <= i < t * width ==> #[trigger] output@[i] == at(
                    i / width as int,
                    i % width as int,
                ),
        decreases count - t,
    {
        assert(t * width + width == (t + 1) * width) by (nonlinear_arith);
        let mut c: usize = 0;
        while c < width
            invariant
                c <= width,
                t < count,
                width == num_heads * head_dim,
                heads@.len() == num_heads * count * head_dim <= usize::MAX,
                at == (|t: int, c: int|
                    heads@[((c / (head_dim as int)) * count + t) * head_dim + c % (
                    head_dim as int)]),
                output@.len() == t * width + c,
                forall|i: int|
                    0 <= i < t * width + c ==> #[trigger] output@[i] == at(
                        i / width as int,
                        i % width as int,
                    ),
            decreases width - c,
        {
            proof {
                lemma_split(c as int, num_heads as int, head_dim as int);
                lemma_head_index(
                    t as int,
                    count as int,
                    c as int / head_dim as int,
                    num_heads as int,
                    c as int % head_dim as int,
                    head_dim as int,
                );
                lemma_index(t as int, count as int, c as int, width as int);
                lemma_index(
                    c as int / head_dim as int,
                    num_heads as int,
                    t as int,
                    count as int,
                );
            }
            let index = ((c / head_dim) * count + t) * head_dim + c % head_dim;
            output.push(heads[index]);
            c = c + 1;
        }
        t = t + 1;
    }
    proof {
        lemma_is_grid(output@, count as int, width as int, at);
    }
    output
}

/// Splitting rows into heads and joining them gives the rows back.
pub proof fn law_joining_heads_undoes_splitting(
    flat: Seq<u32>,
    num_heads: int,
    count: int,
    head_dim: int,
)
    requires
        0 <= num_heads,
        0 <= count,
        0 <= head_dim,
        flat.len() == count * (num_heads * head_dim),
    ensures
        by_frame(by_head(flat, num_heads, count, head_dim), num_heads, count, head_dim) == flat,
{
    let width = num_heads * head_dim;
    assert(0 <= width) by (nonlinear_arith)
        requires
            0 <= num_heads,
            0 <= head_dim,
            width == num_heads * head_dim,
    ;
    let heads = by_head(flat, num_heads, count, head_dim);
    let at_head = |r: int, d: int|
        flat[(r % count) * (num_heads * head_dim) + (r / count) * head_dim + d];
    let at = |t: int, c: int| heads[((c / head_dim) * count + t) * head_dim + c % head_dim];
    assert forall|i: int| 0 <= i < count * width implies #[trigger] flat[i] == at(
        i / width,
        i % width,
    ) by {
        lemma_split(i, count, width);
        let t = i / width;
        let c = i % width;
        lemma_split(c, num_heads, head_dim);
        let h = c / head_dim;
        let d = c % head_dim;
        lemma_head_index(t, count, h, num_heads, d, head_dim);
        lemma_index(h, num_heads, t, count);
        lemma_grid_at(
            num_heads * count,
            head_dim,
            at_head,
            h * count + t,
            d,
        );
        assert(heads == grid(num_heads * count, head_dim, at_head));
        assert(at_head(h * count + t, d) == flat[t * width + h * head_dim + d]);
    }
    lemma_is_grid(flat, count, width, at);
}

/// Why a value projection is refused before anything is computed.
pub open spec fn self_attention_refusal(
    weights: XasrLinearPairWeights,
    len: int,
    attention_len: int,
    frames: usize,
    dim: usize,
    num_heads: usize,
    left_context_len: usize,
) -> Option<Seq<char>> {
    let value_dim = weights.in_proj.weight.output_dim;
    let k_len = (left_context_len + frames) as usize;
    if frame_rows_refusal(len, frames, dim, "self attention input"@) is Some {
        frame_rows_refusal(len, frames, dim, "self attention input"@)
    } else if num_heads == 0 || value_dim % num_heads != 0 {
        Some(
            "xasr self attention value dim "@ + decimal(value_dim as nat)
                + " not divisible by heads "@ + decimal(num_heads as nat),
        )
    } else {
        attention_len_refusal(attention_len, num_heads, frames, k_len)
    }
}

/// Why a cache of values is refused.
pub open spec fn value_cache_refusal(cache: Option<Seq<u32>>, expected: int) -> Option<Seq<char>> {
    if cache is Some && cache->0.len() != expected {
        Some(
            "xasr self attention cache has "@ + decimal(cache->0.len()) + " values, expected "@
                + decimal(expected as nat),
        )
    } else {
        None
    }
}

/// What a value projection gives, or why it fails.
pub open spec fn self_attention_values(
    m: FloatModel,
    weights: XasrLinearPairWeights,
    rows: Seq<u32>,
    attention: Seq<u32>,
    frames: usize,
    dim: usize,
    num_heads: usize,
    left_context_len: usize,
    cached_val: Option<Seq<u32>>,
) -> Result<ProjectedValues, Seq<char>> {
    let refusal = self_attention_refusal(
        weights,
        rows.len() as int,
        attention.len() as int,
        frames,
        dim,
        num_heads,
        left_context_len,
    );
    let value_dim = weights.in_proj.weight.output_dim as int;
    let head_dim = value_dim / num_heads as int;
    let k_len = left_context_len + frames;
    let cache_len = left_context_len * value_dim;
    if refusal is Some {
        Err(refusal->0)
    } else {
        match linear_rows(m, weights.in_proj, rows, frames, dim) {
            Err(reason) => Err(reason),
            Ok(current) => if value_cache_refusal(cached_val, cache_len) is Some {
                Err(value_cache_refusal(cached_val, cache_len)->0)
            } else {
                let flat = cache_or_zeros(cached_val, cache_len) + current;
                let attended = by_frame(
                    weighted_values(
                        m,
                        attention,
                        by_head(flat, num_heads as int, k_len, head_dim),
                        num_heads as int,
                        frames as int,
                        k_len,
                        head_dim,
                    ),
                    num_heads as int,
                    frames as int,
                    head_dim,
                );
                match linear_rows(m, weights.out_proj, attended, frames, value_dim as usize) {
                    Err(reason) => Err(reason),
                    Ok(out) => Ok(
                        ProjectedValues {
                            rows: out,
                            cache: flat.subrange(frames * value_dim, k_len * value_dim),
                        },
                    ),
                }
            },
        }
    }
}

/// A value projection can run: its sizes can be counted.
pub open spec fn values_can_run(
    value_dim: usize,
    frames: usize,
    dim: usize,
    num_heads: usize,
    left_context_len: usize,
) -> bool {
    let k_len = left_context_len + frames;
    &&& frames * dim <= usize::MAX
    &&& value_dim > 0
    &&& k_len <= usize::MAX
    &&& num_heads * frames <= usize::MAX
    &&& num_heads * frames * k_len <= usize::MAX
    &&& num_heads * k_len <= usize::MAX
    &&& k_len * value_dim <= usize::MAX
}

/// Gathers the values of all frames by their attention.
#[verifier::spinoff_prover]
#[verifier::rlimit(40)]
pub fn self_attention_streaming_reference<O: FloatOps>(
    ops: &O,
    weights: &XasrLinearPairWeights,
    rows: &[u32],
    attn_weights: &[u32],
    frames: usize,
    dim: usize,
    num_heads: usize,
    left_context_len: usize,
    cached_val: Option<&[u32]>,
) -> (result: Result<XasrValueProjectionReferenceOutput, String>)
    requires
        float_ops::sized(ops),
        dim > 0 || rows@.len() > 0,
        values_can_run(
            weights.in_proj.weight.output_dim,
            frames,
            dim,
            num_heads,
            left_context_len,
        ),
    ensures
        self_attention_refusal(
            *weights,
            rows@.len() as int,
            attn_weights@.len() as int,
            frames,
            dim,
            num_heads,
            left_context_len,
        ) is Some ==> text_outcome(
            result,
            self_attention_refusal(
                *weights,
                rows@.len() as int,
                attn_weights@.len() as int,
                frames,
                dim,
                num_heads,
                left_context_len,
            ),
        ),
        result is Ok ==> {
            &&& result->Ok_0.rows@.len() == frames * weights.out_proj.weight.output_dim
            &&& result->Ok_0.new_cache@.len() == left_context_len
                * weights.in_proj.weight.output_dim
        },
        float_ops::functional(ops) ==> match self_attention_values(
            float_ops::model(ops),
            *weights,
            rows@,
            attn_weights@,
            frames,
            dim,
            num_heads,
            left_context_len,
            float_ops::option_view(cached_val),
        ) {
            Ok(values) => {
                &&& result is Ok
                &&& result->Ok_0.rows@ == values.rows
                &&& result->Ok_0.new_cache@ == values.cache
            },
            Err(reason) => result is Err && result->Err_0@ == reason,
        },
{
    match validate_frame_rows(rows, frames, dim, "self attention input") {
        Ok(_) => {},
        Err(reason) => return Err(reason),
    }
    let value_dim = weights.in_proj.weight.output_dim;
    if num_heads == 0 || value_dim % num_heads != 0 {
        let mut reason = text::copy_text("xasr self attention value dim ");
        text::push_number(&mut reason, value_dim);
        reason.append(" not divisible by heads ");
        text::push_number(&mut reason, num_heads);
        return Err(reason);
    }
    let head_dim = value_dim / num_heads;
    let k_len = left_context_len + frames;
    match validate_attention_weights(attn_weights, num_heads, frames, k_len) {
        Ok(_) => {},
        Err(reason) => return Err(reason),
    }
    let current = apply_linear_to_rows(ops, &weights.in_proj, rows, frames, dim)?;
    proof {
        lemma_head_sizes(
            num_heads as int,
            value_dim as int,
            left_context_len as int,
            frames as int,
        );
    }
    let cache_len = left_context_len * value_dim;
    match cached_val {
        Some(cache) => {
            if cache.len() != cache_len {
                let mut reason = text::copy_text("xasr self attention cache has ");
                text::push_number(&mut reason, cache.len());
                reason.append(" values, expected ");
                text::push_number(&mut reason, cache_len);
                return Err(reason);
            }
        },
        None => {},
    }
    let mut flat = copy_cache(cached_val, cache_len);
    push_all(&mut flat, current.as_slice());
    let values = split_heads(flat.as_slice(), num_heads, k_len, head_dim);
    let taken = vstd::slice::slice_subrange(
        flat.as_slice(),
        frames * value_dim,
        k_len * value_dim,
    );
    let mut new_cache: Vec<u32> = Vec::new();
    push_all(&mut new_cache, taken);
    assert(new_cache@ =~= taken@);
    let attended = attention_weighted_values(
        ops,
        attn_weights,
        values.as_slice(),
        num_heads,
        frames,
        k_len,
        head_dim,
    )?;
    let attended_rows = join_heads(attended.as_slice(), num_heads, frames, head_dim);
    let output = apply_linear_to_rows(
        ops,
        &weights.out_proj,
        attended_rows.as_slice(),
        frames,
        value_dim,
    )?;
    Ok(XasrValueProjectionReferenceOutput { rows: output, new_cache })
}

/// Heads that fill a width evenly.
proof fn lemma_head_sizes(num_heads: int, width: int, left: int, frames: int)
    requires
        0 < num_heads,
        0 <= width,
        width % num_heads == 0,
        0 <= left,
        0 <= frames,
    ensures
        num_heads * (width / num_heads) == width,
        0 <= width / num_heads,
        (left + frames) * width == left * width + frames * width,
        0 <= left * width,
        0 <= frames * width,
        frames * width <= (left + frames) * width,
        num_heads * (left + frames) * (width / num_heads) == (left + frames) * width,
        num_heads * frames * (width / num_heads) == frames * width,
{
    vstd::arithmetic::div_mod::lemma_fundamental_div_mod(width, num_heads);
    vstd::arithmetic::div_mod::lemma_div_pos_is_pos(width, num_heads);
    let head_dim = width / num_heads;
    assert((left + frames) * width == left * width + frames * width && 0 <= left * width && 0
        <= frames * width) by (nonlinear_arith)
        requires
            0 <= left,
            0 <= frames,
            0 <= width,
    ;
    let k_len = left + frames;
    assert(num_heads * k_len * head_dim == k_len * width && num_heads * frames * head_dim == frames
        * width) by (nonlinear_arith)
        requires
            num_heads * head_dim == width,
    ;
}

/// Why a nonlinear attention is refused before anything is computed.
pub open spec fn nonlin_refusal(
    weights: XasrNonlinAttentionWeights,
    len: int,
    attention_len: int,
    frames: usize,
    dim: usize,
    num_heads: usize,
    left_context_len: usize,
) -> Option<Seq<char>> {
    let hidden_dim = weights.out_proj.weight.input_dim;
    let k_len = (left_context_len + frames) as usize;
    if frame_rows_refusal(len, frames, dim, "nonlin attention input"@) is Some {
        frame_rows_refusal(len, frames, dim, "nonlin attention input"@)
    } else if weights.in_proj.weight.output_dim != 3 * hidden_dim {
        Some(
            "xasr nonlin attention in_proj output dim "@ + decimal(
                weights.in_proj.weight.output_dim as nat,
            ) + ", expected "@ + decimal((3 * hidden_dim) as nat),
        )
    } else if num_heads == 0 || hidden_dim % num_heads != 0 {
        Some(
            "xasr nonlin attention hidden dim "@ + decimal(hidden_dim as nat)
                + " not divisible by heads "@ + decimal(num_heads as nat),
        )
    } else {
        attention_len_refusal(attention_len, num_heads, frames, k_len)
    }
}

/// Why a cache of a nonlinear attention is refused.
pub open spec fn nonlin_cache_refusal(cache: Option<Seq<u32>>, expected: int) -> Option<Seq<char>> {
    if cache is Some && cache->0.len() != expected {
        Some(
            "xasr nonlin attention cache has "@ + decimal(cache->0.len()) + " values, expected "@
                + decimal(expected as nat),
        )
    } else {
        None
    }
}

/// The second part of each projected row, each value times the hyperbolic
/// tangent of that of the first.
pub open spec fn tanh_gated(
    m: FloatModel,
    projected: Seq<u32>,
    frames: int,
    hidden_dim: int,
) -> Seq<u32> {
    grid(
        frames,
        hidden_dim,
        |t: int, i: int|
            (m.mul)(
                projected[t * (3 * hidden_dim) + hidden_dim + i],
                (m.tanh)(projected[t * (3 * hidden_dim) + i]),
            ),
    )
}

/// The values of each head: those of the cache in front, and those of the
/// frames behind the left context.
pub open spec fn padded_heads(
    cached: Seq<u32>,
    gated: Seq<u32>,
    num_heads: int,
    left_context_len: int,
    frames: int,
    head_dim: int,
) -> Seq<u32> {
    let k_len = left_context_len + frames;
    grid(
        num_heads * k_len,
        head_dim,
        |r: int, d: int|
            if r % k_len >= left_context_len {
                gated[(r % k_len - left_context_len) * (num_heads * head_dim) + (r / k_len)
                    * head_dim + d]
            } else if r * head_dim + d < cached.len() {
                cached[r * head_dim + d]
            } else {
                ZERO_BITS
            },
    )
}

/// The last values of each head.
pub open spec fn last_of_heads(
    padded: Seq<u32>,
    num_heads: int,
    left_context_len: int,
    frames: int,
    head_dim: int,
) -> Seq<u32> {
    let k_len = left_context_len + frames;
    joined(
        num_heads,
        |h: int|
            part_of(padded, k_len * head_dim, h).subrange(frames * head_dim, k_len * head_dim),
    )
}

/// Each value times the third part of its projected row.
pub open spec fn times_third(
    m: FloatModel,
    attended: Seq<u32>,
    projected: Seq<u32>,
    frames: int,
    hidden_dim: int,
) -> Seq<u32> {
    grid(
        frames,
        hidden_dim,
        |t: int, i: int|
            (m.mul)(
                attended[t * hidden_dim + i],
                projected[t * (3 * hidden_dim) + 2 * hidden_dim + i],
            ),
    )
}

/// What a nonlinear attention gives, or why it fails.
pub open spec fn nonlin_values(
    m: FloatModel,
    weights: XasrNonlinAttentionWeights,
    rows: Seq<u32>,
    attention: Seq<u32>,
    frames: usize,
    dim: usize,
    num_heads: usize,
    left_context_len: usize,
    cached_x: Option<Seq<u32>>,
) -> Result<ProjectedValues, Seq<char>> {
    let refusal = nonlin_refusal(
        weights,
        rows.len() as int,
        attention.len() as int,
        frames,
        dim,
        num_heads,
        left_context_len,
    );
    let hidden_dim = weights.out_proj.weight.input_dim as int;
    let heads = num_heads as int;
    let head_dim = hidden_dim / heads;
    let left = left_context_len as int;
    let k_len = left + frames;
    let cache_len = heads * left * head_dim;
    if refusal is Some {
        Err(refusal->0)
    } else {
        match linear_rows(m, weights.in_proj, rows, frames, dim) {
            Err(reason) => Err(reason),
            Ok(projected) => if nonlin_cache_refusal(cached_x, cache_len) is Some {
                Err(nonlin_cache_refusal(cached_x, cache_len)->0)
            } else {
                let padded = padded_heads(
                    cache_or_zeros(cached_x, cache_len),
                    tanh_gated(m, projected, frames as int, hidden_dim),
                    heads,
                    left,
                    frames as int,
                    head_dim,
                );
                let attended = by_frame(
                    weighted_values(m, attention, padded, heads, frames as int, k_len, head_dim),
                    heads,
                    frames as int,
                    head_dim,
                );
                match linear_rows(
                    m,
                    weights.out_proj,
                    times_third(m, attended, projected, frames as int, hidden_dim),
                    frames,
                    hidden_dim as usize,
                ) {
                    Err(reason) => Err(reason),
                    Ok(out) => Ok(
                        ProjectedValues {
                            rows: out,
                            cache: last_of_heads(padded, heads, left, frames as int, head_dim),
                        },
                    ),
                }
            },
        }
    }
}

#[verifier::spinoff_prover]
fn gate_by_tanh<O: FloatOps>(
    ops: &O,
    projected: &[u32],
    frames: usize,
    hidden_dim: usize,
) -> (gated: Vec<u32>)
    requires
        3 * hidden_dim <= usize::MAX,
        projected@.len() == frames * (3 * hidden_dim),
    ensures
        gated@.len() == frames * hidden_dim,
        float_ops::functional(ops) ==> gated@ == tanh_gated(
            float_ops::model(ops),
            projected@,
            frames as int,
            hidden_dim as int,
        ),
{
    let ghost m = float_ops::model(ops);
    let ghost at = |t: int, i: int|
        (m.mul)(
            projected@[t * (3 * hidden_dim) + hidden_dim + i],
            (m.tanh)(projected@[t * (3 * hidden_dim) + i]),
        );
    let width = 3 * hidden_dim;
    let mut output: Vec<u32> = Vec::new();
    let mut t: usize = 0;
    assert(0 * hidden_dim == 0) by (nonlinear_arith);
    assert(projected.len() == projected@.len());
    while t < frames
        invariant
            t <= frames,
            width == 3 * hidden_dim,
            projected@.len() == frames * width <= usize::MAX,
            m == float_ops::model(ops),
            at == (|t: int, i: int|
                (m.mul)(
                    projected@[t * (3 * hidden_dim) + hidden_dim + i],
                    (m.tanh)(projected@[t * (3 * hidden_dim) + i]),
                )),
            output@.len() == t * hidden_dim,
            float_ops::functional(ops) ==> forall|i: int|
                0 <= i < t * hidden_dim ==> #[trigger] output@[i] == at(
                    i / hidden_dim as int,
                    i % hidden_dim as int,
                ),
        decreases frames - t,
    {
        proof {
            rows::lemma_part_bounds(t as int, frames as int, width as int);
            assert(t * hidden_dim + hidden_dim == (t + 1) * hidden_dim) by (nonlinear_arith);
        }
        let base = t * width;
        let mut i: usize = 0;
        while i < hidden_dim
            invariant
                i <= hidden_dim,
                t < frames,
                width == 3 * hidden_dim,
                base == t * width,
                base + width <= projected@.len() <= usize::MAX,
                m == float_ops::model(ops),
                at == (|t: int, i: int|
                    (m.mul)(
                        projected@[t * (3 * hidden_dim) + hidden_dim + i],
                        (m.tanh)(projected@[t * (3 * hidden_dim) + i]),
                    )),
                output@.len() == t * hidden_dim + i,
                float_ops::functional(ops) ==> forall|j: int|
                    0 <= j < t * hidden_dim + i ==> #[trigger] output@[j] == at(
                        j / hidden_dim as int,
                        j % hidden_dim as int,
                    ),
            decreases hidden_dim - i,
        {
            let s = ops.tanh(projected[base + i]);
            let value = ops.mul(projected[base + hidden_dim + i], s);
            proof {
                lemma_index(t as int, frames as int, i as int, hidden_dim as int);
            }
            output.push(value);
            i = i + 1;
        }
        t = t + 1;
    }
    proof {
        if float_ops::functional(ops) {
            lemma_is_grid(output@, frames as int, hidden_dim as int, at);
        }
    }
    output
}

#[verifier::spinoff_prover]
fn multiply_third<O: FloatOps>(
    ops: &O,
    attended: &[u32],
    projected: &[u32],
    frames: usize,
    hidden_dim: usize,
) -> (product: Vec<u32>)
    requires
        3 * hidden_dim <= usize::MAX,
        attended@.len() == frames * hidden_dim,
        projected@.len() == frames * (3 * hidden_dim),
    ensures
        product@.len() == frames * hidden_dim,
        float_ops::functional(ops) ==> product@ == times_third(
            float_ops::model(ops),
            attended@,
            projected@,
            frames as int,
            hidden_dim as int,
        ),
{
    let ghost m = float_ops::model(ops);
    let ghost at = |t: int, i: int|
        (m.mul)(
            attended@[t * hidden_dim + i],
            projected@[t * (3 * hidden_dim) + 2 * hidden_dim + i],
        );
    let width = 3 * hidden_dim;
    let mut output: Vec<u32> = Vec::new();
    let mut t: usize = 0;
    assert(0 * hidden_dim == 0) by (nonlinear_arith);
    assert(projected.len() == projected@.len() && attended.len() == attended@.len());
    while t < frames
        invariant
            t <= frames,
            width == 3 * hidden_dim,
            attended@.len() == frames * hidden_dim <= usize::MAX,
            projected@.len() == frames * width <= usize::MAX,
            m == float_ops::model(ops),
            at == (|t: int, i: int|
                (m.mul)(
                    attended@[t * hidden_dim + i],
                    projected@[t * (3 * hidden_dim) + 2 * hidden_dim + i],
                )),
            output@.len() == t * hidden_dim,
            float_ops::functional(ops) ==> forall|i: int|
                0 <= i < t * hidden_dim ==> #[trigger] output@[i] == at(
                    i / hidden_dim as int,
                    i % hidden_dim as int,
                ),
        decreases frames - t,
    {
        proof {
            rows::lemma_part_bounds(t as int, frames as int, width as int);
            rows::lemma_part_bounds(t as int, frames as int, hidden_dim as int);
        }
        let base = t * width;
        let mut i: usize = 0;
        while i < hidden_dim
            invariant
                i <= hidden_dim,
                t < frames,
                width == 3 * hidden_dim,
                base == t * width,
                base + width <= projected@.len() <= usize::MAX,
                attended@.len() == frames * hidden_dim <= usize::MAX,
                m == float_ops::model(ops),
                at == (|t: int, i: int|
                    (m.mul)(
                        attended@[t * hidden_dim + i],
                        projected@[t * (3 * hidden_dim) + 2 * hidden_dim + i],
                    )),
                output@.len() == t * hidden_dim + i,
                float_ops::functional(ops) ==> forall|j: int|
                    0 <= j < t * hidden_dim + i ==> #[trigger] output@[j] == at(
                        j / hidden_dim as int,
                        j % hidden_dim as int,
                    ),
            decreases hidden_dim - i,
        {
            proof {
                lemma_index(t as int, frames as int, i as int, hidden_dim as int);
            }
            let value = ops.mul(
                attended[t * hidden_dim + i],
                projected[base + 2 * hidden_dim + i],
            );
            output.push(value);
            i = i + 1;
        }
        t = t + 1;
    }
    proof {
        if float_ops::functional(ops) {
            lemma_is_grid(output@, frames as int, hidden_dim as int, at);
        }
    }
    output
}

/// Puts the cache in front of the values of each head.
#[verifier::spinoff_prover]
fn pad_heads(
    cached: &[u32],
    gated: &[u32],
    num_heads: usize,
    left_context_len: usize,
    frames: usize,
    head_dim: usize,
) -> (padded: Vec<u32>)
    requires
        left_context_len + frames <= usize::MAX,
        num_heads * (left_context_len + frames) <= usize::MAX,
        num_heads * (left_context_len + frames) * head_dim <= usize::MAX,
        gated@.len() == frames * (num_heads * head_dim),
    ensures
        padded@.len() == num_heads * (left_context_len + frames) * head_dim,
        padded@ == padded_heads(
            cached@,
            gated@,
            num_heads as int,
            left_context_len as int,
            frames as int,
            head_dim as int,
        ),
{
    let k_len = left_context_len + frames;
    let total = num_heads * k_len;
    let ghost count = k_len as int;
    let ghost at = |r: int, d: int|
        if r % count >= left_context_len {
            gated@[(r % count - left_context_len) * (num_heads * head_dim) + (r / count) * head_dim
                + d]
        } else if r * head_dim + d < cached@.len() {
            cached@[r * head_dim + d]
        } else {
            ZERO_BITS
        };
    let mut output: Vec<u32> = Vec::new();
    let mut row: usize = 0;
    assert(0 * head_dim == 0) by (nonlinear_arith);
    assert(gated.len() == gated@.len());
    while row < total
        invariant
            row <= total,
            count == k_len,
            k_len == left_context_len + frames,
            total == num_heads * k_len,
            total * head_dim <= usize::MAX,
            gated@.len() == frames * (num_heads * head_dim) <= usize::MAX,
            at == (|r: int, d: int|
                if r % count >= left_context_len {
                    gated@[(r % count - left_context_len) * (num_heads * head_dim) + (r / count)
                        * head_dim + d]
                } else if r * head_dim + d < cached@.len() {
                    cached@[r * head_dim + d]
                } else {
                    ZERO_BITS
                }),
            output@.len() == row * head_dim,
            forall|i: int|
                0 <= i < row * head_dim ==> #[trigger] output@[i] == at(
                    i / head_dim as int,
                    i % head_dim as int,
                ),
        decreases total - row,
    {
        proof {
            lemma_split(row as int, num_heads as int, k_len as int);
            assert(row * head_dim + head_dim == (row + 1) * head_dim) by (nonlinear_arith);
        }
        let head = row / k_len;
        let s = row % k_len;
        let mut d: usize = 0;
        while d < head_dim
            invariant
                d <= head_dim,
                row < total,
                count == k_len,
                k_len == left_context_len + frames,
                total == num_heads * k_len,
                total * head_dim <= usize::MAX,
                head == row / k_len,
                s == row % k_len,
                head < num_heads,
                s < k_len,
                gated@.len() == frames * (num_heads * head_dim) <= usize::MAX,
                at == (|r: int, d: int|
                    if r % count >= left_context_len {
                        gated@[(r % count - left_context_len) * (num_heads * head_dim) + (r / count)
                            * head_dim + d]
                    } else if r * head_dim + d < cached@.len() {
                        cached@[r * head_dim + d]
                    } else {
                        ZERO_BITS
                    }),
                output@.len() == row * head_dim + d,
                forall|i: int|
                    0 <= i < row * head_dim + d ==> #[trigger] output@[i] == at(
                        i / head_dim as int,
                        i % head_dim as int,
                    ),
            decreases head_dim - d,
        {
            proof {
                lemma_index(row as int, total as int, d as int, head_dim as int);
            }
            let index = row * head_dim + d;
            let value = if s >= left_context_len {
                proof {
                    lemma_head_index(
                        s - left_context_len,
                        frames as int,
                        head as int,
                        num_heads as int,
                        d as int,
                        head_dim as int,
                    );
                    let width = num_heads * head_dim;
                    assert(width <= frames * width) by (nonlinear_arith)
                        requires
                            1 <= frames,
                            0 <= width,
                    ;
                }
                gated[(s - left_context_len) * (num_heads * head_dim) + head * head_dim + d]
            } else if index < cached.len() {
                cached[index]
            } else {
                ZERO_BITS
            };
            output.push(value);
            d = d + 1;
        }
        row = row + 1;
    }
    proof {
        lemma_is_grid(output@, total as int, head_dim as int, at);
    }
    output
}

/// Takes the last values of each head.
#[verifier::spinoff_prover]
fn take_last_of_heads(
    padded: &[u32],
    num_heads: usize,
    left_context_len: usize,
    frames: usize,
    head_dim: usize,
) -> (taken: Vec<u32>)
    requires
        num_heads > 0,
        left_context_len + frames <= usize::MAX,
        padded@.len() == num_heads * ((left_context_len + frames) * head_dim),
    ensures
        taken@.len() == num_heads * (left_context_len * head_dim),
        taken@ == last_of_heads(
            padded@,
            num_heads as int,
            left_context_len as int,
            frames as int,
            head_dim as int,
        ),
{
    let k_len = left_context_len + frames;
    let ghost stride = k_len * head_dim;
    let ghost part = |h: int|
        part_of(padded@, k_len * head_dim, h).subrange(frames * head_dim, k_len * head_dim);
    assert(padded.len() == padded@.len());
    proof {
        assert(0 <= frames * head_dim && frames * head_dim <= stride && stride - frames * head_dim
            == left_context_len * head_dim && stride <= num_heads * stride) by (nonlinear_arith)
            requires
                k_len == left_context_len + frames,
                stride == k_len * head_dim,
                0 <= left_context_len,
                0 <= frames,
                0 <= head_dim,
                1 <= num_heads,
        ;
    }
    let width = k_len * head_dim;
    let first = frames * head_dim;
    let mut output: Vec<u32> = Vec::new();
    let mut head: usize = 0;
    while head < num_heads
        invariant
            head <= num_heads,
            width == k_len * head_dim,
            first == frames * head_dim,
            first <= width,
            padded@.len() == num_heads * width <= usize::MAX,
            part == (|h: int|
                part_of(padded@, k_len * head_dim, h).subrange(
                    frames * head_dim,
                    k_len * head_dim,
                )),
            output@ == joined(head as int, part),
        decreases num_heads - head,
    {
        proof {
            rows::lemma_part_bounds(head as int, num_heads as int, width as int);
        }
        let taken = vstd::slice::slice_subrange(padded, head * width + first, head * width + width);
        assert(taken@ =~= part(head as int));
        push_all(&mut output, taken);
        head = head + 1;
    }
    proof {
        assert forall|h: int| 0 <= h < num_heads implies (#[trigger] part(h)).len()
            == left_context_len * head_dim by {
            rows::lemma_part_bounds(h, num_heads as int, width as int);
        }
        rows::lemma_joined_len(num_heads as int, part, left_context_len * head_dim);
    }
    output
}

/// Gathers gated values of all frames by their attention.
#[verifier::spinoff_prover]
#[verifier::rlimit(40)]
pub fn nonlin_attention_streaming_reference<O: FloatOps>(
    ops: &O,
    weights: &XasrNonlinAttentionWeights,
    rows: &[u32],
    attn_weights: &[u32],
    frames: usize,
    dim: usize,
    num_heads: usize,
    left_context_len: usize,
    cached_x: Option<&[u32]>,
) -> (result: Result<XasrValueProjectionReferenceOutput, String>)
    requires
        float_ops::sized(ops),
        dim > 0 || rows@.len() > 0,
        left_context_len + frames > 0,
        3 * weights.out_proj.weight.input_dim <= usize::MAX,
        values_can_run(
            weights.out_proj.weight.input_dim,
            frames,
            dim,
            num_heads,
            left_context_len,
        ),
    ensures
        nonlin_refusal(
            *weights,
            rows@.len() as int,
            attn_weights@.len() as int,
            frames,
            dim,
            num_heads,
            left_context_len,
        ) is Some ==> text_outcome(
            result,
            nonlin_refusal(
                *weights,
                rows@.len() as int,
                attn_weights@.len() as int,
                frames,
                dim,
                num_heads,
                left_context_len,
            ),
        ),
        result is Ok ==> {
            &&& result->Ok_0.rows@.len() == frames * weights.out_proj.weight.output_dim
            &&& result->Ok_0.new_cache@.len() == left_context_len
                * weights.out_proj.weight.input_dim
        },
        float_ops::functional(ops) ==> match nonlin_values(
            float_ops::model(ops),
            *weights,
            rows@,
            attn_weights@,
            frames,
            dim,
            num_heads,
            left_context_len,
            float_ops::option_view(cached_x),
        ) {
            Ok(values) => {
                &&& result is Ok
                &&& result->Ok_0.rows@ == values.rows
                &&& result->Ok_0.new_cache@ == values.cache
            },
            Err(reason) => result is Err && result->Err_0@ == reason,
        },
{
    match validate_frame_rows(rows, frames, dim, "nonlin attention input") {
        Ok(_) => {},
        Err(reason) => return Err(reason),
    }
    let hidden_dim = weights.out_proj.weight.input_dim;
    let in_proj_output = 3 * hidden_dim;
    if weights.in_proj.weight.output_dim != in_proj_output {
        let mut reason = text::copy_text("xasr nonlin attention in_proj output dim ");
        text::push_number(&mut reason, weights.in_proj.weight.output_dim);
        reason.append(", expected ");
        text::push_number(&mut reason, in_proj_output);
        return Err(reason);
    }
    if num_heads == 0 || hidden_dim % num_heads != 0 {
        let mut reason = text::copy_text("xasr nonlin attention hidden dim ");
        text::push_number(&mut reason, hidden_dim);
        reason.append(" not divisible by heads ");
        text::push_number(&mut reason, num_heads);
        return Err(reason);
    }
    let head_dim = hidden_dim / num_heads;
    let k_len = left_context_len + frames;
    match validate_attention_weights(attn_weights, num_heads, frames, k_len) {
        Ok(_) => {},
        Err(reason) => return Err(reason),
    }
    let projected = apply_linear_to_rows(ops, &weights.in_proj, rows, frames, dim)?;
    let gated = gate_by_tanh(ops, projected.as_slice(), frames, hidden_dim);
    proof {
        lemma_head_sizes(
            num_heads as int,
            hidden_dim as int,
            left_context_len as int,
            frames as int,
        );
        lemma_nonlin_sizes(
            num_heads as int,
            hidden_dim as int,
            left_context_len as int,
            frames as int,
        );
    }
    let cache_len = num_heads * left_context_len * head_dim;
    match cached_x {
        Some(cache) => {
            if cache.len() != cache_len {
                let mut reason = text::copy_text("xasr nonlin attention cache has ");
                text::push_number(&mut reason, cache.len());
                reason.append(" values, expected ");
                text::push_number(&mut reason, cache_len);
                return Err(reason);
            }
        },
        None => {},
    }
    let cached = copy_cache(cached_x, cache_len);
    let padded = pad_heads(
        cached.as_slice(),
        gated.as_slice(),
        num_heads,
        left_context_len,
        frames,
        head_dim,
    );
    let new_cache = take_last_of_heads(
        padded.as_slice(),
        num_heads,
        left_context_len,
        frames,
        head_dim,
    );
    let attended = attention_weighted_values(
        ops,
        attn_weights,
        padded.as_slice(),
        num_heads,
        frames,
        k_len,
        head_dim,
    )?;
    let by_rows = join_heads(attended.as_slice(), num_heads, frames, head_dim);
    let attended_rows = multiply_third(
        ops,
        by_rows.as_slice(),
        projected.as_slice(),
        frames,
        hidden_dim,
    );
    let output = apply_linear_to_rows(
        ops,
        &weights.out_proj,
        attended_rows.as_slice(),
        frames,
        hidden_dim,
    )?;
    Ok(XasrValueProjectionReferenceOutput { rows: output, new_cache })
}

/// The sizes of the parts of a nonlinear attention.
proof fn lemma_nonlin_sizes(num_heads: int, width: int, left: int, frames: int)
    requires
        0 < num_heads,
        0 <= width,
        num_heads * (width / num_heads) == width,
        0 <= width / num_heads,
        0 <= left,
        0 <= frames,
    ensures
        num_heads * left * (width / num_heads) == left * width,
        num_heads * (left * (width / num_heads)) == left * width,
        num_heads * left <= num_heads * (left + frames),
        num_heads * ((left + frames) * (width / num_heads)) == (left + frames) * width,
        left * width <= (left + frames) * width,
{
    let head_dim = width / num_heads;
    assert(num_heads * left * head_dim == left * width && num_heads * (left * head_dim) == left
        * width && num_heads * ((left + frames) * head_dim) == (left + frames) * width)
        by (nonlinear_arith)
        requires
            num_heads * head_dim == width,
    ;
    assert(num_heads * left <= num_heads * (left + frames) && left * width <= (left + frames)
        * width) by (nonlinear_arith)
        requires
            0 < num_heads,
            0 <= frames,
            0 <= width,
    ;
}

} // verus!
