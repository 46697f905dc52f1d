//! What attention looks at, and what it remembers.

use vstd::prelude::*;
use crate::encoder_tables::position_table;
use crate::encoder_weights::XasrSelfAttentionWeightsWeights;
use crate::float_ops::FloatModel;
use crate::reference_attention::{attention_values, projected_positions, AttentionShape};
use crate::reference_conv::{lemma_grid_at, lemma_grid_len};
use crate::reference_conv_module::cache_or_zeros;
use crate::reference_rows::linear_rows;
use crate::row_laws::{
    law_rows_go_through_a_matrix_one_by_one, lemma_each_row_at, matrices_fill_rows,
};
use crate::rows::{lemma_part_bounds, part_of};
use crate::softmax::softmax_rows;
use crate::sum_laws::{law_a_sum_of_products_adds_every_product, products, summed};

verus! {

/// `count` entries from `first` on.
pub open spec fn stretch(values: Seq<u32>, first: int, count: int) -> Seq<u32> {
    values.subrange(first, first + count)
}

/// What a cache holds: zeros where there is none.
pub open spec fn remembered(cache: Option<Seq<u32>>, len: int) -> Seq<u32> {
    if cache is Some {
        cache->0
    } else {
        Seq::new(len as nat, |i: int| 0u32)
    }
}

/// The score of a key: minus one thousand where it is hidden.
pub open spec fn unless_hidden(mask: Option<Seq<bool>>, key: int, fit: u32) -> u32 {
    if mask is Some && mask->0[key] {
        0xc47a_0000u32
    } else {
        fit
    }
}

/// The sizes of an attention, and what it projects.
pub struct AttentionInputs {
    pub heads: int,
    pub head_dim: int,
    pub pos_dim: int,
    pub frames: int,
    pub left: int,
    /// A row for each frame: queries, keys and position queries.
    pub projected: Seq<u32>,
    /// The keys that are remembered.
    pub cached: Seq<u32>,
    /// A row for each relative position, from the farthest past on.
    pub positions: Seq<u32>,
}

impl AttentionInputs {
    /// The width of a projected row.
    pub open spec fn width(self) -> int {
        2 * (self.heads * self.head_dim) + self.pos_dim
    }

    /// The query of a head at a frame.
    pub open spec fn query(self, head: int, frame: int) -> Seq<u32> {
        stretch(
            self.projected,
            frame * self.width() + head * self.head_dim,
            self.head_dim,
        )
    }

    /// The key of a head: those that are remembered come first, the oldest in front, and then
    /// those of the frames.
    pub open spec fn key(self, head: int, key: int) -> Seq<u32> {
        let all = self.heads * self.head_dim;
        if key < self.left {
            stretch(self.cached, key * all + head * self.head_dim, self.head_dim)
        } else {
            stretch(
                self.projected,
                (key - self.left) * self.width() + all + head * self.head_dim,
                self.head_dim,
            )
        }
    }

    /// The position query of a head at a frame.
    pub open spec fn position_query(self, head: int, frame: int) -> Seq<u32> {
        let share = self.pos_dim / self.heads;
        stretch(
            self.projected,
            frame * self.width() + 2 * (self.heads * self.head_dim) + head * share,
            share,
        )
    }

    /// What a head knows of the relative position `relative`: that of a key so many frames
    /// after the frame that looks at it.
    pub open spec fn position(self, head: int, relative: int) -> Seq<u32> {
        let share = self.pos_dim / self.heads;
        stretch(
            self.positions,
            (self.left + self.frames - 1 + relative) * self.pos_dim + head * share,
            share,
        )
    }

    /// How well a key fits a frame: the product of query and key, and the product of the
    /// position query with the position of the key relative to the frame.
    pub open spec fn fit(self, m: FloatModel, head: int, frame: int, key: int) -> u32 {
        summed(
            m,
            summed(m, 0, products(m, self.query(head, frame), self.key(head, key))),
            products(
                m,
                self.position_query(head, frame),
                self.position(head, (key - self.left) - frame),
            ),
        )
    }
}

/// A place in a table of rows, from a place in a row.
pub proof fn lemma_inside(row: int, rows: int, width: int, first: int, count: int)
    requires
        0 <= row < rows,
        0 <= first,
        0 <= count,
        first + count <= width,
    ensures
        0 <= row * width + first,
        row * width + first + count <= rows * width,
{
    lemma_part_bounds(row, rows, width);
}

/// The part of a head lies within the parts of all heads.
pub proof fn lemma_head_inside(head: int, heads: int, head_dim: int)
    requires
        0 <= head < heads,
        0 <= head_dim,
    ensures
        0 <= head * head_dim,
        head * head_dim + head_dim <= heads * head_dim,
{
    lemma_part_bounds(head, heads, head_dim);
}

/// Equal shares make up the whole.
pub proof fn lemma_shares(total: int, heads: int)
    requires
        0 < heads,
        0 <= total,
        total % heads == 0,
    ensures
        0 <= total / heads,
        heads * (total / heads) == total,
{
    vstd::arithmetic::div_mod::lemma_fundamental_div_mod(total, heads);
    vstd::arithmetic::div_mod::lemma_div_pos_is_pos(total, heads);
}

/// The score of a key that is not hidden is how well it fits.
#[verifier::spinoff_prover]
#[verifier::rlimit(40)]
proof fn lemma_score(
    m: FloatModel,
    inputs: AttentionInputs,
    mask: Option<Seq<bool>>,
    head: int,
    frame: int,
    key: int,
)
    requires
        0 <= head < inputs.heads,
        0 <= frame < inputs.frames,
        0 <= key < inputs.left + inputs.frames,
        0 <= inputs.left,
        0 <= inputs.head_dim,
        0 <= inputs.pos_dim,
        inputs.pos_dim % inputs.heads == 0,
        inputs.projected.len() == inputs.frames * inputs.width(),
        inputs.cached.len() == inputs.left * (inputs.heads * inputs.head_dim),
        inputs.positions.len() == (inputs.left + inputs.frames * 2 - 1) * inputs.pos_dim,
    ensures
        ({
            let shape = AttentionShape {
                num_heads: inputs.heads,
                query_head_dim: inputs.head_dim,
                pos_output_dim: inputs.pos_dim,
                frames: inputs.frames,
                left_context_len: inputs.left,
            };
            let score = shape.score(
                m,
                inputs.projected,
                shape.all_keys(inputs.cached, inputs.projected),
                inputs.positions,
                mask,
                head,
                frame,
                key,
            );
            score == unless_hidden(mask, key, inputs.fit(m, head, frame, key))
        }),
{
    let shape = AttentionShape {
        num_heads: inputs.heads,
        query_head_dim: inputs.head_dim,
        pos_output_dim: inputs.pos_dim,
        frames: inputs.frames,
        left_context_len: inputs.left,
    };
    let all = inputs.heads * inputs.head_dim;
    let share = inputs.pos_dim / inputs.heads;
    let width = inputs.width();
    let projected = inputs.projected;
    let keys = shape.all_keys(inputs.cached, projected);
    let relative = inputs.frames - 1 - frame + key;
    assert(0 <= all) by (nonlinear_arith)
        requires
            all == inputs.heads * inputs.head_dim,
            0 < inputs.heads,
            0 <= inputs.head_dim,
    ;
    lemma_shares(inputs.pos_dim, inputs.heads);
    lemma_head_inside(head, inputs.heads, inputs.head_dim);
    lemma_head_inside(head, inputs.heads, share);
    lemma_inside(frame, inputs.frames, width, head * inputs.head_dim, inputs.head_dim);
    lemma_inside(frame, inputs.frames, width, 2 * all + head * share, share);
    lemma_inside(
        relative,
        inputs.left + inputs.frames * 2 - 1,
        inputs.pos_dim,
        head * share,
        share,
    );
    let at = |t: int, c: int| projected[t * shape.width() + shape.query_dim() + c];
    lemma_grid_len(inputs.frames, all, at);
    assert(inputs.left * all + inputs.frames * all == (inputs.left + inputs.frames) * all)
        by (nonlinear_arith);
    lemma_inside(key, inputs.left + inputs.frames, all, head * inputs.head_dim, inputs.head_dim);
    law_a_sum_of_products_adds_every_product(
        m,
        0,
        projected,
        frame * width + head * inputs.head_dim,
        keys,
        key * all + head * inputs.head_dim,
        inputs.head_dim,
    );
    let found = stretch(keys, key * all + head * inputs.head_dim, inputs.head_dim);
    if key < inputs.left {
        lemma_inside(key, inputs.left, all, head * inputs.head_dim, inputs.head_dim);
        assert(found =~= inputs.key(head, key));
    } else {
        let t = key - inputs.left;
        lemma_inside(t, inputs.frames, width, all + head * inputs.head_dim, inputs.head_dim);
        assert forall|c: int| 0 <= c < inputs.head_dim implies found[c] == inputs.key(
            head,
            key,
        )[c] by {
            lemma_grid_at(inputs.frames, all, at, t, head * inputs.head_dim + c);
            assert(key * all == inputs.left * all + t * all) by (nonlinear_arith)
                requires
                    key == inputs.left + t,
            ;
        }
        assert(found =~= inputs.key(head, key));
    }
    law_a_sum_of_products_adds_every_product(
        m,
        summed(m, 0, products(m, inputs.query(head, frame), inputs.key(head, key))),
        projected,
        frame * width + 2 * all + head * share,
        inputs.positions,
        relative * inputs.pos_dim + head * share,
        share,
    );
}

/// Every frame looks, with every head, at all keys: those that are remembered and those of
/// the chunk.  Its weights are the normalised scores: how well the key fits, by content and
/// by how far it is from the frame, and minus one thousand for a key that is hidden.  The
/// keys of the last frames are remembered.
#[verifier::spinoff_prover]
#[verifier::rlimit(40)]
pub proof fn law_attention_weighs_every_key_by_how_it_fits(
    m: FloatModel,
    weights: XasrSelfAttentionWeightsWeights,
    rows: Seq<u32>,
    frames: usize,
    dim: usize,
    num_heads: usize,
    query_head_dim: usize,
    left_context_len: usize,
    cached_key: Option<Seq<u32>>,
    mask: Option<Seq<bool>>,
) -> (found: (AttentionInputs, Seq<u32>))
    requires
        matrices_fill_rows(m),
        frames > 0,
        attention_values(
            m,
            weights,
            rows,
            frames,
            dim,
            num_heads,
            query_head_dim,
            left_context_len,
            cached_key,
            mask,
        ) is Ok,
    ensures
        ({
            let inputs = found.0;
            let scores = found.1;
            let result = attention_values(
                m,
                weights,
                rows,
                frames,
                dim,
                num_heads,
                query_head_dim,
                left_context_len,
                cached_key,
                mask,
            )->Ok_0;
            let all = num_heads * query_head_dim;
            let keys = left_context_len + frames;
            let table_dim = weights.linear_pos.input_dim as int;
            let table = position_table(m, frames as int, left_context_len as int, table_dim);
            &&& inputs.heads == num_heads
            &&& inputs.head_dim == query_head_dim
            &&& inputs.pos_dim == weights.linear_pos.output_dim
            &&& inputs.frames == frames
            &&& inputs.left == left_context_len
            &&& inputs.cached == remembered(cached_key, left_context_len * all)
            &&& inputs.projected.len() == frames * inputs.width()
            &&& forall|t: int|
                0 <= t < frames ==> (m.apply_linear)(
                    weights.in_proj.weight,
                    #[trigger] rows.subrange(t * dim, (t + 1) * dim),
                    Some(weights.in_proj.bias@),
                ) == Ok::<Seq<u32>, Seq<char>>(
                    inputs.projected.subrange(t * inputs.width(), (t + 1) * inputs.width()),
                )
            &&& forall|r: int|
                0 <= r < left_context_len + 2 * frames - 1 ==> (m.apply_linear)(
                    weights.linear_pos,
                    #[trigger] table.subrange(r * table_dim, (r + 1) * table_dim),
                    None,
                ) == Ok::<Seq<u32>, Seq<char>>(
                    inputs.positions.subrange(r * inputs.pos_dim, (r + 1) * inputs.pos_dim),
                )
            &&& scores.len() == num_heads * frames * keys
            &&& forall|head: int, frame: int, key: int|
                0 <= head < num_heads && 0 <= frame < frames && 0 <= key < keys ==> scores[(head
                    * frames + frame) * keys + key] == unless_hidden(
                    mask,
                    key,
                    #[trigger] inputs.fit(m, head, frame, key),
                )
            &&& softmax_rows(m, scores, keys as usize) == Ok::<Seq<u32>, Seq<char>>(result.weights)
            &&& result.cached_key.len() == left_context_len * all
            &&& forall|k: int, head: int|
                0 <= k < left_context_len && 0 <= head < num_heads ==> stretch(
                    result.cached_key,
                    k * all + head * query_head_dim,
                    query_head_dim as int,
                ) == #[trigger] inputs.key(head, frames + k)
        }),
{
    let all = num_heads * query_head_dim;
    let shape = AttentionShape {
        num_heads: num_heads as int,
        query_head_dim: query_head_dim as int,
        pos_output_dim: weights.linear_pos.output_dim as int,
        frames: frames as int,
        left_context_len: left_context_len as int,
    };
    let left = left_context_len as int;
    let n = frames as int;
    let projected = linear_rows(m, weights.in_proj, rows, frames, dim)->Ok_0;
    let cached = cache_or_zeros(cached_key, left_context_len * all);
    let positions = projected_positions(m, weights.linear_pos, n, left)->Ok_0;
    let inputs = AttentionInputs {
        heads: num_heads as int,
        head_dim: query_head_dim as int,
        pos_dim: weights.linear_pos.output_dim as int,
        frames: n,
        left,
        projected,
        cached,
        positions,
    };
    let keys = left + n;
    let all_keys = shape.all_keys(cached, projected);
    let scores = shape.scores(m, projected, all_keys, positions, mask);
    let result = attention_values(
        m,
        weights,
        rows,
        frames,
        dim,
        num_heads,
        query_head_dim,
        left_context_len,
        cached_key,
        mask,
    )->Ok_0;
    assert(0 <= all && 0 <= left * all) by (nonlinear_arith)
        requires
            all == num_heads * query_head_dim,
            0 <= left,
    ;
    assert(cached =~= remembered(cached_key, left_context_len * all));
    assert forall|t: int| 0 <= t < frames implies (m.apply_linear)(
        weights.in_proj.weight,
        #[trigger] rows.subrange(t * dim, (t + 1) * dim),
        Some(weights.in_proj.bias@),
    ) == Ok::<Seq<u32>, Seq<char>>(
        projected.subrange(t * inputs.width(), (t + 1) * inputs.width()),
    ) && projected.len() == frames * inputs.width() by {
        law_rows_go_through_a_matrix_one_by_one(m, weights.in_proj, rows, frames, dim, t);
    }
    law_rows_go_through_a_matrix_one_by_one(m, weights.in_proj, rows, frames, dim, 0);
    let table_dim = weights.linear_pos.input_dim as int;
    let table = position_table(m, n, left, table_dim);
    let row = |t: int| (m.apply_linear)(weights.linear_pos, part_of(table, table_dim, t), None);
    assert forall|r: int| 0 <= r < left_context_len + 2 * frames - 1 implies (m.apply_linear)(
        weights.linear_pos,
        #[trigger] table.subrange(r * table_dim, (r + 1) * table_dim),
        None,
    ) == Ok::<Seq<u32>, Seq<char>>(
        positions.subrange(r * inputs.pos_dim, (r + 1) * inputs.pos_dim),
    ) by {
        lemma_each_row_at(left + n * 2 - 1, row, inputs.pos_dim, r);
    }
    lemma_each_row_at(left + n * 2 - 1, row, inputs.pos_dim, 0);
    let at = |r: int, source: int|
        shape.score(
            m,
            projected,
            all_keys,
            positions,
            mask,
            r / shape.frames,
            r % shape.frames,
            source,
        );
    assert(0 <= num_heads * n) by (nonlinear_arith)
        requires
            0 < n,
    ;
    lemma_grid_len(num_heads * n, keys, at);
    assert forall|head: int, frame: int, key: int|
        0 <= head < num_heads && 0 <= frame < frames && 0 <= key < keys implies scores[(head
        * frames + frame) * keys + key] == unless_hidden(
        mask,
        key,
        #[trigger] inputs.fit(m, head, frame, key),
    ) by {
        lemma_score(m, inputs, mask, head, frame, key);
        lemma_inside(head, num_heads as int, n, frame, 1);
        vstd::arithmetic::div_mod::lemma_fundamental_div_mod_converse(
            head * n + frame,
            n,
            head,
            frame,
        );
        lemma_grid_at(num_heads * n, keys, at, head * n + frame, key);
    }
    let kept_at = |t: int, c: int| projected[t * shape.width() + shape.query_dim() + c];
    lemma_grid_len(n, all, kept_at);
    assert(left * all + n * all == keys * all && n * all + left * all == (n + left) * all
        && 0 <= n * all) by (nonlinear_arith)
        requires
            keys == left + n,
            0 <= all,
            0 < n,
    ;
    assert forall|k: int, head: int|
        0 <= k < left_context_len && 0 <= head < num_heads implies stretch(
        result.cached_key,
        k * all + head * query_head_dim,
        query_head_dim as int,
    ) == #[trigger] inputs.key(head, frames + k) by {
        let d = query_head_dim as int;
        lemma_head_inside(head, num_heads as int, d);
        lemma_inside(k, left, all, head * d, d);
        let kept = stretch(result.cached_key, k * all + head * d, d);
        let key = frames + k;
        lemma_inside(key, keys, all, head * d, d);
        assert(key * all == n * all + k * all) by (nonlinear_arith)
            requires
                key == n + k,
        ;
        assert(kept =~= stretch(all_keys, key * all + head * d, d));
        if key < left {
            lemma_inside(key, left, all, head * d, d);
            assert(kept =~= inputs.key(head, key));
        } else {
            let t = key - left;
            lemma_inside(t, n, inputs.width(), all + head * d, d);
            assert(key * all == left * all + t * all) by (nonlinear_arith)
                requires
                    key == left + t,
            ;
            assert forall|c: int| 0 <= c < d implies kept[c] == inputs.key(head, key)[c] by {
                lemma_grid_at(n, all, kept_at, t, head * d + c);
            }
            assert(kept =~= inputs.key(head, key));
        }
    }
    (inputs, scores)
}

} // verus!
