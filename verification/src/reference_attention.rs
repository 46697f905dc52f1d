//! Attention on the host.

use vstd::prelude::*;
use vstd::string::StringExecFns;
use crate::bits::{MINUS_THOUSAND_BITS, ZERO_BITS};
use crate::decoder::text_outcome;
use crate::encoder_tables::{
    compact_relative_positional_encoding_for_graph, position_refusal, position_table,
};
use crate::encoder_weights::{StoredLinear, XasrSelfAttentionWeightsWeights};
use crate::float_ops;
use crate::float_ops::{FloatModel, FloatOps};
use crate::reference_conv::{grid, lemma_grid_len, lemma_is_grid};
use crate::reference_conv_module::{cache_or_zeros, copy_cache, mask_view};
use crate::reference_rows::{
    apply_linear_to_rows, each_row, frame_rows_refusal, lemma_index, lemma_row_fails, linear_rows,
    push_all, validate_frame_rows,
};
use crate::rows;
use crate::rows::part_of;
use crate::softmax::{softmax_last_dim, softmax_rows};
use crate::sums::{dot, dot_from};
use crate::text;
use crate::text::decimal;

verus! {

/// The attention of each frame to each key.
#[derive(Clone, Debug, PartialEq)]
pub struct XasrAttentionWeightsReferenceOutput {
    /// One row for each frame of each head.
    pub weights: Vec<u32>,
    /// The keys of the last frames.
    pub new_cached_key: Vec<u32>,
}

/// The attention of each frame to each key.
pub struct AttentionValues {
    pub weights: Seq<u32>,
    pub cached_key: Seq<u32>,
}

/// The sizes of an attention.
pub struct AttentionShape {
    pub num_heads: int,
    pub query_head_dim: int,
    pub pos_output_dim: int,
    pub frames: int,
    pub left_context_len: int,
}

impl AttentionShape {
    /// The width of all queries.
    pub open spec fn query_dim(self) -> int {
        self.num_heads * self.query_head_dim
    }

    /// The width of the positions of a head.
    pub open spec fn pos_head_dim(self) -> int {
        self.pos_output_dim / self.num_heads
    }

    /// The width of a projected row: queries, keys and positions.
    pub open spec fn width(self) -> int {
        2 * self.query_dim() + self.pos_output_dim
    }

    /// The number of keys.
    pub open spec fn keys(self) -> int {
        self.left_context_len + self.frames
    }

    /// The number of relative positions.
    pub open spec fn positions(self) -> int {
        self.left_context_len + self.frames * 2 - 1
    }

    /// The cached keys, followed by those of the frames.
    pub open spec fn all_keys(self, cached: Seq<u32>, projected: Seq<u32>) -> Seq<u32> {
        cached + grid(
            self.frames,
            self.query_dim(),
            |t: int, c: int| projected[t * self.width() + self.query_dim() + c],
        )
    }

    /// How well frame `target` fits the key `source`, for one head.
    pub open spec fn score(
        self,
        m: FloatModel,
        projected: Seq<u32>,
        keys: Seq<u32>,
        positions: Seq<u32>,
        mask: Option<Seq<bool>>,
        head: int,
        target: int,
        source: int,
    ) -> u32 {
        let by_content = dot(
            m,
            ZERO_BITS,
            projected,
            target * self.width() + head * self.query_head_dim,
            keys,
            source * self.query_dim() + head * self.query_head_dim,
            self.query_head_dim,
        );
        let relative = self.frames - 1 - target + source;
        if mask is Some && mask->0[source] {
            MINUS_THOUSAND_BITS
        } else {
            dot(
                m,
                by_content,
                projected,
                target * self.width() + 2 * self.query_dim() + head * self.pos_head_dim(),
                positions,
                relative * self.pos_output_dim + head * self.pos_head_dim(),
                self.pos_head_dim(),
            )
        }
    }

    /// The scores of all frames of all heads.
    pub open spec fn scores(
        self,
        m: FloatModel,
        projected: Seq<u32>,
        keys: Seq<u32>,
        positions: Seq<u32>,
        mask: Option<Seq<bool>>,
    ) -> Seq<u32> {
        grid(
            self.num_heads * self.frames,
            self.keys(),
            |r: int, source: int|
                self.score(
                    m,
                    projected,
                    keys,
                    positions,
                    mask,
                    r / self.frames,
                    r % self.frames,
                    source,
                ),
        )
    }
}

/// Why an attention is refused before anything is computed.
pub open spec fn attention_shape_refusal(
    weights: XasrSelfAttentionWeightsWeights,
    len: int,
    frames: usize,
    dim: usize,
    num_heads: usize,
    query_head_dim: usize,
    left_context_len: usize,
    mask: Option<Seq<bool>>,
) -> Option<Seq<char>> {
    let pos_output_dim = weights.linear_pos.output_dim;
    let width = 2 * (num_heads * query_head_dim) + pos_output_dim;
    let keys = left_context_len + frames;
    if frame_rows_refusal(len, frames, dim, "attention weights input"@) is Some {
        frame_rows_refusal(len, frames, dim, "attention weights input"@)
    } else if num_heads * query_head_dim > usize::MAX {
        Some("xasr attention query dim overflow"@)
    } else if pos_output_dim == 0 {
        Some("xasr attention linear_pos output dim must be > 0"@)
    } else if num_heads == 0 || pos_output_dim % num_heads != 0 {
        Some(
            "xasr attention pos output dim "@ + decimal(pos_output_dim as nat)
                + " not divisible by heads "@ + decimal(num_heads as nat),
        )
    } else if weights.in_proj.weight.output_dim != width {
        Some(
            "xasr attention in_proj output dim "@ + decimal(
                weights.in_proj.weight.output_dim as nat,
            ) + ", expected "@ + decimal(width as nat),
        )
    } else if mask is Some && mask->0.len() != keys {
        Some(
            "xasr attention key padding mask has "@ + decimal(mask->0.len())
                + " entries, expected "@ + decimal(keys as nat),
        )
    } else {
        None
    }
}

/// Why a cache of keys is refused.
pub open spec fn key_cache_refusal(cache: Option<Seq<u32>>, expected: int) -> Option<Seq<char>> {
    if cache is Some && cache->0.len() != expected {
        Some(
            "xasr attention cached_key has "@ + decimal(cache->0.len()) + " values, expected "@
                + decimal(expected as nat),
        )
    } else {
        None
    }
}

/// The embedded positions, each through a matrix.
pub open spec fn projected_positions(
    m: FloatModel,
    weight: StoredLinear,
    frames: int,
    left_context_len: int,
) -> Result<Seq<u32>, Seq<char>> {
    let dim = weight.input_dim as int;
    let table = position_table(m, frames, left_context_len, dim);
    each_row(
        left_context_len + frames * 2 - 1,
        |t: int| (m.apply_linear)(weight, part_of(table, dim, t), None),
    )
}

/// The attention of each frame to each key, or why there is none.
pub open spec fn attention_values(
    m: FloatModel,
    weights: XasrSelfAttentionWeightsWeights,
    rows: Seq<u32>,
    frames: usize,
    dim: usize,
    num_heads: usize,
    query_head_dim: usize,
    left_context_len: usize,
    cached_key: Option<Seq<u32>>,
    mask: Option<Seq<bool>>,
) -> Result<AttentionValues, Seq<char>> {
    let shape = AttentionShape {
        num_heads: num_heads as int,
        query_head_dim: query_head_dim as int,
        pos_output_dim: weights.linear_pos.output_dim as int,
        frames: frames as int,
        left_context_len: left_context_len as int,
    };
    let refusal = attention_shape_refusal(
        weights,
        rows.len() as int,
        frames,
        dim,
        num_heads,
        query_head_dim,
        left_context_len,
        mask,
    );
    let cache_len = left_context_len * shape.query_dim();
    if refusal is Some {
        Err(refusal->0)
    } else {
        match linear_rows(m, weights.in_proj, rows, frames, dim) {
            Err(reason) => Err(reason),
            Ok(projected) => if key_cache_refusal(cached_key, cache_len) is Some {
                Err(key_cache_refusal(cached_key, cache_len)->0)
            } else {
                let keys = shape.all_keys(cache_or_zeros(cached_key, cache_len), projected);
                match projected_positions(
                    m,
                    weights.linear_pos,
                    frames as int,
                    left_context_len as int,
                ) {
                    Err(reason) => Err(reason),
                    Ok(positions) => match softmax_rows(
                        m,
                        shape.scores(m, projected, keys, positions, mask),
                        (left_context_len + frames) as usize,
                    ) {
                        Err(reason) => Err(reason),
                        Ok(attention) => Ok(
                            AttentionValues {
                                weights: attention,
                                cached_key: keys.subrange(
                                    frames * shape.query_dim(),
                                    (frames + left_context_len) * shape.query_dim(),
                                ),
                            },
                        ),
                    },
                }
            },
        }
    }
}

/// Elements from `offset` on within row `r`.
proof fn lemma_offset(r: int, n: int, stride: int, offset: int, len: int)
    requires
        0 <= r < n,
        0 <= offset,
        0 <= len,
        offset + len <= stride,
    ensures
        0 <= r * stride,
        r * stride + offset + len <= n * stride,
{
    rows::lemma_part_bounds(r, n, stride);
}

/// Embeds each relative position.
pub fn compact_relative_positional_encoding<O: FloatOps>(
    ops: &O,
    frames: usize,
    left_context_len: usize,
    embed_dim: usize,
) -> (table: Vec<u32>)
    requires
        embed_dim > 0,
        position_refusal(frames, left_context_len, embed_dim) is None,
    ensures
        table@.len() == (left_context_len + frames * 2 - 1) * embed_dim,
        float_ops::functional(ops) ==> table@ == position_table(
            float_ops::model(ops),
            frames as int,
            left_context_len as int,
            embed_dim as int,
        ),
{
    match compact_relative_positional_encoding_for_graph(ops, frames, left_context_len, embed_dim) {
        Ok(table) => table,
        Err(_) => Vec::new(),
    }
}

/// Multiplies each embedded position with a matrix.
#[verifier::spinoff_prover]
fn project_positions<O: FloatOps>(
    ops: &O,
    weight: &StoredLinear,
    frames: usize,
    left_context_len: usize,
) -> (result: Result<Vec<u32>, String>)
    requires
        weight.input_dim > 0,
        position_refusal(frames, left_context_len, weight.input_dim) is None,
        float_ops::sized(ops),
    ensures
        result is Ok ==> result->Ok_0@.len() == (left_context_len + frames * 2 - 1)
            * weight.output_dim,
        float_ops::functional(ops) ==> float_ops::result_view(result) == projected_positions(
            float_ops::model(ops),
            *weight,
            frames as int,
            left_context_len as int,
        ),
{
    let ghost m = float_ops::model(ops);
    let dim = weight.input_dim;
    let table = compact_relative_positional_encoding(ops, frames, left_context_len, dim);
    let count = left_context_len + frames * 2 - 1;
    let width = weight.output_dim;
    let ghost row_of = |t: int| (m.apply_linear)(*weight, part_of(table@, dim as int, t), None);
    let mut output: Vec<u32> = Vec::new();
    let mut t: usize = 0;
    assert(0 * width == 0) by (nonlinear_arith);
    while t < count
        invariant
            t <= count,
            float_ops::sized(ops),
            m == float_ops::model(ops),
            width == weight.output_dim,
            dim == weight.input_dim,
            count == left_context_len + frames * 2 - 1,
            table@.len() == count * dim,
            float_ops::functional(ops) ==> table@ == position_table(
                m,
                frames as int,
                left_context_len as int,
                dim as int,
            ),
            row_of == (|t: int| (m.apply_linear)(*weight, part_of(table@, dim as int, t), None)),
            output@.len() == t * width,
            float_ops::functional(ops) ==> each_row(t as int, row_of) == Ok::<
                Seq<u32>,
                Seq<char>,
            >(output@),
        decreases count - t,
    {
        proof {
            rows::lemma_part_bounds(t as int, count as int, dim as int);
            assert(t * width + width == (t + 1) * width) by (nonlinear_arith);
        }
        assert(table.len() == table@.len());
        let row = vstd::slice::slice_subrange(table.as_slice(), t * dim, (t + 1) * dim);
        assert(row@ == part_of(table@, dim as int, t as int));
        let projected = match ops.apply_linear(weight, row, None) {
            Ok(projected) => projected,
            Err(reason) => {
                proof {
                    if float_ops::functional(ops) {
                        assert(row_of(t as int) == Err::<Seq<u32>, Seq<char>>(reason@));
                        lemma_row_fails(t as int, count as int, row_of);
                    }
                }
                return Err(reason);
            },
        };
        proof {
            if float_ops::functional(ops) {
                assert(row_of(t as int) == Ok::<Seq<u32>, Seq<char>>(projected@));
            }
        }
        push_all(&mut output, projected.as_slice());
        t = t + 1;
    }
    Ok(output)
}

/// The score of a frame and a key, for one head.
#[verifier::spinoff_prover]
fn head_score<O: FloatOps>(
    ops: &O,
    projected: &[u32],
    keys: &[u32],
    positions: &[u32],
    mask: Option<&[bool]>,
    num_heads: usize,
    query_head_dim: usize,
    pos_output_dim: usize,
    frames: usize,
    left_context_len: usize,
    head: usize,
    target: usize,
    source: usize,
) -> (score: u32)
    requires
        head < num_heads,
        target < frames,
        source < left_context_len + frames,
        pos_output_dim % num_heads == 0,
        left_context_len + frames * 2 <= usize::MAX,
        projected@.len() == frames * (2 * (num_heads * query_head_dim) + pos_output_dim),
        keys@.len() == (left_context_len + frames) * (num_heads * query_head_dim),
        positions@.len() == (left_context_len + frames * 2 - 1) * pos_output_dim,
        mask is Some ==> mask->0@.len() == left_context_len + frames,
    ensures
        float_ops::functional(ops) ==> score == (AttentionShape {
            num_heads: num_heads as int,
            query_head_dim: query_head_dim as int,
            pos_output_dim: pos_output_dim as int,
            frames: frames as int,
            left_context_len: left_context_len as int,
        }).score(
            float_ops::model(ops),
            projected@,
            keys@,
            positions@,
            mask_view(mask),
            head as int,
            target as int,
            source as int,
        ),
{
    match mask {
        Some(entries) => {
            if entries[source] {
                return MINUS_THOUSAND_BITS;
            }
        },
        None => {},
    }
    let ghost query_dim_of = num_heads * query_head_dim;
    let ghost width_of = 2 * query_dim_of + pos_output_dim;
    let pos_head_dim = pos_output_dim / num_heads;
    let relative = frames - 1 - target + source;
    assert(projected.len() == projected@.len() && keys.len() == keys@.len() && positions.len()
        == positions@.len());
    proof {
        rows::lemma_part_bounds(head as int, num_heads as int, query_head_dim as int);
        vstd::arithmetic::div_mod::lemma_fundamental_div_mod(
            pos_output_dim as int,
            num_heads as int,
        );
        assert(num_heads * pos_head_dim == pos_output_dim);
        rows::lemma_part_bounds(head as int, num_heads as int, pos_head_dim as int);
        lemma_offset(
            target as int,
            frames as int,
            width_of,
            head * query_head_dim,
            query_head_dim as int,
        );
        lemma_offset(
            source as int,
            left_context_len + frames,
            query_dim_of,
            head * query_head_dim,
            query_head_dim as int,
        );
        lemma_offset(
            target as int,
            frames as int,
            width_of,
            2 * query_dim_of + head * pos_head_dim,
            pos_head_dim as int,
        );
        lemma_offset(
            relative as int,
            left_context_len + frames * 2 - 1,
            pos_output_dim as int,
            head * pos_head_dim,
            pos_head_dim as int,
        );
        assert(width_of <= frames * width_of) by (nonlinear_arith)
            requires
                1 <= frames,
                0 <= width_of,
        ;
    }
    let query_dim = num_heads * query_head_dim;
    let width = 2 * query_dim + pos_output_dim;
    let by_content = dot_from(
        ops,
        ZERO_BITS,
        projected,
        target * width + head * query_head_dim,
        keys,
        source * query_dim + head * query_head_dim,
        query_head_dim,
    );
    dot_from(
        ops,
        by_content,
        projected,
        target * width + 2 * query_dim + head * pos_head_dim,
        positions,
        relative * pos_output_dim + head * pos_head_dim,
        pos_head_dim,
    )
}

/// The scores of all frames of all heads.
#[verifier::spinoff_prover]
fn all_scores<O: FloatOps>(
    ops: &O,
    projected: &[u32],
    keys: &[u32],
    positions: &[u32],
    mask: Option<&[bool]>,
    num_heads: usize,
    query_head_dim: usize,
    pos_output_dim: usize,
    frames: usize,
    left_context_len: usize,
) -> (scores: Vec<u32>)
    requires
        num_heads > 0,
        pos_output_dim % num_heads == 0,
        left_context_len + frames * 2 <= usize::MAX,
        num_heads * frames <= usize::MAX,
        projected@.len() == frames * (2 * (num_heads * query_head_dim) + pos_output_dim),
        keys@.len() == (left_context_len + frames) * (num_heads * query_head_dim),
        positions@.len() == (left_context_len + frames * 2 - 1) * pos_output_dim,
        mask is Some ==> mask->0@.len() == left_context_len + frames,
    ensures
        scores@.len() == num_heads * frames * (left_context_len + frames),
        float_ops::functional(ops) ==> scores@ == (AttentionShape {
            num_heads: num_heads as int,
            query_head_dim: query_head_dim as int,
            pos_output_dim: pos_output_dim as int,
            frames: frames as int,
            left_context_len: left_context_len as int,
        }).scores(float_ops::model(ops), projected@, keys@, positions@, mask_view(mask)),
{
    let ghost m = float_ops::model(ops);
    let ghost shape = AttentionShape {
        num_heads: num_heads as int,
        query_head_dim: query_head_dim as int,
        pos_output_dim: pos_output_dim as int,
        frames: frames as int,
        left_context_len: left_context_len as int,
    };
    let ghost at = |r: int, source: int|
        shape.score(
            m,
            projected@,
            keys@,
            positions@,
            mask_view(mask),
            r / shape.frames,
            r % shape.frames,
            source,
        );
    let key_count = left_context_len + frames;
    let count = num_heads * frames;
    let mut output: Vec<u32> = Vec::new();
    let mut row: usize = 0;
    assert(0 * key_count == 0) by (nonlinear_arith);
    while row < count
        invariant
            row <= count,
            count == num_heads * frames,
            key_count == left_context_len + frames,
            m == float_ops::model(ops),
            shape == (AttentionShape {
                num_heads: num_heads as int,
                query_head_dim: query_head_dim as int,
                pos_output_dim: pos_output_dim as int,
                frames: frames as int,
                left_context_len: left_context_len as int,
            }),
            at == (|r: int, source: int|
                shape.score(
                    m,
                    projected@,
                    keys@,
                    positions@,
                    mask_view(mask),
                    r / shape.frames,
                    r % shape.frames,
                    source,
                )),
            num_heads > 0,
            pos_output_dim % num_heads == 0,
            left_context_len + frames * 2 <= usize::MAX,
            projected@.len() == frames * (2 * (num_heads * query_head_dim) + pos_output_dim),
            keys@.len() == (left_context_len + frames) * (num_heads * query_head_dim),
            positions@.len() == (left_context_len + frames * 2 - 1) * pos_output_dim,
            mask is Some ==> mask->0@.len() == left_context_len + frames,
            output@.len() == row * key_count,
            float_ops::functional(ops) ==> forall|i: int|
                0 <= i < row * key_count ==> #[trigger] output@[i] == at(
                    i / key_count as int,
                    i % key_count as int,
                ),
        decreases count - row,
    {
        proof {
            assert(frames > 0) by (nonlinear_arith)
                requires
                    0 <= row < num_heads * frames,
                    0 <= frames,
            ;
            vstd::arithmetic::div_mod::lemma_fundamental_div_mod(row as int, frames as int);
            assert(row / frames < num_heads) by (nonlinear_arith)
                requires
                    row == frames * (row / frames) + row % frames,
                    0 <= row % frames,
                    row < num_heads * frames,
                    frames > 0,
            ;
            assert(row * key_count + key_count == (row + 1) * key_count) by (nonlinear_arith);
        }
        let head = row / frames;
        let target = row % frames;
        let mut source: usize = 0;
        while source < key_count
            invariant
                source <= key_count,
                row < count,
                head == row / frames,
                target == row % frames,
                head < num_heads,
                target < frames,
                key_count == left_context_len + frames,
                m == float_ops::model(ops),
                shape == (AttentionShape {
                    num_heads: num_heads as int,
                    query_head_dim: query_head_dim as int,
                    pos_output_dim: pos_output_dim as int,
                    frames: frames as int,
                    left_context_len: left_context_len as int,
                }),
                at == (|r: int, source: int|
                    shape.score(
                        m,
                        projected@,
                        keys@,
                        positions@,
                        mask_view(mask),
                        r / shape.frames,
                        r % shape.frames,
                        source,
                    )),
                pos_output_dim % num_heads == 0,
                left_context_len + frames * 2 <= usize::MAX,
                projected@.len() == frames * (2 * (num_heads * query_head_dim) + pos_output_dim),
                keys@.len() == (left_context_len + frames) * (num_heads * query_head_dim),
                positions@.len() == (left_context_len + frames * 2 - 1) * pos_output_dim,
                mask is Some ==> mask->0@.len() == left_context_len + frames,
                output@.len() == row * key_count + source,
                float_ops::functional(ops) ==> forall|i: int|
                    0 <= i < row * key_count + source ==> #[trigger] output@[i] == at(
                        i / key_count as int,
                        i % key_count as int,
                    ),
            decreases key_count - source,
        {
            let score = head_score(
                ops,
                projected,
                keys,
                positions,
                mask,
                num_heads,
                query_head_dim,
                pos_output_dim,
                frames,
                left_context_len,
                head,
                target,
                source,
            );
            proof {
                lemma_index(row as int, count as int, source as int, key_count as int);
            }
            output.push(score);
            source = source + 1;
        }
        row = row + 1;
    }
    proof {
        if float_ops::functional(ops) {
            lemma_is_grid(output@, count as int, key_count as int, at);
        }
    }
    output
}

/// Takes the keys of the frames out of the projected rows.
#[verifier::spinoff_prover]
fn current_keys(
    projected: &[u32],
    frames: usize,
    query_dim: usize,
    width: usize,
) -> (keys: Vec<u32>)
    requires
        2 * query_dim <= width,
        projected@.len() == frames * width,
    ensures
        keys@ == grid(
            frames as int,
            query_dim as int,
            |t: int, c: int| projected@[t * width + query_dim + c],
        ),
        keys@.len() == frames * query_dim,
{
    let ghost at = |t: int, c: int| projected@[t * width + query_dim + c];
    let ghost part = |t: int| Seq::new(query_dim as nat, |c: int| at(t, c));
    let mut output: Vec<u32> = Vec::new();
    let mut t: usize = 0;
    assert(projected.len() == projected@.len());
    while t < frames
        invariant
            t <= frames,
            2 * query_dim <= width,
            projected@.len() == frames * width <= usize::MAX,
            at == (|t: int, c: int| projected@[t * width + query_dim + c]),
            part == (|t: int| Seq::new(query_dim as nat, |c: int| at(t, c))),
            output@ == rows::joined(t as int, part),
        decreases frames - t,
    {
        proof {
            lemma_offset(
                t as int,
                frames as int,
                width as int,
                query_dim as int,
                query_dim as int,
            );
        }
        let from = t * width + query_dim;
        let taken = vstd::slice::slice_subrange(projected, from, from + query_dim);
        assert(taken@ =~= part(t as int));
        push_all(&mut output, taken);
        t = t + 1;
    }
    proof {
        lemma_grid_len(frames as int, query_dim as int, at);
    }
    output
}

/// An attention can run: its sizes can be counted, and positions can be
/// embedded.
pub open spec fn attention_can_run(
    weights: XasrSelfAttentionWeightsWeights,
    frames: usize,
    dim: usize,
    num_heads: usize,
    query_head_dim: usize,
    left_context_len: usize,
) -> bool {
    let query_dim = num_heads * query_head_dim;
    let pos_output_dim = weights.linear_pos.output_dim;
    let keys = left_context_len + frames;
    &&& frames * dim <= usize::MAX
    &&& query_dim <= usize::MAX ==> 2 * query_dim + pos_output_dim <= usize::MAX
    &&& keys * query_dim <= usize::MAX
    &&& num_heads * frames * keys <= usize::MAX
    &&& num_heads * frames <= usize::MAX
    &&& weights.linear_pos.input_dim > 0
    &&& position_refusal(frames, left_context_len, weights.linear_pos.input_dim) is None
}

/// The attention of each frame to each key.
#[verifier::spinoff_prover]
#[verifier::rlimit(40)]
pub fn self_attention_weights_streaming_reference<O: FloatOps>(
    ops: &O,
    weights: &XasrSelfAttentionWeightsWeights,
    rows: &[u32],
    frames: usize,
    dim: usize,
    num_heads: usize,
    query_head_dim: usize,
    left_context_len: usize,
    cached_key: Option<&[u32]>,
    key_padding_mask: Option<&[bool]>,
) -> (result: Result<XasrAttentionWeightsReferenceOutput, String>)
    requires
        float_ops::sized(ops),
        dim > 0 || rows@.len() > 0,
        attention_can_run(*weights, frames, dim, num_heads, query_head_dim, left_context_len),
    ensures
        attention_shape_refusal(
            *weights,
            rows@.len() as int,
            frames,
            dim,
            num_heads,
            query_head_dim,
            left_context_len,
            mask_view(key_padding_mask),
        ) is Some ==> text_outcome(
            result,
            attention_shape_refusal(
                *weights,
                rows@.len() as int,
                frames,
                dim,
                num_heads,
                query_head_dim,
                left_context_len,
                mask_view(key_padding_mask),
            ),
        ),
        result is Ok ==> {
            &&& result->Ok_0.weights@.len() == num_heads * frames * (left_context_len + frames)
            &&& result->Ok_0.new_cached_key@.len() == left_context_len * (num_heads
                * query_head_dim)
            &&& num_heads > 0
        },
        float_ops::functional(ops) ==> match attention_values(
            float_ops::model(ops),
            *weights,
            rows@,
            frames,
            dim,
            num_heads,
            query_head_dim,
            left_context_len,
            float_ops::option_view(cached_key),
            mask_view(key_padding_mask),
        ) {
            Ok(values) => {
                &&& result is Ok
                &&& result->Ok_0.weights@ == values.weights
                &&& result->Ok_0.new_cached_key@ == values.cached_key
            },
            Err(reason) => result is Err && result->Err_0@ == reason,
        },
{
    match validate_frame_rows(rows, frames, dim, "attention weights input") {
        Ok(_) => {},
        Err(reason) => return Err(reason),
    }
    let query_dim = match num_heads.checked_mul(query_head_dim) {
        Some(query_dim) => query_dim,
        None => return Err(text::copy_text("xasr attention query dim overflow")),
    };
    let pos_output_dim = weights.linear_pos.output_dim;
    if pos_output_dim == 0 {
        return Err(text::copy_text("xasr attention linear_pos output dim must be > 0"));
    }
    if num_heads == 0 || pos_output_dim % num_heads != 0 {
        let mut reason = text::copy_text("xasr attention pos output dim ");
        text::push_number(&mut reason, pos_output_dim);
        reason.append(" not divisible by heads ");
        text::push_number(&mut reason, num_heads);
        return Err(reason);
    }
    let width = 2 * query_dim + pos_output_dim;
    if weights.in_proj.weight.output_dim != width {
        let mut reason = text::copy_text("xasr attention in_proj output dim ");
        text::push_number(&mut reason, weights.in_proj.weight.output_dim);
        reason.append(", expected ");
        text::push_number(&mut reason, width);
        return Err(reason);
    }
    let k_len = left_context_len + frames;
    match key_padding_mask {
        Some(mask) => {
            if mask.len() != k_len {
                let mut reason = text::copy_text("xasr attention key padding mask has ");
                text::push_number(&mut reason, mask.len());
                reason.append(" entries, expected ");
                text::push_number(&mut reason, k_len);
                return Err(reason);
            }
        },
        None => {},
    }
    let ghost shape = AttentionShape {
        num_heads: num_heads as int,
        query_head_dim: query_head_dim as int,
        pos_output_dim: pos_output_dim as int,
        frames: frames as int,
        left_context_len: left_context_len as int,
    };
    assert(shape.query_dim() == query_dim && shape.width() == width);
    let projected = apply_linear_to_rows(ops, &weights.in_proj, rows, frames, dim)?;
    proof {
        assert(k_len * query_dim == left_context_len * query_dim + frames * query_dim)
            by (nonlinear_arith)
            requires
                k_len == left_context_len + frames,
        ;
        assert(0 <= frames * query_dim && 0 <= left_context_len * query_dim) by (nonlinear_arith);
    }
    let cache_len = left_context_len * query_dim;
    match cached_key {
        Some(cache) => {
            if cache.len() != cache_len {
                let mut reason = text::copy_text("xasr attention cached_key has ");
                text::push_number(&mut reason, cache.len());
                reason.append(" values, expected ");
                text::push_number(&mut reason, cache_len);
                return Err(reason);
            }
        },
        None => {},
    }
    let mut all_keys = copy_cache(cached_key, cache_len);
    let current = current_keys(projected.as_slice(), frames, query_dim, width);
    let ghost at = |t: int, c: int| projected@[t * width + query_dim + c];
    let ghost shape_at = |t: int, c: int| projected@[t * shape.width() + shape.query_dim() + c];
    proof {
        assert(at =~= shape_at);
    }
    push_all(&mut all_keys, current.as_slice());
    let all_keys_slice = all_keys.as_slice();
    assert(all_keys@ == shape.all_keys(
        cache_or_zeros(float_ops::option_view(cached_key), cache_len as int),
        projected@,
    ));
    let taken = vstd::slice::slice_subrange(
        all_keys_slice,
        frames * query_dim,
        k_len * query_dim,
    );
    let mut new_cached_key: Vec<u32> = Vec::new();
    push_all(&mut new_cached_key, taken);
    assert(new_cached_key@ =~= taken@);
    let positions = project_positions(ops, &weights.linear_pos, frames, left_context_len)?;
    let scores = all_scores(
        ops,
        projected.as_slice(),
        all_keys_slice,
        positions.as_slice(),
        key_padding_mask,
        num_heads,
        query_head_dim,
        pos_output_dim,
        frames,
        left_context_len,
    );
    let attention = softmax_last_dim(ops, scores.as_slice(), k_len)?;
    Ok(XasrAttentionWeightsReferenceOutput { weights: attention, new_cached_key })
}

} // verus!
