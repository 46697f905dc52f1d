//! What the tables that every layer uploads are for.

use vstd::prelude::*;
use crate::encoder_tables::{
    attention_mask, mask_row, position_row, position_table, scale_table, scale_value,
};
use crate::encoder_weights::XasrConvolutionModuleWeights;
use crate::float_ops::FloatModel;
use crate::rows::{lemma_joined_at, lemma_part_bounds};

verus! {

/// Each pair of columns of the position table turns by one more multiple of the angle of its
/// relative position: the even column is the cosine, the odd one the sine.  The last column
/// is one in every row.
pub proof fn law_position_columns_are_cosines_and_sines(
    m: FloatModel,
    frames: int,
    left_context_len: int,
    dim: int,
    relative: int,
    pair: int,
)
    requires
        0 < frames,
        0 <= left_context_len,
        0 < dim,
        dim % 2 == 0,
        -(left_context_len + frames - 1) <= relative < frames,
        0 <= pair,
        2 * pair + 1 < dim,
    ensures
        ({
            let table = position_table(m, frames, left_context_len, dim);
            let at = (left_context_len + frames - 1 + relative) * dim;
            let angle = (m.position_angle)(dim, relative);
            &&& table.len() == (left_context_len + 2 * frames - 1) * dim
            &&& 0 <= at
            &&& at + dim <= table.len()
            &&& table[at + 2 * pair] == (m.cos_multiple)(angle, pair + 1)
            &&& 2 * pair + 2 < dim ==> table[at + 2 * pair + 1] == (m.sin_multiple)(
                angle,
                pair + 1,
            )
            &&& table[at + dim - 1] == 0x3f80_0000
        }),
{
    let rows = left_context_len + frames * 2 - 1;
    let part = |row: int|
        position_row(m, dim, row - (frames + left_context_len - 1));
    let row = left_context_len + frames - 1 + relative;
    lemma_joined_at(rows, part, dim, row, 2 * pair);
    lemma_joined_at(rows, part, dim, row, 2 * pair + 1);
    lemma_joined_at(rows, part, dim, row, dim - 1);
    lemma_part_bounds(row, rows, dim);
}

/// A frame sees itself straight ahead: where the cosines of nothing are one and the sines
/// zero, the row of relative position zero is one in the even columns and in the last, and
/// zero in the others.
pub proof fn law_no_turn_at_the_frame_itself(
    m: FloatModel,
    frames: int,
    left_context_len: int,
    dim: int,
    column: int,
)
    requires
        0 < frames,
        0 <= left_context_len,
        0 < dim,
        dim % 2 == 0,
        0 <= column < dim,
        forall|k: int|
            #[trigger] (m.cos_multiple)((m.position_angle)(dim, 0), k) == 0x3f80_0000,
        forall|k: int| #[trigger] (m.sin_multiple)((m.position_angle)(dim, 0), k) == 0,
    ensures
        position_table(m, frames, left_context_len, dim)[(left_context_len + frames - 1) * dim
            + column] == if column % 2 == 0 || column == dim - 1 {
            0x3f80_0000u32
        } else {
            0u32
        },
{
    law_position_columns_are_cosines_and_sines(
        m,
        frames,
        left_context_len,
        dim,
        0,
        column / 2,
    );
}

/// Frames as far ahead as behind are told apart by the sines alone: where the angles of
/// opposite positions have equal cosines, the even columns of their rows are equal.
pub proof fn law_opposite_positions_share_their_cosines(
    m: FloatModel,
    frames: int,
    left_context_len: int,
    dim: int,
    relative: int,
    pair: int,
)
    requires
        0 < frames,
        0 <= left_context_len,
        0 < dim,
        dim % 2 == 0,
        0 <= relative < frames,
        0 <= pair,
        2 * pair + 1 < dim,
        forall|k: int|
            #[trigger] (m.cos_multiple)((m.position_angle)(dim, relative), k) == (m.cos_multiple)(
                (m.position_angle)(dim, -relative),
                k,
            ),
    ensures
        ({
            let table = position_table(m, frames, left_context_len, dim);
            let middle = left_context_len + frames - 1;
            table[(middle + relative) * dim + 2 * pair] == table[(middle - relative) * dim + 2
                * pair]
        }),
{
    law_position_columns_are_cosines_and_sines(m, frames, left_context_len, dim, relative, pair);
    law_position_columns_are_cosines_and_sines(m, frames, left_context_len, dim, -relative, pair);
}

/// A key is out of sight of every frame exactly where it is cached and not among the last
/// that hold something: there the mask puts minus one thousand, and nothing anywhere else.
/// The frames of a chunk all see one another.
pub proof fn law_mask_hides_only_empty_caches(
    left_context_len: int,
    frames: int,
    valid_left_context: int,
    frame: int,
    key: int,
)
    requires
        0 <= valid_left_context <= left_context_len,
        0 <= frame < frames,
        0 <= key < left_context_len + frames,
    ensures
        ({
            let mask = attention_mask(left_context_len, frames, valid_left_context);
            let entry = mask[frame * (left_context_len + frames) + key];
            &&& mask.len() == frames * (left_context_len + frames)
            &&& key + valid_left_context < left_context_len ==> entry == 0xc47a_0000
            &&& key + valid_left_context >= left_context_len ==> entry == 0
        }),
{
    let part = |t: int|
        mask_row(left_context_len, frames, valid_left_context);
    lemma_joined_at(frames, part, left_context_len + frames, frame, key);
}

/// The scale of a frame of a channel is one, plus the entry of the left edge as far from the
/// start of the chunk as the frame is, plus the entry of the right edge as far from the end;
/// an edge that does not reach the frame adds zero.
pub proof fn law_chunk_edges_scale_the_frames_near_them(
    m: FloatModel,
    weights: XasrConvolutionModuleWeights,
    channels: int,
    frames: int,
    channel: int,
    frame: int,
)
    requires
        0 <= channel < channels,
        0 <= frame < frames,
    ensures
        ({
            let kernel = weights.chunkwise_conv_scale.dims@[2] as int;
            let height = weights.chunkwise_conv_scale.dims@[1] as int;
            let edges = weights.chunkwise_conv_scale.values@;
            let to_end = frames - 1 - frame;
            let left = if frame < kernel {
                edges[channel * kernel + frame]
            } else {
                0
            };
            let right = if to_end < kernel {
                edges[(height + channel) * kernel + (kernel - 1 - to_end)]
            } else {
                0
            };
            let table = scale_table(m, weights, channels, frames);
            &&& table.len() == channels * frames
            &&& table[channel * frames + frame] == (m.add)((m.add)(0x3f80_0000, left), right)
        }),
{
    let kernel = weights.chunkwise_conv_scale.dims@[2] as int;
    let height = weights.chunkwise_conv_scale.dims@[1] as int;
    let part = |c: int|
        Seq::new(
            frames as nat,
            |t: int| scale_value(m, weights, c, t, frames),
        );
    lemma_joined_at(channels, part, frames, channel, frame);
    assert((height + channel) * kernel == height * kernel + channel * kernel) by (nonlinear_arith);
}

} // verus!
