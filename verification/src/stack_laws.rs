//! How stacks change the rate of the frames, and what the encoder hands out.

use vstd::prelude::*;
use crate::encoder_error::Refusal;
use crate::encoder_rows::sliced_rows;
use crate::encoder_weights::{XasrEncoderLayerWeights, XasrEncoderWeights};
use crate::float_ops::FloatModel;
use crate::layer_graph::ceil_div;
use crate::layer_laws::LayerSizes;
use crate::reference_encoder::{
    layers_values, output_rows, side_by_side, step_values, tail_values, trunk_values, with_tails,
    TrunkValues,
};
use crate::reference_layer::{layer_values, LayerCaches, LayerValues};
use crate::reference_rows::bypassed;
use crate::reference_scale::{
    downsampled, group_row, group_sum, law_groups_hold_all_rows, padded_rows, resized_row,
    upsampled_row, upsampled_rows,
};
use crate::rows::{lemma_joined_at, lemma_joined_len, lemma_part_bounds, part_of};
use crate::runtime_contract::{largest, XasrZipformerExecutionMetadata};
use crate::softmax::{softmax_row, softmax_rows};
use crate::sum_laws::{products, summed};

verus! {

/// Entry `c` of row `t`, where there is one, and zero otherwise.
pub open spec fn entry_or_zero(
    rows: Seq<u32>,
    frames: int,
    width: int,
    t: int,
    c: int,
) -> u32 {
    if t < frames && c < width {
        rows[t * width + c]
    } else {
        0
    }
}

proof fn lemma_padded(
    rows: Seq<u32>,
    frames: int,
    input_dim: int,
    dim: int,
    factor: int,
    t: int,
    c: int,
)
    requires
        0 <= frames,
        0 < factor,
        0 <= t < ceil_div(frames, factor) * factor,
        0 <= c < dim,
    ensures
        ({
            let padded = padded_rows(rows, frames, input_dim, dim, factor);
            &&& padded.len() == ceil_div(frames, factor) * factor * dim
            &&& padded[t * dim + c] == entry_or_zero(rows, frames, input_dim, t, c)
        }),
{
    law_groups_hold_all_rows(frames, factor);
    let total = ceil_div(frames, factor) * factor;
    let part = |t: int| resized_row(rows, input_dim, dim, t);
    lemma_joined_len(frames, part, dim);
    assert(frames * dim + (total - frames) * dim == total * dim && 0 <= (total - frames) * dim)
        by (nonlinear_arith)
        requires
            frames <= total,
            0 <= dim,
    ;
    lemma_part_bounds(t, total, dim);
    if t < frames {
        lemma_joined_at(frames, part, dim, t, c);
    } else {
        assert(frames * dim <= t * dim) by (nonlinear_arith)
            requires
                frames <= t,
                0 <= dim,
        ;
    }
}

/// Rows are cut to a new width or filled up with zeros, and rows of zeros fill up the last
/// group.
pub proof fn law_padding_only_adds_zeros(
    rows: Seq<u32>,
    frames: int,
    input_dim: int,
    dim: int,
    factor: int,
)
    requires
        0 < frames,
        0 < factor,
        0 < dim,
    ensures
        ({
            let padded = padded_rows(rows, frames, input_dim, dim, factor);
            &&& frames * dim <= padded.len() < (frames + factor) * dim
            &&& padded.len() % (factor * dim) as nat == 0
            &&& forall|t: int, c: int|
                #![trigger padded[t * dim + c]]
                0 <= t && 0 <= c < dim && t * dim + dim <= padded.len() ==> padded[t * dim + c]
                    == entry_or_zero(rows, frames, input_dim, t, c)
        }),
{
    law_groups_hold_all_rows(frames, factor);
    let groups = ceil_div(frames, factor);
    let padded = padded_rows(rows, frames, input_dim, dim, factor);
    lemma_padded(rows, frames, input_dim, dim, factor, 0, 0);
    assert(frames * dim <= groups * factor * dim && groups * factor * dim < (frames + factor) * dim
        && groups * factor * dim == (factor * dim) * groups && 0 < factor * dim)
        by (nonlinear_arith)
        requires
            frames <= groups * factor < frames + factor,
            0 < dim,
            0 < factor,
    ;
    vstd::arithmetic::div_mod::lemma_mod_multiples_basic(groups, factor * dim);
    assert((factor * dim) * groups == groups * (factor * dim)) by (nonlinear_arith);
    assert forall|t: int, c: int|
        #![trigger padded[t * dim + c]]
        0 <= t && 0 <= c < dim && t * dim + dim <= padded.len() implies padded[t * dim + c]
        == entry_or_zero(rows, frames, input_dim, t, c) by {
        assert(t < groups * factor) by (nonlinear_arith)
            requires
                t * dim + dim <= groups * factor * dim,
                0 < dim,
        ;
        lemma_padded(rows, frames, input_dim, dim, factor, t, c);
    }
}

proof fn lemma_group_sum(
    m: FloatModel,
    padded: Seq<u32>,
    weights: Seq<u32>,
    dim: int,
    first: int,
    c: int,
    n: int,
)
    requires
        0 <= n <= weights.len(),
    ensures
        group_sum(m, padded, weights, dim, first, c, n) == summed(
            m,
            0,
            products(
                m,
                Seq::new(n as nat, |j: int| padded[(first + j) * dim + c]),
                weights.take(n),
            ),
        ),
    decreases n,
{
    if n > 0 {
        lemma_group_sum(m, padded, weights, dim, first, c, n - 1);
        let terms = products(
            m,
            Seq::new(n as nat, |j: int| padded[(first + j) * dim + c]),
            weights.take(n),
        );
        assert(terms.drop_last() =~= products(
            m,
            Seq::new((n - 1) as nat, |j: int| padded[(first + j) * dim + c]),
            weights.take(n - 1),
        ));
        assert(terms.last() == (m.mul)(padded[(first + n - 1) * dim + c], weights[n - 1]));
    }
}

/// A single row stays as long as it is when it is normalised.
proof fn lemma_one_row(m: FloatModel, logits: Seq<u32>, factor: usize)
    requires
        logits.len() == factor,
        factor > 0,
        softmax_rows(m, logits, factor) is Ok,
    ensures
        softmax_rows(m, logits, factor)->Ok_0.len() == factor,
{
    let part = |t: int| softmax_row(m, part_of(logits, factor as int, t));
    vstd::arithmetic::div_mod::lemma_div_by_self(factor as int);
    assert(part(0).len() == factor) by {
        assert(0 * factor == 0 && 1 * factor == factor);
    }
    assert forall|i: int| 0 <= i < 1 implies (#[trigger] part(i)).len() == factor by {
        assert(i == 0);
    }
    lemma_joined_len(1, part, factor as int);
}

/// Downsampling makes one row of every group of rows: their weighted sum, with the normalised
/// logits as weights.  The groups hold all rows, and what is missing in the last is zero.
#[verifier::spinoff_prover]
pub proof fn law_downsampling_weighs_the_rows_of_every_group(
    m: FloatModel,
    rows: Seq<u32>,
    frames: usize,
    input_dim: usize,
    dim: usize,
    logits: Seq<u32>,
) -> (groups: int)
    requires
        downsampled(m, rows, frames, input_dim, dim, logits) is Ok,
        logits.len() <= usize::MAX,
    ensures
        ({
            let factor = logits.len() as int;
            let result = downsampled(m, rows, frames, input_dim, dim, logits)->Ok_0;
            let weights = softmax_rows(m, logits, factor as usize)->Ok_0;
            &&& softmax_rows(m, logits, factor as usize) is Ok
            &&& frames <= groups * factor < frames + factor
            &&& result.len() == groups * dim
            &&& forall|g: int, c: int|
                0 <= g < groups && 0 <= c < dim ==> #[trigger] result[g * dim + c] == summed(
                    m,
                    0,
                    products(
                        m,
                        Seq::new(
                            factor as nat,
                            |j: int|
                                entry_or_zero(
                                    rows,
                                    frames as int,
                                    input_dim as int,
                                    g * factor + j,
                                    c,
                                ),
                        ),
                        weights,
                    ),
                )
        }),
{
    let factor = logits.len() as int;
    let groups = ceil_div(frames as int, factor);
    let weights = softmax_rows(m, logits, factor as usize)->Ok_0;
    let padded = padded_rows(rows, frames as int, input_dim as int, dim as int, factor);
    let result = downsampled(m, rows, frames, input_dim, dim, logits)->Ok_0;
    law_groups_hold_all_rows(frames as int, factor);
    lemma_one_row(m, logits, factor as usize);
    let part = |g: int| group_row(m, padded, weights, dim as int, g);
    lemma_joined_len(groups, part, dim as int);
    assert forall|g: int, c: int| 0 <= g < groups && 0 <= c < dim implies #[trigger] result[g * dim
        + c] == summed(
        m,
        0,
        products(
            m,
            Seq::new(
                factor as nat,
                |j: int|
                    entry_or_zero(rows, frames as int, input_dim as int, g * factor + j, c),
            ),
            weights,
        ),
    ) by {
        lemma_joined_at(groups, part, dim as int, g, c);
        lemma_group_sum(m, padded, weights, dim as int, g * factor, c, factor);
        lemma_part_bounds(g, groups, factor);
        let seen = Seq::new(
            factor as nat,
            |j: int| entry_or_zero(rows, frames as int, input_dim as int, g * factor + j, c),
        );
        let held = Seq::new(factor as nat, |j: int| padded[(g * factor + j) * dim + c]);
        assert forall|j: int| 0 <= j < factor implies held[j] == seen[j] by {
            lemma_padded(
                rows,
                frames as int,
                input_dim as int,
                dim as int,
                factor,
                g * factor + j,
                c,
            );
        }
        assert(held =~= seen);
        assert(weights.take(factor) =~= weights);
    }
    groups
}

/// What a layer makes of rows when nothing is remembered.
#[verifier::opaque]
pub open spec fn made_by(
    m: FloatModel,
    layer: XasrEncoderLayerWeights,
    rows: Seq<u32>,
    sizes: LayerSizes,
) -> Result<LayerValues, Seq<char>> {
    layer_values(
        m,
        layer,
        rows,
        sizes.frames,
        sizes.dim,
        sizes.heads,
        sizes.head_dim,
        sizes.left,
        sizes.filled,
        LayerCaches {
            key: None,
            nonlin_attention: None,
            val1: None,
            val2: None,
            conv1: None,
            conv2: None,
        },
    )
}

/// What the first layers make of rows.
#[verifier::opaque]
pub open spec fn after_layers(
    m: FloatModel,
    layers: Seq<XasrEncoderLayerWeights>,
    rows: Seq<u32>,
    sizes: LayerSizes,
    n: int,
) -> Result<Seq<u32>, (int, Seq<char>)> {
    layers_values(
        m,
        layers,
        rows,
        sizes.frames,
        sizes.dim,
        sizes.heads,
        sizes.head_dim,
        sizes.left,
        sizes.filled,
        n,
    )
}

#[verifier::spinoff_prover]
proof fn lemma_one_more_layer(
    m: FloatModel,
    layers: Seq<XasrEncoderLayerWeights>,
    rows: Seq<u32>,
    sizes: LayerSizes,
    n: int,
)
    requires
        after_layers(m, layers, rows, sizes, n) is Ok,
    ensures
        n <= 0 ==> after_layers(m, layers, rows, sizes, n)->Ok_0 == rows,
        n > 0 ==> after_layers(m, layers, rows, sizes, n - 1) is Ok && made_by(
            m,
            layers[n - 1],
            after_layers(m, layers, rows, sizes, n - 1)->Ok_0,
            sizes,
        ) is Ok && made_by(
            m,
            layers[n - 1],
            after_layers(m, layers, rows, sizes, n - 1)->Ok_0,
            sizes,
        )->Ok_0.rows == after_layers(m, layers, rows, sizes, n)->Ok_0,
{
    reveal(after_layers);
    reveal(made_by);
}

/// Each layer of a stack takes the rows of the one before it, and none of them remembers
/// anything.
pub proof fn law_layers_follow_each_other(
    m: FloatModel,
    layers: Seq<XasrEncoderLayerWeights>,
    rows: Seq<u32>,
    sizes: LayerSizes,
    n: int,
) -> (steps: Seq<Seq<u32>>)
    requires
        0 <= n <= layers.len(),
        after_layers(m, layers, rows, sizes, n) is Ok,
    ensures
        steps.len() == n + 1,
        steps[0] == rows,
        steps[n] == after_layers(m, layers, rows, sizes, n)->Ok_0,
        forall|i: int|
            #![trigger layers[i]]
            0 <= i < n ==> made_by(m, layers[i], steps[i], sizes) is Ok && made_by(
                m,
                layers[i],
                steps[i],
                sizes,
            )->Ok_0.rows == steps[i + 1],
    decreases n,
{
    lemma_one_more_layer(m, layers, rows, sizes, n);
    if n == 0 {
        seq![rows]
    } else {
        let before = law_layers_follow_each_other(m, layers, rows, sizes, n - 1);
        before.push(after_layers(m, layers, rows, sizes, n)->Ok_0)
    }
}

/// What a stack after the first makes on its way.
pub struct StackStages {
    /// The rows of the slower rate.
    pub down: Seq<u32>,
    /// Their number.
    pub groups: int,
    /// How much of the left context holds anything, at the slower rate.
    pub filled: usize,
    /// The rows after the layers.
    pub branch: Seq<u32>,
    /// The same rows at the rate of the encoder.
    pub up: Seq<u32>,
}

/// A stack after the first downsamples the rows by its own logits, takes them through its
/// layers, repeats them to the rate they came in, and leads from the rows that it was given,
/// in its own width, to them.
#[verifier::spinoff_prover]
#[verifier::rlimit(30)]
pub proof fn law_a_stack_works_at_its_own_rate(
    m: FloatModel,
    metadata: XasrZipformerExecutionMetadata,
    weights: XasrEncoderWeights,
    trunk: TrunkValues,
    filled: usize,
    s: int,
) -> (stages: StackStages)
    requires
        0 <= s < weights.stacks@.len(),
        step_values(m, metadata, weights, trunk, filled, s) is Ok,
        weights.stacks@[s].downsample_bias is Some ==> ceil_div(
            trunk.frames as int,
            (weights.stacks@[s].downsample_bias->0)@.len() as int,
        ) * (weights.stacks@[s].downsample_bias->0)@.len() <= usize::MAX,
    ensures
        ({
            let stack = weights.stacks@[s];
            let logits = (stack.downsample_bias->0)@;
            let factor = stack.downsampling_factor as int;
            let dim = stack.dim as int;
            let next = step_values(m, metadata, weights, trunk, filled, s)->Ok_0;
            &&& factor > 0
            &&& stack.downsample_bias is Some
            &&& stack.out_combiner_bypass_scale is Some
            &&& trunk.frames <= stages.groups * logits.len() < trunk.frames + logits.len()
            &&& downsampled(m, trunk.rows, trunk.frames, trunk.dim, stack.dim, logits) == Ok::<
                Seq<u32>,
                Seq<char>,
            >(stages.down)
            &&& filled <= stages.filled * factor < filled + factor
            &&& after_layers(
                m,
                stack.layers@,
                stages.down,
                (LayerSizes {
                    frames: stages.groups as usize,
                    dim: stack.dim,
                    heads: metadata.num_heads@[s],
                    head_dim: metadata.query_head_dims@[s],
                    left: metadata.left_context_len@[s],
                    filled: stages.filled,
                }),
                stack.layers@.len() as int,
            ) == Ok::<Seq<u32>, (int, Seq<char>)>(stages.branch)
            &&& next.dim == stack.dim
            &&& next.frames == stages.groups * logits.len()
            &&& stages.branch.len() == stages.groups * dim ==> forall|t: int, c: int|
                #![trigger stages.up[t * dim + c]]
                0 <= t < next.frames && 0 <= c < dim ==> stages.up[t * dim + c] == entry_or_zero(
                    stages.branch,
                    stages.groups,
                    dim,
                    t / factor,
                    c,
                )
            &&& bypassed(
                m,
                padded_rows(
                    trunk.rows,
                    trunk.frames as int,
                    trunk.dim as int,
                    dim,
                    logits.len() as int,
                ),
                stages.up,
                (stack.out_combiner_bypass_scale->0)@,
                next.frames,
                stack.dim,
            ) == Ok::<Seq<u32>, Seq<char>>(next.rows)
        }),
{
    reveal(step_values);
    reveal(after_layers);
    let stack = weights.stacks@[s];
    let logits = (stack.downsample_bias->0)@;
    let factor = stack.downsampling_factor as int;
    let dim = stack.dim as int;
    let groups = ceil_div(trunk.frames as int, logits.len() as int);
    let down = downsampled(m, trunk.rows, trunk.frames, trunk.dim, stack.dim, logits)->Ok_0;
    let slower = ceil_div(filled as int, factor) as usize;
    let branch = layers_values(
        m,
        stack.layers@,
        down,
        groups as usize,
        stack.dim,
        metadata.num_heads@[s],
        metadata.query_head_dims@[s],
        metadata.left_context_len@[s],
        slower,
        stack.layers@.len() as int,
    )->Ok_0;
    let frames = groups * logits.len();
    let up = upsampled_rows(branch, groups, dim, factor, frames);
    law_groups_hold_all_rows(trunk.frames as int, logits.len() as int);
    law_groups_hold_all_rows(filled as int, factor);
    if branch.len() == groups * dim {
        let part = |t: int| upsampled_row(branch, groups, dim, factor, t);
        assert forall|i: int| 0 <= i < frames implies (#[trigger] part(i)).len() == dim by {
            vstd::arithmetic::div_mod::lemma_div_pos_is_pos(i, factor);
            if i / factor < groups {
                lemma_part_bounds(i / factor, groups, dim);
            }
        }
        assert forall|t: int, c: int|
            #![trigger up[t * dim + c]]
            0 <= t < frames && 0 <= c < dim implies up[t * dim + c] == entry_or_zero(
            branch,
            groups,
            dim,
            t / factor,
            c,
        ) by {
            lemma_joined_at(frames, part, dim, t, c);
            vstd::arithmetic::div_mod::lemma_div_pos_is_pos(t, factor);
            if t / factor < groups {
                lemma_part_bounds(t / factor, groups, dim);
            }
        }
    }
    StackStages { down, groups, filled: slower, branch, up }
}

/// The middle of a row after the fourth stack and the middle of a row after the fifth are
/// kept; every other stack keeps what was kept before.
pub proof fn law_two_stacks_leave_columns_behind(
    trunk: TrunkValues,
    rows: Seq<u32>,
    frames: usize,
    dim: usize,
    s: int,
)
    requires
        with_tails(trunk, rows, frames, dim, s) is Ok,
    ensures
        ({
            let next = with_tails(trunk, rows, frames, dim, s)->Ok_0;
            &&& next.rows == rows
            &&& next.frames == frames
            &&& next.dim == dim
            &&& s != 3 ==> next.tail3 == trunk.tail3
            &&& s != 4 ==> next.tail4 == trunk.tail4
            &&& s == 3 ==> next.tail3 is Some && next.tail3->0.len() == frames * 256 && (forall|
                t: int,
                c: int,
            |
                #![trigger next.tail3->0[t * 256 + c]]
                0 <= t < frames && 0 <= c < 256 ==> next.tail3->0[t * 256 + c] == rows[t * dim
                    + 512 + c])
            &&& s == 4 ==> next.tail4 is Some && next.tail4->0.len() == frames * 256 && (forall|
                t: int,
                c: int,
            |
                #![trigger next.tail4->0[t * 256 + c]]
                0 <= t < frames && 0 <= c < 256 ==> next.tail4->0[t * 256 + c] == rows[t * dim
                    + 256 + c])
        }),
{
    if s == 3 {
        lemma_sliced(rows, frames as int, dim as int, 512, 768);
    }
    if s == 4 {
        lemma_sliced(rows, frames as int, dim as int, 256, 512);
    }
}

proof fn lemma_sliced(rows: Seq<u32>, frames: int, dim: int, start: int, end: int)
    requires
        0 <= frames,
        rows.len() == frames * dim,
        0 <= start < end <= dim,
    ensures
        ({
            let slice = sliced_rows(rows, frames, dim, start, end);
            &&& slice.len() == frames * (end - start)
            &&& forall|t: int, c: int|
                #![trigger slice[t * (end - start) + c]]
                0 <= t < frames && 0 <= c < end - start ==> slice[t * (end - start) + c] == rows[t
                    * dim + start + c]
        }),
{
    let slice = sliced_rows(rows, frames, dim, start, end);
    let part = |t: int| part_of(rows, dim, t).subrange(start, end);
    assert forall|i: int| 0 <= i < frames implies (#[trigger] part(i)).len() == end - start by {
        lemma_part_bounds(i, frames, dim);
    }
    lemma_joined_len(frames, part, end - start);
    assert forall|t: int, c: int|
        #![trigger slice[t * (end - start) + c]]
        0 <= t < frames && 0 <= c < end - start implies slice[t * (end - start) + c] == rows[t * dim
        + start + c] by {
        lemma_joined_at(frames, part, end - start, t, c);
        lemma_part_bounds(t, frames, dim);
    }
}

/// A row that is handed out wide holds the row of the last stack, and after it what the fifth
/// and then the fourth stack left behind.
pub proof fn law_wide_rows_join_three_stacks(trunk: TrunkValues, t: int, c: int)
    requires
        trunk.dim == 256,
        output_rows(trunk, 768) is Ok,
        0 <= t < trunk.frames,
        0 <= c < 256,
    ensures
        ({
            let wide = output_rows(trunk, 768)->Ok_0.0;
            &&& output_rows(trunk, 768)->Ok_0.1 == 768
            &&& wide.len() == trunk.frames * 768
            &&& wide[t * 768 + c] == trunk.rows[t * 256 + c]
            &&& wide[t * 768 + 256 + c] == trunk.tail4->0[t * 256 + c]
            &&& wide[t * 768 + 512 + c] == trunk.tail3->0[t * 256 + c]
        }),
{
    let a = trunk.rows;
    let b = trunk.tail4->0;
    let d = trunk.tail3->0;
    let frames = trunk.frames as int;
    let part = |t: int| part_of(a, 256, t) + part_of(b, 256, t) + part_of(d, 256, t);
    assert(side_by_side(a, b, d, frames) == output_rows(trunk, 768)->Ok_0.0);
    assert forall|i: int| 0 <= i < frames implies (#[trigger] part(i)).len() == 768 by {
        lemma_part_bounds(i, frames, 256);
    }
    lemma_part_bounds(t, frames, 256);
    lemma_joined_at(frames, part, 768, t, c);
    lemma_joined_at(frames, part, 768, t, 256 + c);
    lemma_joined_at(frames, part, 768, t, 512 + c);
}

/// Rows that are not handed out wide are those of the last stack.
pub proof fn law_narrow_rows_are_those_of_the_last_stack(trunk: TrunkValues, dim: usize)
    requires
        dim != 768 || trunk.dim != 256,
    ensures
        output_rows(trunk, dim) is Ok,
        output_rows(trunk, dim)->Ok_0 == (trunk.rows, trunk.dim),
{
}

/// Stack `s` makes of what came before it what comes after it.
pub open spec fn follows(
    m: FloatModel,
    metadata: XasrZipformerExecutionMetadata,
    weights: XasrEncoderWeights,
    trunks: Seq<TrunkValues>,
    filled: usize,
    s: int,
) -> bool {
    step_values(m, metadata, weights, trunks[s - 1], filled, s) == Ok::<TrunkValues, Refusal>(
        trunks[s],
    )
}

/// After the first stack the rows go through every other stack, one after the other, starting
/// with nothing left behind.  What comes out is downsampled once more, to the width of the
/// widest stack.
pub proof fn law_the_encoder_ends_with_one_more_downsampling(
    m: FloatModel,
    metadata: XasrZipformerExecutionMetadata,
    weights: XasrEncoderWeights,
    rows: Seq<u32>,
    frames: usize,
    dim: usize,
    filled: usize,
) -> (trunks: Seq<TrunkValues>)
    requires
        metadata.num_stacks >= 1,
        tail_values(m, metadata, weights, rows, frames, dim, filled) is Ok,
    ensures
        trunks.len() == metadata.num_stacks,
        trunks[0].rows == rows,
        trunks[0].frames == frames,
        trunks[0].dim == dim,
        trunks[0].tail3 is None,
        trunks[0].tail4 is None,
        forall|s: int|
            1 <= s < metadata.num_stacks ==> #[trigger] follows(
                m,
                metadata,
                weights,
                trunks,
                filled,
                s,
            ),
        ({
            let last = trunks.last();
            let width = largest(metadata.encoder_dims@);
            let handed = output_rows(last, width)->Ok_0;
            &&& output_rows(last, width) is Ok
            &&& downsampled(
                m,
                handed.0,
                last.frames,
                handed.1,
                width,
                weights.downsample_output_bias@,
            ) == Ok::<Seq<u32>, Seq<char>>(
                tail_values(m, metadata, weights, rows, frames, dim, filled)->Ok_0,
            )
        }),
{
    let start = TrunkValues { rows, frames, dim, tail3: None, tail4: None };
    lemma_trunks(m, metadata, weights, start, filled, metadata.num_stacks as int)
}

proof fn lemma_trunks(
    m: FloatModel,
    metadata: XasrZipformerExecutionMetadata,
    weights: XasrEncoderWeights,
    start: TrunkValues,
    filled: usize,
    n: int,
) -> (trunks: Seq<TrunkValues>)
    requires
        1 <= n,
        trunk_values(m, metadata, weights, start, filled, n) is Ok,
    ensures
        trunks.len() == n,
        trunks[0] == start,
        trunks.last() == trunk_values(m, metadata, weights, start, filled, n)->Ok_0,
        forall|s: int|
            1 <= s < n ==> #[trigger] follows(m, metadata, weights, trunks, filled, s),
    decreases n,
{
    if n == 1 {
        seq![start]
    } else {
        let before = lemma_trunks(m, metadata, weights, start, filled, n - 1);
        let trunks = before.push(trunk_values(m, metadata, weights, start, filled, n)->Ok_0);
        assert forall|s: int| 1 <= s < n implies #[trigger] follows(
            m,
            metadata,
            weights,
            trunks,
            filled,
            s,
        ) by {
            if s < n - 1 {
                assert(follows(m, metadata, weights, before, filled, s));
            }
        }
        trunks
    }
}

/// The widest stack is as wide as any, and some stack is that wide.
pub proof fn law_the_widest_is_one_of_them(dims: Seq<usize>)
    requires
        dims.len() > 0,
    ensures
        dims.contains(largest(dims)),
        forall|i: int| 0 <= i < dims.len() ==> #[trigger] dims[i] <= largest(dims),
    decreases dims.len(),
{
    if dims.len() > 1 {
        let rest = dims.drop_last();
        law_the_widest_is_one_of_them(rest);
        let i = choose|i: int| 0 <= i < rest.len() && rest[i] == largest(rest);
        assert(dims[i] == largest(rest));
        assert(dims[dims.len() - 1] == dims.last());
        assert forall|i: int| 0 <= i < dims.len() implies #[trigger] dims[i] <= largest(dims) by {
            if i < dims.len() - 1 {
                assert(rest[i] == dims[i]);
            }
        }
    } else {
        assert(dims.drop_last().len() == 0);
        assert(largest(dims.drop_last()) == 0);
        assert(dims[0] == dims.last());
    }
}

} // verus!
