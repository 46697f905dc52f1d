//! What convolutions see, and what they remember.

use vstd::prelude::*;
use crate::attention_laws::{remembered, stretch};
use crate::encoder_tables::{scale_table, scale_value};
use crate::encoder_weights::{XasrConv1dWeights, XasrConvolutionModuleWeights};
use crate::float_ops::FloatModel;
use crate::reference_conv::{
    kernel_refusal, lemma_grid_at, lemma_grid_len, same_rows, same_value, valid_rows, valid_value,
};
use crate::reference_conv_module::{
    cache_or_zeros, channel_rows, convolution_parts, convolution_values, convolved, gated_row,
    gated_rows, left_out,
};
use crate::reference_rows::swooshed_r;
use crate::row_laws::{
    law_rows_go_through_a_matrix_one_by_one, lemma_each_row_at, matrices_fill_rows,
};
use crate::rows::{lemma_joined_at, lemma_joined_len, lemma_part_bounds, part_of};
use crate::sum_laws::{law_a_sum_of_products_adds_every_product, products, summed};

verus! {

/// The kernel of a channel.
pub open spec fn taps(weights: XasrConv1dWeights, c: int) -> Seq<u32> {
    let kernel = weights.weight.dims@[0] as int;
    stretch(weights.weight.values@, c * kernel, kernel)
}

/// The bias of a channel, plus the products of a window with the kernel of the channel.
pub open spec fn windowed(
    m: FloatModel,
    weights: XasrConv1dWeights,
    c: int,
    window: Seq<u32>,
    kernel: Seq<u32>,
) -> u32 {
    summed(m, weights.bias@[c], products(m, window, kernel))
}

/// A convolution without padding sees, at each place, the window that starts there.
pub proof fn law_a_valid_convolution_sees_the_window_that_starts_there(
    m: FloatModel,
    input: Seq<u32>,
    channels: usize,
    len: int,
    weights: XasrConv1dWeights,
    c: int,
    t: int,
)
    requires
        kernel_refusal(weights, channels) is None,
        input.len() == channels * len,
        0 <= c < channels,
        0 <= t,
        t + weights.weight.dims@[0] <= len,
    ensures
        ({
            let kernel = weights.weight.dims@[0] as int;
            let width = len - kernel + 1;
            let result = valid_rows(m, input, channels as int, len, weights);
            &&& result.len() == channels * width
            &&& result[c * width + t] == windowed(
                m,
                weights,
                c,
                stretch(input, c * len + t, kernel),
                taps(weights, c),
            )
        }),
{
    let kernel = weights.weight.dims@[0] as int;
    let at = |c: int, t: int| valid_value(m, input, len, weights, c, t);
    lemma_grid_at(channels as int, len - kernel + 1, at, c, t);
    lemma_part_bounds(c, channels as int, len);
    lemma_part_bounds(c, channels as int, kernel);
    law_a_sum_of_products_adds_every_product(
        m,
        weights.bias@[c],
        input,
        c * len + t,
        weights.weight.values@,
        c * kernel,
        kernel,
    );
}

/// The first tap of a centred kernel that lies over the input, at place `t`.
pub open spec fn first_tap(kernel: int, t: int) -> int {
    if t < kernel / 2 {
        kernel / 2 - t
    } else {
        0
    }
}

/// One past the last tap of a centred kernel that lies over the input, at place `t`.
pub open spec fn end_of_taps(kernel: int, len: int, t: int) -> int {
    if t + kernel - kernel / 2 > len {
        len - t + kernel / 2
    } else {
        kernel
    }
}

proof fn lemma_same(
    m: FloatModel,
    input: Seq<u32>,
    channels: int,
    len: int,
    weights: XasrConv1dWeights,
    c: int,
    t: int,
    n: int,
)
    requires
        0 <= c < channels,
        0 <= t < len,
        0 <= n <= weights.weight.dims@[0],
        input.len() == channels * len,
        weights.weight.values@.len() == channels * weights.weight.dims@[0],
    ensures
        ({
            let kernel = weights.weight.dims@[0] as int;
            let first = first_tap(kernel, t);
            let end = end_of_taps(kernel, len, t);
            let to = if n < first {
                first
            } else if n < end {
                n
            } else {
                end
            };
            same_value(m, input, len, weights, c, t, n) == windowed(
                m,
                weights,
                c,
                stretch(input, c * len + (t + first - kernel / 2), to - first),
                stretch(weights.weight.values@, c * kernel + first, to - first),
            )
        }),
    decreases n,
{
    let kernel = weights.weight.dims@[0] as int;
    let first = first_tap(kernel, t);
    let end = end_of_taps(kernel, len, t);
    let from = c * len + (t + first - kernel / 2);
    lemma_part_bounds(c, channels, len);
    lemma_part_bounds(c, channels, kernel);
    if n == 0 {
        assert(products(
            m,
            stretch(input, from, 0),
            stretch(weights.weight.values@, c * kernel + first, 0),
        ) =~= Seq::empty());
    } else {
        lemma_same(m, input, channels, len, weights, c, t, n - 1);
        if first < n <= end {
            let terms = products(
                m,
                stretch(input, from, n - first),
                stretch(weights.weight.values@, c * kernel + first, n - first),
            );
            assert(terms.drop_last() =~= products(
                m,
                stretch(input, from, n - 1 - first),
                stretch(weights.weight.values@, c * kernel + first, n - 1 - first),
            ));
        }
    }
}

/// A convolution that keeps the length sees, at each place, the window whose middle is there,
/// as far as the input reaches.
pub proof fn law_a_same_convolution_sees_the_window_around(
    m: FloatModel,
    input: Seq<u32>,
    channels: usize,
    len: int,
    weights: XasrConv1dWeights,
    c: int,
    t: int,
)
    requires
        kernel_refusal(weights, channels) is None,
        input.len() == channels * len,
        0 <= c < channels,
        0 <= t < len,
    ensures
        ({
            let kernel = weights.weight.dims@[0] as int;
            let first = first_tap(kernel, t);
            let end = end_of_taps(kernel, len, t);
            let result = same_rows(m, input, channels as int, len, weights);
            &&& 0 <= first <= end <= kernel
            &&& result.len() == channels * len
            &&& result[c * len + t] == windowed(
                m,
                weights,
                c,
                stretch(input, c * len + (t + first - kernel / 2), end - first),
                taps(weights, c).subrange(first, end),
            )
        }),
{
    let kernel = weights.weight.dims@[0] as int;
    let first = first_tap(kernel, t);
    let end = end_of_taps(kernel, len, t);
    let at = |c: int, t: int| same_value(m, input, len, weights, c, t, kernel);
    lemma_grid_at(channels as int, len, at, c, t);
    lemma_same(m, input, channels as int, len, weights, c, t, kernel);
    lemma_part_bounds(c, channels as int, kernel);
    assert(taps(weights, c).subrange(first, end) =~= stretch(
        weights.weight.values@,
        c * kernel + first,
        end - first,
    ));
}

/// The input of a channel: the first half of the projected row of each frame, gated by the
/// sigmoid of the second half, and zero where a frame is left out.
pub open spec fn channel_input(
    m: FloatModel,
    projected: spec_fn(int) -> Seq<u32>,
    mask: Option<Seq<bool>>,
    dim: int,
    frames: int,
    c: int,
) -> Seq<u32> {
    Seq::new(
        frames as nat,
        |t: int|
            if mask is Some && mask->0[t] {
                0
            } else {
                (m.mul)(projected(t)[c], (m.sigmoid)(projected(t)[dim + c]))
            },
    )
}

/// What a channel remembers, followed by its input.
pub open spec fn channel_stream(
    cache: Option<Seq<u32>>,
    input: Seq<u32>,
    channels: int,
    left: int,
    c: int,
) -> Seq<u32> {
    stretch(remembered(cache, channels * left), c * left, left) + input
}

/// The projected rows of a convolution.
pub open spec fn projected_by(
    m: FloatModel,
    weights: XasrConvolutionModuleWeights,
    rows: Seq<u32>,
    dim: int,
) -> spec_fn(int) -> Seq<u32> {
    |t: int|
        (m.apply_linear)(
            weights.in_proj.weight,
            rows.subrange(t * dim, (t + 1) * dim),
            Some(weights.in_proj.bias@),
        )->Ok_0
}

#[verifier::spinoff_prover]
proof fn lemma_channels(
    m: FloatModel,
    weights: XasrConvolutionModuleWeights,
    rows: Seq<u32>,
    frames: int,
    dim: usize,
    mask: Option<Seq<bool>>,
    c: int,
)
    requires
        gated_rows(m, weights, rows, frames, dim) is Ok,
        0 < frames,
        0 <= c < dim,
    ensures
        ({
            let gated = gated_rows(m, weights, rows, frames, dim)->Ok_0;
            let channels = channel_rows(gated, frames, dim as int, mask);
            let projected = projected_by(m, weights, rows, dim as int);
            &&& channels.len() == dim * frames
            &&& stretch(channels, c * frames, frames) == channel_input(
                m,
                projected,
                mask,
                dim as int,
                frames,
                c,
            )
            &&& part_of(channels, frames, c) == stretch(channels, c * frames, frames)
        }),
{
    let gated = gated_rows(m, weights, rows, frames, dim)->Ok_0;
    let channels = channel_rows(gated, frames, dim as int, mask);
    let projected = projected_by(m, weights, rows, dim as int);
    let row = |t: int| gated_row(m, weights, part_of(rows, dim as int, t), dim);
    let at = |c: int, t: int|
        if left_out(mask, t) {
            0u32
        } else {
            gated[t * dim + c]
        };
    lemma_grid_len(dim as int, frames, at);
    lemma_part_bounds(c, dim as int, frames);
    let input = channel_input(m, projected, mask, dim as int, frames, c);
    assert forall|t: int| 0 <= t < frames implies channels[c * frames + t] == input[t] by {
        lemma_grid_at(dim as int, frames, at, c, t);
        lemma_each_row_at(frames, row, dim as int, t);
        lemma_part_bounds(t, frames, dim as int);
        assert(part_of(gated, dim as int, t)[c] == gated[t * dim + c]);
    }
    assert(stretch(channels, c * frames, frames) =~= input);
    assert(part_of(channels, frames, c) =~= stretch(channels, c * frames, frames));
}

/// The convolved value of a channel at a frame: what the causal kernel sees of the stream up
/// to the frame, plus what the centred kernel sees of the chunk, scaled towards the edges of
/// the chunk.
pub open spec fn convolved_value(
    m: FloatModel,
    weights: XasrConvolutionModuleWeights,
    input: Seq<u32>,
    stream: Seq<u32>,
    scale: u32,
    c: int,
    t: int,
) -> u32 {
    let causal = weights.depthwise_causal_conv;
    let centred = weights.depthwise_chunkwise_conv;
    let kernel = centred.weight.dims@[0] as int;
    let first = first_tap(kernel, t);
    let end = end_of_taps(kernel, input.len() as int, t);
    (m.add)(
        windowed(
            m,
            causal,
            c,
            stretch(stream, t, causal.weight.dims@[0] as int),
            taps(causal, c),
        ),
        (m.mul)(
            windowed(
                m,
                centred,
                c,
                stretch(input, t + first - kernel / 2, end - first),
                taps(centred, c).subrange(first, end),
            ),
            scale,
        ),
    )
}

/// A convolution module gates its rows, convolves channel by channel, bends the result and
/// sends it through its second matrix, frame by frame.  Of every channel it remembers the end
/// of what it has seen.
#[verifier::spinoff_prover]
#[verifier::rlimit(60)]
pub proof fn law_a_convolution_module_convolves_channel_by_channel(
    m: FloatModel,
    weights: XasrConvolutionModuleWeights,
    rows: Seq<u32>,
    frames: usize,
    dim: usize,
    cache: Option<Seq<u32>>,
    mask: Option<Seq<bool>>,
)
    requires
        matrices_fill_rows(m),
        frames > 0,
        dim > 0,
        weights.depthwise_chunkwise_conv.weight.dims@.len() == 3,
        weights.depthwise_causal_conv.weight.dims@[0] == 1
            + weights.depthwise_chunkwise_conv.weight.dims@[0] / 2,
        weights.depthwise_causal_conv.weight.dims@[0] + frames <= usize::MAX,
        convolution_values(m, weights, rows, frames, dim, cache, mask) is Ok,
    ensures
        ({
            let result = convolution_values(m, weights, rows, frames, dim, cache, mask)->Ok_0;
            let left = weights.depthwise_causal_conv.weight.dims@[0] - 1;
            let projected = projected_by(m, weights, rows, dim as int);
            let scales = scale_table(m, weights, dim as int, frames as int);
            let out = weights.out_proj.weight.output_dim as int;
            &&& result.depthwise.len() == dim * frames
            &&& forall|c: int, t: int|
                0 <= c < dim && 0 <= t < frames ==> #[trigger] result.depthwise[c * frames + t] == {
                    let input = channel_input(m, projected, mask, dim as int, frames as int, c);
                    convolved_value(
                        m,
                        weights,
                        input,
                        channel_stream(cache, input, dim as int, left, c),
                        scales[c * frames + t],
                        c,
                        t,
                    )
                }
            &&& forall|t: int|
                0 <= t < frames ==> (m.apply_linear)(
                    weights.out_proj.weight,
                    swooshed_r(
                        m,
                        Seq::new(dim as nat, |c: int| result.depthwise[c * frames + t]),
                    ),
                    Some(weights.out_proj.bias@),
                ) == Ok::<Seq<u32>, Seq<char>>(
                    #[trigger] result.rows.subrange(t * out, (t + 1) * out),
                )
            &&& forall|c: int, k: int|
                0 <= c < dim && 0 <= k < left ==> #[trigger] result.cache[c * left + k]
                    == channel_stream(
                    cache,
                    channel_input(m, projected, mask, dim as int, frames as int, c),
                    dim as int,
                    left,
                    c,
                )[frames + k]
            &&& result.cache.len() == dim * left
        }),
{
    let n = frames as int;
    let d = dim as int;
    let left = weights.depthwise_causal_conv.weight.dims@[0] - 1;
    let len = left + n;
    let out = weights.out_proj.weight.output_dim as int;
    let gated = gated_rows(m, weights, rows, n, dim)->Ok_0;
    let parts = convolution_parts(gated, cache, mask, left, n, d);
    let depthwise = convolved(m, weights, parts, left, frames, dim)->Ok_0;
    let projected = projected_by(m, weights, rows, d);
    let before = cache_or_zeros(cache, d * left);
    let channels = parts.channels;
    let result = convolution_values(m, weights, rows, frames, dim, cache, mask)->Ok_0;
    assert(result.depthwise == depthwise);
    assert(0 <= d * left) by (nonlinear_arith)
        requires
            0 <= d,
            0 <= left,
    ;
    assert(before =~= remembered(cache, d * left));
    let stream = |c: int| part_of(before, left, c) + part_of(channels, n, c);
    assert forall|c: int| 0 <= c < dim implies (#[trigger] stream(c)).len() == len && stream(c)
        == channel_stream(
        cache,
        channel_input(m, projected, mask, d, n, c),
        d,
        left,
        c,
    ) by {
        lemma_channels(m, weights, rows, n, dim, mask, c);
        lemma_part_bounds(c, d, left);
        assert(part_of(before, left, c) =~= stretch(before, c * left, left));
    }
    lemma_joined_len(d, stream, len);
    lemma_channels(m, weights, rows, n, dim, mask, 0);
    let causal = weights.depthwise_causal_conv;
    let centred = weights.depthwise_chunkwise_conv;
    let valid = valid_rows(m, parts.cached, d, len, causal);
    let same = same_rows(m, channels, d, n, centred);
    let mixed = |c: int, t: int|
        (m.add)(
            valid[c * n + t],
            (m.mul)(same[c * n + t], scale_value(m, weights, c, t, n)),
        );
    lemma_grid_len(d, n, mixed);
    assert forall|c: int, t: int|
        0 <= c < dim && 0 <= t < frames implies #[trigger] depthwise[c * frames + t] == {
        let input = channel_input(m, projected, mask, d, n, c);
        convolved_value(
            m,
            weights,
            input,
            channel_stream(cache, input, d, left, c),
            scale_table(m, weights, d, n)[c * frames + t],
            c,
            t,
        )
    } by {
        let input = channel_input(m, projected, mask, d, n, c);
        let kernel = centred.weight.dims@[0] as int;
        let first = first_tap(kernel, t);
        let end = end_of_taps(kernel, n, t);
        lemma_grid_at(d, n, mixed, c, t);
        lemma_channels(m, weights, rows, n, dim, mask, c);
        lemma_part_bounds(c, d, len);
        lemma_part_bounds(c, d, n);
        law_a_valid_convolution_sees_the_window_that_starts_there(
            m,
            parts.cached,
            dim,
            len,
            causal,
            c,
            t,
        );
        assert(stream(c).len() == len);
        let seen = stretch(stream(c), t, left + 1);
        assert forall|i: int| 0 <= i < left + 1 implies parts.cached[c * len + t + i] == seen[i] by {
            lemma_joined_at(d, stream, len, c, t + i);
        }
        assert(stretch(parts.cached, c * len + t, left + 1) =~= seen);
        law_a_same_convolution_sees_the_window_around(m, channels, dim, n, centred, c, t);
        assert(stretch(channels, c * n + (t + first - kernel / 2), end - first) =~= stretch(
            stretch(channels, c * n, n),
            t + first - kernel / 2,
            end - first,
        ));
        let scales = |c: int| Seq::new(n as nat, |t: int| scale_value(m, weights, c, t, n));
        lemma_joined_at(d, scales, n, c, t);
        assert(scale_table(m, weights, d, n)[c * n + t] == scale_value(m, weights, c, t, n));
    }
    let turned = channel_rows(depthwise, d, n, None);
    let turn = |t: int, c: int|
        if left_out(None, c) {
            0u32
        } else {
            depthwise[c * n + t]
        };
    lemma_grid_len(n, d, turn);
    let bent = swooshed_r(m, turned);
    assert forall|t: int| 0 <= t < frames implies (m.apply_linear)(
        weights.out_proj.weight,
        swooshed_r(m, Seq::new(dim as nat, |c: int| depthwise[c * frames + t])),
        Some(weights.out_proj.bias@),
    ) == Ok::<Seq<u32>, Seq<char>>(#[trigger] result.rows.subrange(t * out, (t + 1) * out)) by {
        law_rows_go_through_a_matrix_one_by_one(m, weights.out_proj, bent, frames, dim, t);
        lemma_part_bounds(t, n, d);
        let row = swooshed_r(m, Seq::new(dim as nat, |c: int| depthwise[c * frames + t]));
        assert forall|c: int| 0 <= c < dim implies bent[t * d + c] == row[c] by {
            lemma_grid_at(n, d, turn, t, c);
        }
        assert(bent.subrange(t * d, (t + 1) * d) =~= row);
    }
    let last = |c: int| part_of(parts.cached, len, c).subrange(n, n + left);
    assert forall|c: int| 0 <= c < d implies (#[trigger] last(c)).len() == left by {
        lemma_part_bounds(c, d, len);
    }
    lemma_joined_len(d, last, left);
    assert forall|c: int, k: int| 0 <= c < dim && 0 <= k < left implies #[trigger] result.cache[c
        * left + k] == channel_stream(
        cache,
        channel_input(m, projected, mask, d, n, c),
        d,
        left,
        c,
    )[frames + k] by {
        lemma_joined_at(d, last, left, c, k);
        lemma_part_bounds(c, d, len);
        lemma_joined_at(d, stream, len, c, n + k);
        assert(stream(c).len() == len);
    }
}

} // verus!
