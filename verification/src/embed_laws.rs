//! How feature rows become the rows of the encoder.

use vstd::prelude::*;
use vstd::arithmetic::div_mod::{lemma_fundamental_div_mod, lemma_fundamental_div_mod_converse};
use crate::attention_laws::{lemma_inside, remembered};
use crate::encoder_weights::{XasrConv2dWeights, XasrEncoderEmbedWeights};
use crate::float_ops::FloatModel;
use crate::layer_laws::plus;
use crate::reference_conv::lemma_grid_at;
use crate::reference_conv_module::cache_or_zeros;
use crate::reference_embed::{Sliding, Volume};
use crate::reference_embedding::{
    concatenated, convnext_rows, embed_values, embedded_rows, feature_plane, frame_of,
    kept_rows, projected_rows, sliced, subsampled,
};
use crate::reference_rows::{normed, swooshed_l, swooshed_r};
use crate::row_laws::{lemma_each_row_at, matrices_fill_rows};
use crate::rows::{lemma_joined_at, lemma_part_bounds, part_of};

verus! {

/// The number of a tap: inputs outside, then rows, then columns.
pub open spec fn tap_number(kernel_h: int, kernel_w: int, i: int, y: int, x: int) -> int {
    (i * kernel_h + y) * kernel_w + x
}

/// A sum with one more tap: the value under the tap times its weight is added, if the tap lies
/// over the input.
pub open spec fn with_tap(
    m: FloatModel,
    sum: u32,
    input: Volume,
    n: int,
    c: int,
    y: int,
    x: int,
    weight: u32,
) -> u32 {
    if 0 <= y < input.h && 0 <= x < input.w {
        (m.add)(sum, (m.mul)(input.at(n, c, y, x), weight))
    } else {
        sum
    }
}

/// Each value of a convolution starts with the bias of its plane, and tap after tap is added:
/// the taps start at the place of the value times the stride, less the margin, and see the
/// inputs of the group of the plane.
#[verifier::spinoff_prover]
#[verifier::rlimit(30)]
pub proof fn law_a_convolution_adds_tap_after_tap(
    m: FloatModel,
    sliding: Sliding,
    input: Volume,
    weights: XasrConv2dWeights,
    n: int,
    oc: int,
    oh: int,
    ow: int,
) -> (sums: Seq<u32>)
    requires
        sliding.convolved(m, input, weights) is Ok,
        sliding.stride_h > 0,
        sliding.stride_w > 0,
        0 <= n < input.n,
        0 <= oc < sliding.convolved(m, input, weights)->Ok_0.c,
        0 <= oh < sliding.convolved(m, input, weights)->Ok_0.h,
        0 <= ow < sliding.convolved(m, input, weights)->Ok_0.w,
    ensures
        ({
            let dims = weights.weight.dims@;
            let out = sliding.convolved(m, input, weights)->Ok_0;
            let group = oc / (dims[3] as int / sliding.groups as int);
            let high = input.h + sliding.pad_top + sliding.pad_bottom - dims[1];
            let wide = input.w + sliding.pad_left + sliding.pad_right - dims[0];
            &&& out.n == input.n
            &&& out.c == dims[3]
            &&& (out.h - 1) * sliding.stride_h <= high < out.h * sliding.stride_h
            &&& (out.w - 1) * sliding.stride_w <= wide < out.w * sliding.stride_w
            &&& out.data.len() == out.n * out.c * out.h * out.w
            &&& sums.len() == dims[2] * dims[1] * dims[0] + 1
            &&& sums[0] == weights.bias@[oc]
            &&& out.at(n, oc, oh, ow) == sums[dims[2] * dims[1] * dims[0]]
            &&& forall|i: int, y: int, x: int|
                0 <= i < dims[2] && 0 <= y < dims[1] && 0 <= x < dims[0] ==> {
                    let tap = #[trigger] tap_number(dims[1] as int, dims[0] as int, i, y, x);
                    &&& 0 <= tap < sums.len() - 1
                    &&& sums[tap + 1] == with_tap(
                        m,
                        sums[tap],
                        input,
                        n,
                        group * dims[2] + i,
                        oh * sliding.stride_h + y - sliding.pad_top,
                        ow * sliding.stride_w + x - sliding.pad_left,
                        weights.weight.values@[((oc * dims[2] + i) * dims[1] + y) * dims[0] + x],
                    )
                }
        }),
{
    let dims = weights.weight.dims@;
    let kw = dims[0] as int;
    let kh = dims[1] as int;
    let ipg = dims[2] as int;
    let total = dims[2] * dims[1] * dims[0];
    let out = sliding.convolved(m, input, weights)->Ok_0;
    let high = input.h + sliding.pad_top + sliding.pad_bottom - kh;
    let wide = input.w + sliding.pad_left + sliding.pad_right - kw;
    let sh = sliding.stride_h as int;
    let sw = sliding.stride_w as int;
    let out_c = dims[3] as int;
    let out_h = sliding.out_h(input.h, weights);
    let out_w = sliding.out_w(input.w, weights);
    lemma_fundamental_div_mod(high, sh);
    lemma_fundamental_div_mod(wide, sw);
    assert((out.h - 1) * sh <= high < out.h * sh) by (nonlinear_arith)
        requires
            high == sh * (out.h - 1) + high % sh,
            0 <= high % sh < sh,
    ;
    assert((out.w - 1) * sw <= wide < out.w * sw) by (nonlinear_arith)
        requires
            wide == sw * (out.w - 1) + wide % sw,
            0 <= wide % sw < sw,
    ;
    assert(0 <= total) by (nonlinear_arith)
        requires
            total == dims[2] * dims[1] * dims[0],
    ;
    let sums = Seq::new(
        (total + 1) as nat,
        |k: int| sliding.taps(m, input, weights, n, oc, oh, ow, k),
    );
    let at = |r: int, ow: int|
        sliding.taps(
            m,
            input,
            weights,
            (r / out_h) / out_c,
            (r / out_h) % out_c,
            r % out_h,
            ow,
            total,
        );
    lemma_inside(n, input.n, out_c, oc, 1);
    lemma_inside(n * out_c + oc, input.n * out_c, out_h, oh, 1);
    lemma_fundamental_div_mod_converse((n * out_c + oc) * out_h + oh, out_h, n * out_c + oc, oh);
    lemma_fundamental_div_mod_converse(n * out_c + oc, out_c, n, oc);
    lemma_grid_at(input.n * out_c * out_h, out_w, at, (n * out_c + oc) * out_h + oh, ow);
    assert forall|i: int, y: int, x: int|
        0 <= i < dims[2] && 0 <= y < dims[1] && 0 <= x < dims[0] implies {
        let tap = #[trigger] tap_number(dims[1] as int, dims[0] as int, i, y, x);
        &&& 0 <= tap < sums.len() - 1
        &&& sums[tap + 1] == with_tap(
            m,
            sums[tap],
            input,
            n,
            oc / (dims[3] as int / sliding.groups as int) * dims[2] + i,
            oh * sliding.stride_h + y - sliding.pad_top,
            ow * sliding.stride_w + x - sliding.pad_left,
            weights.weight.values@[((oc * dims[2] + i) * dims[1] + y) * dims[0] + x],
        )
    } by {
        let tap = tap_number(kh, kw, i, y, x);
        lemma_inside(i, ipg, kh, y, 1);
        lemma_inside(i * kh + y, ipg * kh, kw, x, 1);
        lemma_fundamental_div_mod_converse(tap, kw, i * kh + y, x);
        lemma_fundamental_div_mod_converse(i * kh + y, kh, i, y);
        assert(oc * (ipg * kh * kw) + ((i * kh + y) * kw + x) == ((oc * ipg + i) * kh + y) * kw + x)
            by (nonlinear_arith);
    }
    sums
}

/// Some rows of every plane.
pub proof fn law_slicing_takes_rows_of_every_plane(
    v: Volume,
    start: int,
    end: int,
    n: int,
    c: int,
    y: int,
    x: int,
)
    requires
        v.wf(),
        0 <= start <= end <= v.h,
        0 <= n < v.n,
        0 <= c < v.c,
        0 <= y < end - start,
        0 <= x < v.w,
    ensures
        ({
            let rows = sliced(v, start, end);
            &&& rows.wf()
            &&& rows.n == v.n
            &&& rows.c == v.c
            &&& rows.h == end - start
            &&& rows.w == v.w
            &&& rows.at(n, c, y, x) == v.at(n, c, start + y, x)
        }),
{
    let planes = v.n * v.c;
    let plane = n * v.c + c;
    let width = (end - start) * v.w;
    let part = |p: int| part_of(v.data, v.h * v.w, p).subrange(start * v.w, end * v.w);
    lemma_inside(n, v.n, v.c, c, 1);
    assert(v.n * v.c * v.h * v.w == planes * (v.h * v.w)) by (nonlinear_arith)
        requires
            planes == v.n * v.c,
    ;
    assert(0 <= start * v.w <= end * v.w && end * v.w <= v.h * v.w && end * v.w - start * v.w == (
    end - start) * v.w) by (nonlinear_arith)
        requires
            0 <= start <= end <= v.h,
            0 <= v.w,
    ;
    assert forall|p: int| 0 <= p < planes implies (#[trigger] part(p)).len() == width by {
        lemma_part_bounds(p, planes, v.h * v.w);
    }
    lemma_inside(y, end - start, v.w, x, 1);
    lemma_joined_at(planes, part, width, plane, y * v.w + x);
    lemma_part_bounds(plane, planes, v.h * v.w);
    assert((plane * (end - start) + y) * v.w + x == plane * ((end - start) * v.w) + (y * v.w + x)
        && (plane * v.h + (start + y)) * v.w + x == plane * (v.h * v.w) + (start * v.w + (y * v.w
        + x)) && v.n * v.c * (end - start) * v.w == planes * ((end - start) * v.w))
        by (nonlinear_arith)
        requires
            planes == v.n * v.c,
    ;
}

/// The rows of one volume, and after them those of another, plane by plane.
pub proof fn law_concatenation_puts_rows_after_rows(
    a: Volume,
    b: Volume,
    n: int,
    c: int,
    y: int,
    x: int,
)
    requires
        a.wf(),
        b.wf(),
        a.n == b.n,
        a.c == b.c,
        a.w == b.w,
        0 <= n < a.n,
        0 <= c < a.c,
        0 <= y < a.h + b.h,
        0 <= x < a.w,
    ensures
        ({
            let both = concatenated(a, b);
            &&& both.wf()
            &&& both.n == a.n
            &&& both.c == a.c
            &&& both.h == a.h + b.h
            &&& both.w == a.w
            &&& both.at(n, c, y, x) == if y < a.h {
                a.at(n, c, y, x)
            } else {
                b.at(n, c, y - a.h, x)
            }
        }),
{
    let planes = a.n * a.c;
    let plane = n * a.c + c;
    let w = a.w;
    let width = (a.h + b.h) * w;
    let part = |p: int| part_of(a.data, a.h * a.w, p) + part_of(b.data, b.h * b.w, p);
    lemma_inside(n, a.n, a.c, c, 1);
    assert(a.n * a.c * a.h * w == planes * (a.h * w) && a.n * a.c * b.h * w == planes * (b.h * w)
        && width == a.h * w + b.h * w && 0 <= a.h * w && 0 <= b.h * w && a.n * a.c * (a.h + b.h) * w
        == planes * width) by (nonlinear_arith)
        requires
            planes == a.n * a.c,
            width == (a.h + b.h) * w,
            0 <= a.h,
            0 <= b.h,
            0 <= w,
    ;
    assert forall|p: int| 0 <= p < planes implies (#[trigger] part(p)).len() == width by {
        lemma_part_bounds(p, planes, a.h * w);
        lemma_part_bounds(p, planes, b.h * w);
    }
    lemma_inside(y, a.h + b.h, w, x, 1);
    lemma_joined_at(planes, part, width, plane, y * w + x);
    lemma_part_bounds(plane, planes, a.h * w);
    lemma_part_bounds(plane, planes, b.h * w);
    assert((plane * (a.h + b.h) + y) * w + x == plane * ((a.h + b.h) * w) + (y * w + x) && (plane
        * a.h + y) * w + x == plane * (a.h * w) + (y * w + x) && (plane * b.h + (y - a.h)) * w + x
        == plane * (b.h * w) + (y * w + x - a.h * w)) by (nonlinear_arith);
    if y < a.h {
        lemma_inside(y, a.h, w, x, 1);
    } else {
        assert(a.h * w <= y * w) by (nonlinear_arith)
            requires
                a.h <= y,
                0 <= w,
        ;
        lemma_inside(y - a.h, b.h, w, x, 1);
        assert((y - a.h) * w == y * w - a.h * w) by (nonlinear_arith);
    }
}

/// The stages of an embedding.
pub struct EmbedStages {
    /// After the first, the second and the third convolution, before they are bent.
    pub first: Volume,
    pub second: Volume,
    pub third: Volume,
    /// The rows that are kept, followed by those of the chunk.
    pub stream: Volume,
    /// After the convolution of each plane by itself, and after the two that mix the planes.
    pub apart: Volume,
    pub mixed: Volume,
    pub narrow: Volume,
    /// The rows with what was made of them added to them.
    pub sum: Volume,
    /// One row for each frame, before it is normed.
    pub projected: Seq<u32>,
}

/// A window that moves by these steps, with a margin on the left and on the right.
pub open spec fn window(down: usize, right: usize, margin: usize, groups: usize) -> Sliding {
    Sliding {
        stride_h: down,
        stride_w: right,
        pad_top: 0,
        pad_left: margin,
        pad_bottom: 0,
        pad_right: margin,
        groups,
    }
}

/// Every value bent to the right.
pub open spec fn bent_right(m: FloatModel, v: Volume) -> Volume {
    Volume { data: swooshed_r(m, v.data), n: v.n, c: v.c, h: v.h, w: v.w }
}

/// Every value bent to the left.
pub open spec fn bent_left(m: FloatModel, v: Volume) -> Volume {
    Volume { data: swooshed_l(m, v.data), n: v.n, c: v.c, h: v.h, w: v.w }
}

/// Feature rows go through three convolutions, each of them bent.  What comes out is put behind
/// the three rows of each plane that are kept.  The planes are convolved one by one and then
/// mixed twice, bent in between, and the result is added to the rows that it belongs to.  Each
/// row of the sum goes through a matrix and is normed.  The last three rows of each plane are
/// kept.
#[verifier::spinoff_prover]
#[verifier::rlimit(40)]
pub proof fn law_an_embedding_convolves_adds_and_projects(
    m: FloatModel,
    weights: XasrEncoderEmbedWeights,
    features: Seq<u32>,
    frames: usize,
    states: Option<Seq<u32>>,
) -> (stages: EmbedStages)
    requires
        matrices_fill_rows(m),
        embed_values(m, weights, features, frames, 80, states) is Ok,
    ensures
        ({
            let result = embed_values(m, weights, features, frames, 80, states)->Ok_0;
            let start = Volume { data: features, n: 1, c: 1, h: frames as int, w: 80 };
            let state = bent_right(m, stages.third);
            let kept = Volume {
                data: remembered(states, 7296),
                n: 1,
                c: 128,
                h: 3,
                w: 19,
            };
            let before = sliced(state, 0, state.h - 3);
            let out = weights.out.weight.output_dim as int;
            let ok = |v: Volume| Ok::<Volume, Seq<char>>(v);
            &&& features.len() == frames * 80
            &&& window(1, 1, 1, 1).convolved(m, start, weights.conv0) == ok(stages.first)
            &&& window(2, 2, 0, 1).convolved(m, bent_right(m, stages.first), weights.conv4) == ok(
                stages.second,
            )
            &&& window(1, 2, 0, 1).convolved(m, bent_right(m, stages.second), weights.conv7) == ok(
                stages.third,
            )
            &&& state.h >= 3
            &&& stages.stream == concatenated(kept, state)
            &&& window(1, 1, 3, 128).convolved(m, stages.stream, weights.convnext_depthwise) == ok(
                stages.apart,
            )
            &&& window(1, 1, 0, 1).convolved(m, stages.apart, weights.convnext_pointwise1) == ok(
                stages.mixed,
            )
            &&& window(1, 1, 0, 1).convolved(
                m,
                bent_left(m, stages.mixed),
                weights.convnext_pointwise2,
            ) == ok(stages.narrow)
            &&& stages.sum == (Volume {
                data: plus(m, before.data, stages.narrow.data),
                n: state.n,
                c: state.c,
                h: state.h - 3,
                w: state.w,
            })
            &&& state.n == 1
            &&& state.c * state.w == weights.out.weight.input_dim
            &&& state.h > 3 ==> stages.projected.len() == (state.h - 3) * out
            &&& forall|t: int|
                0 <= t < state.h - 3 ==> (m.apply_linear)(
                    weights.out.weight,
                    frame_of(stages.sum, t),
                    Some(weights.out.bias@),
                ) == Ok::<Seq<u32>, Seq<char>>(
                    #[trigger] stages.projected.subrange(t * out, (t + 1) * out),
                )
            &&& normed(
                m,
                stages.projected,
                weights.out.weight.output_dim,
                weights.out_norm_bias@,
                weights.out_norm_log_scale@[0],
            ) == Ok::<Seq<u32>, Seq<char>>(result.rows)
            &&& result.states == sliced(stages.stream, state.h - 3, state.h).data
        }),
{
    let start = feature_plane(features, frames as int, 80);
    let first = window(1, 1, 1, 1).convolved(m, start, weights.conv0)->Ok_0;
    let second = window(2, 2, 0, 1).convolved(m, bent_right(m, first), weights.conv4)->Ok_0;
    let third = window(1, 2, 0, 1).convolved(m, bent_right(m, second), weights.conv7)->Ok_0;
    let state = bent_right(m, third);
    assert(first.swooshed_r(m) == bent_right(m, first));
    assert(second.swooshed_r(m) == bent_right(m, second));
    assert(third.swooshed_r(m) == bent_right(m, third));
    assert(subsampled(m, weights, start) == Ok::<Volume, Seq<char>>(third));
    let kept = kept_rows(states);
    assert(cache_or_zeros(states, 7296) =~= remembered(states, 7296));
    let stream = concatenated(kept, state);
    let apart = window(1, 1, 3, 128).convolved(m, stream, weights.convnext_depthwise)->Ok_0;
    let mixed = window(1, 1, 0, 1).convolved(m, apart, weights.convnext_pointwise1)->Ok_0;
    assert(mixed.swooshed_l(m) == bent_left(m, mixed));
    let narrow = window(1, 1, 0, 1).convolved(
        m,
        bent_left(m, mixed),
        weights.convnext_pointwise2,
    )->Ok_0;
    assert(convnext_rows(m, weights, stream) == Ok::<Volume, Seq<char>>(narrow));
    let before = sliced(state, 0, state.h - 3);
    let sum = Volume {
        data: plus(m, before.data, narrow.data),
        n: state.n,
        c: state.c,
        h: state.h - 3,
        w: state.w,
    };
    let out = weights.out.weight.output_dim as int;
    assert(embedded_rows(m, sum, weights) is Ok);
    let projected = projected_rows(m, sum, weights)->Ok_0;
    let row = |t: int|
        (m.apply_linear)(weights.out.weight, frame_of(sum, t), Some(weights.out.bias@));
    assert forall|t: int| 0 <= t < state.h - 3 implies (m.apply_linear)(
        weights.out.weight,
        frame_of(sum, t),
        Some(weights.out.bias@),
    ) == Ok::<Seq<u32>, Seq<char>>(#[trigger] projected.subrange(t * out, (t + 1) * out)) by {
        lemma_each_row_at(sum.h, row, out, t);
    }
    if state.h > 3 {
        lemma_each_row_at(sum.h, row, out, 0);
    }
    EmbedStages { first, second, third, stream, apart, mixed, narrow, sum, projected }
}

/// The row of a frame holds its values plane by plane.
pub proof fn law_a_frame_holds_its_planes_one_after_the_other(v: Volume, t: int, c: int, x: int)
    requires
        v.n == 1,
        0 <= c < v.c,
        0 <= x < v.w,
    ensures
        frame_of(v, t).len() == v.c * v.w,
        frame_of(v, t)[c * v.w + x] == v.at(0, c, t, x),
{
    let at = |c: int, w: int| v.data[(c * v.h + t) * v.w + w];
    lemma_grid_at(v.c, v.w, at, c, x);
    assert(0 * v.c + c == c);
}

} // verus!
