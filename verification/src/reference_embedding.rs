//! The embedding of feature rows on the host, from features to rows.

use vstd::prelude::*;
use vstd::string::StringExecFns;
use crate::decoder::text_outcome;
use crate::encoder_weights::XasrEncoderEmbedWeights;
use crate::float_ops;
use crate::float_ops::{FloatModel, FloatOps};
use crate::reference_conv::grid;
use crate::reference_conv_module::{cache_or_zeros, copy_cache};
use crate::reference_embed::{conv2d_nchw, Sliding, Tensor4, Volume};
use crate::reference_rows::{
    add_frame_rows, apply_swoosh_l, apply_swoosh_r, bias_norm_last_dim, each_row, lemma_index,
    lemma_row_fails, normed, push_all, sums,
};
use crate::rows;
use crate::rows::{joined, part_of};
use crate::text;
use crate::text::decimal;

verus! {

/// What the embedding gives.
#[derive(Clone, Debug, PartialEq)]
pub struct XasrEncoderEmbedReferenceOutput {
    pub frames: usize,
    pub dim: usize,
    /// One row for each frame.
    pub rows: Vec<u32>,
    /// What the next chunk reads of this one.
    pub new_embed_states: Vec<u32>,
}

/// What the embedding gives.
pub struct EmbedValues {
    pub rows: Seq<u32>,
    pub states: Seq<u32>,
}

/// The number of features of a frame.
pub const FEATURE_DIM: usize = 80;

/// The planes, rows and values of a row that one chunk keeps for the next.
pub const STATE_PLANES: usize = 128;

pub const STATE_ROWS: usize = 3;

pub const STATE_WIDTH: usize = 19;

/// The number of values that one chunk keeps for the next.
pub const STATE_LEN: usize = 7296;

/// The sizes of a tensor, in brackets.
pub open spec fn shape_text(v: Volume) -> Seq<char> {
    "["@ + decimal(v.n as nat) + ","@ + decimal(v.c as nat) + ","@ + decimal(v.h as nat) + ","@
        + decimal(v.w as nat) + "]"@
}

fn push_shape(reason: &mut String, tensor: &Tensor4)
    ensures
        final(reason)@ == old(reason)@ + shape_text(tensor.volume()),
{
    let mut shape = text::copy_text("[");
    text::push_number(&mut shape, tensor.n);
    shape.append(",");
    text::push_number(&mut shape, tensor.c);
    shape.append(",");
    text::push_number(&mut shape, tensor.h);
    shape.append(",");
    text::push_number(&mut shape, tensor.w);
    shape.append("]");
    reason.append(shape.as_str());
}

/// Why a tensor is not cut.
pub open spec fn slice_refusal(start: int, end: int, h: int) -> Option<Seq<char>> {
    if start > end || end > h {
        Some(
            "xasr slice_h invalid range "@ + decimal(start as nat) + ".."@ + decimal(end as nat)
                + " for h="@ + decimal(h as nat),
        )
    } else {
        None
    }
}

/// The rows from `start` to `end` of each plane.
pub open spec fn sliced(v: Volume, start: int, end: int) -> Volume {
    Volume {
        data: joined(
            v.n * v.c,
            |p: int| part_of(v.data, v.h * v.w, p).subrange(start * v.w, end * v.w),
        ),
        h: end - start,
        ..v
    }
}

/// The rows of a plane lie within it.
proof fn lemma_plane_rows(v: Volume, start: int, end: int)
    requires
        v.wf(),
        0 <= start <= end <= v.h,
    ensures
        0 <= start * v.w <= end * v.w <= v.h * v.w,
        end * v.w - start * v.w == (end - start) * v.w,
        v.n * v.c * (v.h * v.w) == v.data.len(),
        0 <= v.n * v.c,
        0 <= v.h * v.w,
        v.n * v.c * (end - start) * v.w == v.n * v.c * ((end - start) * v.w),
{
    let planes = v.n * v.c;
    let len = end - start;
    assert(0 <= start * v.w <= end * v.w <= v.h * v.w && end * v.w - start * v.w == len * v.w && 0
        <= v.h * v.w) by (nonlinear_arith)
        requires
            0 <= start <= end <= v.h,
            0 <= v.w,
            len == end - start,
    ;
    assert(planes * v.h * v.w == planes * (v.h * v.w) && planes * len * v.w == planes * (len
        * v.w)) by (nonlinear_arith);
    assert(0 <= planes) by (nonlinear_arith)
        requires
            planes == v.n * v.c,
            0 <= v.n,
            0 <= v.c,
    ;
}

/// Cuts rows out of each plane.
#[verifier::spinoff_prover]
pub fn slice_h(input: &Tensor4, start: usize, end: usize) -> (result: Result<Tensor4, String>)
    requires
        input.volume().wf(),
        input.n * input.c <= usize::MAX,
    ensures
        text_outcome(result, slice_refusal(start as int, end as int, input.h as int)),
        result is Ok ==> result->Ok_0.volume() == sliced(
            input.volume(),
            start as int,
            end as int,
        ) && result->Ok_0.volume().wf(),
{
    if start > end || end > input.h {
        let mut reason = text::copy_text("xasr slice_h invalid range ");
        text::push_number(&mut reason, start);
        reason.append("..");
        text::push_number(&mut reason, end);
        reason.append(" for h=");
        text::push_number(&mut reason, input.h);
        return Err(reason);
    }
    let ghost v = input.volume();
    let ghost part = |p: int|
        part_of(v.data, v.h * v.w, p).subrange(start * v.w, end * v.w);
    let planes = input.n * input.c;
    let mut data: Vec<u32> = Vec::new();
    let mut plane: usize = 0;
    assert(input.data.len() == input.data@.len());
    proof {
        lemma_plane_rows(v, start as int, end as int);
    }
    while plane < planes
        invariant
            plane <= planes,
            planes == v.n * v.c,
            v == input.volume(),
            v.wf(),
            start <= end <= input.h,
            input.data@.len() <= usize::MAX,
            part == (|p: int|
                part_of(v.data, v.h * v.w, p).subrange(start * v.w, end * v.w)),
            data@ == joined(plane as int, part),
        decreases planes - plane,
    {
        proof {
            lemma_plane_rows(v, start as int, end as int);
            rows::lemma_part_bounds(plane as int, planes as int, v.h * v.w);
            let plane_size = v.h * v.w;
            assert(plane_size <= planes * plane_size) by (nonlinear_arith)
                requires
                    1 <= planes,
                    0 <= plane_size,
            ;
        }
        let base = plane * (input.h * input.w);
        let taken = vstd::slice::slice_subrange(
            input.data.as_slice(),
            base + start * input.w,
            base + end * input.w,
        );
        assert(taken@ =~= part(plane as int));
        push_all(&mut data, taken);
        plane = plane + 1;
    }
    proof {
        assert forall|p: int| 0 <= p < planes implies (#[trigger] part(p)).len() == (end - start)
            * v.w by {
            lemma_plane_rows(v, start as int, end as int);
            rows::lemma_part_bounds(p, planes as int, v.h * v.w);
        }
        assert(0 <= (end - start) * v.w) by (nonlinear_arith)
            requires
                start <= end,
                0 <= v.w,
        ;
        rows::lemma_joined_len(planes as int, part, (end - start) * v.w);
    }
    Ok(Tensor4 { data, n: input.n, c: input.c, h: end - start, w: input.w })
}

/// Why tensors are not put together.
pub open spec fn concat_refusal(a: Volume, b: Volume) -> Option<Seq<char>> {
    if a.n != b.n || a.c != b.c || a.w != b.w {
        Some(
            "xasr concat_h shape mismatch lhs="@ + shape_text(a) + " rhs="@ + shape_text(b),
        )
    } else {
        None
    }
}

/// Each plane of the first, followed by that of the second.
pub open spec fn concatenated(a: Volume, b: Volume) -> Volume {
    Volume {
        data: joined(
            a.n * a.c,
            |p: int| part_of(a.data, a.h * a.w, p) + part_of(b.data, b.h * b.w, p),
        ),
        h: a.h + b.h,
        ..a
    }
}

/// Puts the rows of each plane of one tensor behind those of another.
#[verifier::spinoff_prover]
pub fn concat_h(lhs: &Tensor4, rhs: &Tensor4) -> (result: Result<Tensor4, String>)
    requires
        lhs.volume().wf(),
        rhs.volume().wf(),
        lhs.n * lhs.c <= usize::MAX,
        lhs.h + rhs.h <= usize::MAX,
    ensures
        text_outcome(result, concat_refusal(lhs.volume(), rhs.volume())),
        result is Ok ==> result->Ok_0.volume() == concatenated(lhs.volume(), rhs.volume())
            && result->Ok_0.volume().wf(),
{
    if lhs.n != rhs.n || lhs.c != rhs.c || lhs.w != rhs.w {
        let mut reason = text::copy_text("xasr concat_h shape mismatch lhs=");
        push_shape(&mut reason, lhs);
        reason.append(" rhs=");
        push_shape(&mut reason, rhs);
        return Err(reason);
    }
    let ghost a = lhs.volume();
    let ghost b = rhs.volume();
    let ghost part = |p: int| part_of(a.data, a.h * a.w, p) + part_of(b.data, b.h * b.w, p);
    let planes = lhs.n * lhs.c;
    let mut data: Vec<u32> = Vec::new();
    let mut plane: usize = 0;
    assert(lhs.data.len() == lhs.data@.len() && rhs.data.len() == rhs.data@.len());
    while plane < planes
        invariant
            plane <= planes,
            planes == a.n * a.c == b.n * b.c,
            a == lhs.volume(),
            b == rhs.volume(),
            a.wf(),
            b.wf(),
            lhs.data@.len() <= usize::MAX,
            rhs.data@.len() <= usize::MAX,
            part == (|p: int| part_of(a.data, a.h * a.w, p) + part_of(b.data, b.h * b.w, p)),
            data@ == joined(plane as int, part),
        decreases planes - plane,
    {
        proof {
            lemma_plane_rows(a, 0, a.h);
            lemma_plane_rows(b, 0, b.h);
            let a_size = a.h * a.w;
            let b_size = b.h * b.w;
            rows::lemma_part_bounds(plane as int, planes as int, a_size);
            rows::lemma_part_bounds(plane as int, planes as int, b_size);
            assert(a_size <= planes * a_size && b_size <= planes * b_size) by (nonlinear_arith)
                requires
                    1 <= planes,
                    0 <= a_size,
                    0 <= b_size,
            ;
        }
        let ghost before = data@;
        let left_size = lhs.h * lhs.w;
        let left = vstd::slice::slice_subrange(
            lhs.data.as_slice(),
            plane * left_size,
            (plane + 1) * left_size,
        );
        push_all(&mut data, left);
        let right_size = rhs.h * rhs.w;
        let right = vstd::slice::slice_subrange(
            rhs.data.as_slice(),
            plane * right_size,
            (plane + 1) * right_size,
        );
        push_all(&mut data, right);
        assert(data@ =~= before + part(plane as int));
        plane = plane + 1;
    }
    proof {
        lemma_plane_rows(a, 0, a.h);
        lemma_plane_rows(b, 0, b.h);
        let height = a.h + b.h;
        assert(height * a.w == a.h * a.w + b.h * b.w) by (nonlinear_arith)
            requires
                height == a.h + b.h,
                a.w == b.w,
        ;
        assert forall|p: int| 0 <= p < planes implies (#[trigger] part(p)).len() == height
            * a.w by {
            rows::lemma_part_bounds(p, planes as int, a.h * a.w);
            rows::lemma_part_bounds(p, planes as int, b.h * b.w);
        }
        rows::lemma_joined_len(planes as int, part, height * a.w);
        assert(planes * height * a.w == planes * (height * a.w)) by (nonlinear_arith);
    }
    Ok(Tensor4 { data, n: lhs.n, c: lhs.c, h: lhs.h + rhs.h, w: lhs.w })
}

/// Why tensors are not added.
pub open spec fn add_volumes_refusal(a: Volume, b: Volume) -> Option<Seq<char>> {
    if a.n != b.n || a.c != b.c || a.h != b.h || a.w != b.w {
        Some(
            "xasr add_nchw shape mismatch lhs="@ + shape_text(a) + " rhs="@ + shape_text(b),
        )
    } else {
        None
    }
}

/// Adds tensors value by value.
pub fn add_nchw<O: FloatOps>(ops: &O, lhs: &Tensor4, rhs: &Tensor4) -> (result: Result<
    Tensor4,
    String,
>)
    requires
        lhs.volume().wf(),
        rhs.volume().wf(),
    ensures
        text_outcome(result, add_volumes_refusal(lhs.volume(), rhs.volume())),
        result is Ok ==> result->Ok_0.volume().wf() && result->Ok_0.n == lhs.n && result->Ok_0.c
            == lhs.c && result->Ok_0.h == lhs.h && result->Ok_0.w == lhs.w,
        result is Ok && float_ops::functional(ops) ==> result->Ok_0.data@ == sums(
            float_ops::model(ops),
            lhs.data@,
            rhs.data@,
        ),
{
    if lhs.n != rhs.n || lhs.c != rhs.c || lhs.h != rhs.h || lhs.w != rhs.w {
        let mut reason = text::copy_text("xasr add_nchw shape mismatch lhs=");
        push_shape(&mut reason, lhs);
        reason.append(" rhs=");
        push_shape(&mut reason, rhs);
        return Err(reason);
    }
    let data = add_frame_rows(ops, lhs.data.as_slice(), rhs.data.as_slice())?;
    Ok(Tensor4 { data, n: lhs.n, c: lhs.c, h: lhs.h, w: lhs.w })
}

/// Row `t` of all planes of the first item, plane by plane.
pub open spec fn frame_of(v: Volume, t: int) -> Seq<u32> {
    grid(v.c, v.w, |c: int, w: int| v.data[(c * v.h + t) * v.w + w])
}

/// Why a tensor is not projected.
pub open spec fn projection_refusal(
    v: Volume,
    weights: XasrEncoderEmbedWeights,
) -> Option<Seq<char>> {
    if v.n != 1 {
        Some("xasr encoder embed expected batch=1, got "@ + decimal(v.n as nat))
    } else if v.c * v.w != weights.out.weight.input_dim {
        Some(
            "xasr encoder embed projection input dim "@ + decimal((v.c * v.w) as nat)
                + ", expected "@ + decimal(weights.out.weight.input_dim as nat),
        )
    } else {
        None
    }
}

/// The rows of a tensor, each through a matrix.
pub open spec fn projected_rows(
    m: FloatModel,
    v: Volume,
    weights: XasrEncoderEmbedWeights,
) -> Result<Seq<u32>, Seq<char>> {
    each_row(
        v.h,
        |t: int| (m.apply_linear)(weights.out.weight, frame_of(v, t), Some(weights.out.bias@)),
    )
}

/// The rows of a tensor, each through a matrix and normalised, or why they are
/// not.
pub open spec fn embedded_rows(
    m: FloatModel,
    v: Volume,
    weights: XasrEncoderEmbedWeights,
) -> Result<Seq<u32>, Seq<char>> {
    match projection_refusal(v, weights) {
        Some(reason) => Err(reason),
        None => match projected_rows(m, v, weights) {
            Err(reason) => Err(reason),
            Ok(projected) => normed(
                m,
                projected,
                weights.out.weight.output_dim,
                weights.out_norm_bias@,
                weights.out_norm_log_scale@[0],
            ),
        },
    }
}

/// Takes a row out of all planes.
#[verifier::spinoff_prover]
fn take_frame(state: &Tensor4, t: usize) -> (frame: Vec<u32>)
    requires
        state.volume().wf(),
        state.n == 1,
        t < state.h,
    ensures
        frame@ == frame_of(state.volume(), t as int),
{
    let ghost v = state.volume();
    let ghost at = |c: int, w: int| v.data[(c * v.h + t) * v.w + w];
    let ghost part = |c: int| Seq::new(v.w as nat, |w: int| at(c, w));
    let mut frame: Vec<u32> = Vec::new();
    let mut c: usize = 0;
    assert(state.data.len() == state.data@.len());
    assert(1 * v.c == v.c) by (nonlinear_arith);
    while c < state.c
        invariant
            c <= state.c,
            v == state.volume(),
            v.wf(),
            v.n == 1,
            1 * v.c == v.c,
            t < state.h,
            state.data@.len() <= usize::MAX,
            at == (|c: int, w: int| v.data[(c * v.h + t) * v.w + w]),
            part == (|c: int| Seq::new(v.w as nat, |w: int| at(c, w))),
            frame@ == joined(c as int, part),
        decreases state.c - c,
    {
        let ghost row = c * v.h + t;
        if state.w > 0 {
            proof {
                lemma_index(c as int, v.c, t as int, v.h);
                rows::lemma_part_bounds(row, v.c * v.h, v.w);
                assert(row <= row * v.w) by (nonlinear_arith)
                    requires
                        0 <= row,
                        1 <= v.w,
                ;
                assert(c <= c * v.h) by (nonlinear_arith)
                    requires
                        0 <= c,
                        1 <= v.h,
                ;
            }
            let from = (c * state.h + t) * state.w;
            let taken = vstd::slice::slice_subrange(
                state.data.as_slice(),
                from,
                from + state.w,
            );
            assert(taken@ =~= part(c as int));
            push_all(&mut frame, taken);
        } else {
            assert(part(c as int) =~= Seq::empty());
            assert(frame@ =~= frame@ + part(c as int));
        }
        c = c + 1;
    }
    frame
}

/// Projects each row of a tensor and normalises it.
#[verifier::spinoff_prover]
pub fn project_embed_out<O: FloatOps>(
    ops: &O,
    state: &Tensor4,
    weights: &XasrEncoderEmbedWeights,
) -> (result: Result<Vec<u32>, String>)
    requires
        state.volume().wf(),
        state.c * state.w <= usize::MAX,
        weights.out_norm_log_scale@.len() > 0,
    ensures
        projection_refusal(state.volume(), *weights) is Some ==> text_outcome(
            result,
            projection_refusal(state.volume(), *weights),
        ),
        result is Ok ==> weights.out.weight.output_dim > 0,
        result is Ok && float_ops::sized(ops) ==> result->Ok_0@.len() == state.h
            * weights.out.weight.output_dim,
        float_ops::functional(ops) ==> float_ops::result_view(result) == embedded_rows(
            float_ops::model(ops),
            state.volume(),
            *weights,
        ),
{
    if state.n != 1 {
        let mut reason = text::copy_text("xasr encoder embed expected batch=1, got ");
        text::push_number(&mut reason, state.n);
        return Err(reason);
    }
    let frame_input_dim = state.c * state.w;
    if frame_input_dim != weights.out.weight.input_dim {
        let mut reason = text::copy_text("xasr encoder embed projection input dim ");
        text::push_number(&mut reason, frame_input_dim);
        reason.append(", expected ");
        text::push_number(&mut reason, weights.out.weight.input_dim);
        return Err(reason);
    }
    let ghost m = float_ops::model(ops);
    let ghost v = state.volume();
    let ghost row_of = |t: int|
        (m.apply_linear)(weights.out.weight, frame_of(v, t), Some(weights.out.bias@));
    let width = weights.out.weight.output_dim;
    let mut rows: Vec<u32> = Vec::new();
    let mut t: usize = 0;
    assert(0 * width == 0) by (nonlinear_arith);
    while t < state.h
        invariant
            t <= state.h,
            state.volume().wf(),
            state.n == 1,
            m == float_ops::model(ops),
            v == state.volume(),
            width == weights.out.weight.output_dim,
            row_of == (|t: int|
                (m.apply_linear)(weights.out.weight, frame_of(v, t), Some(weights.out.bias@))),
            float_ops::sized(ops) ==> rows@.len() == t * width,
            float_ops::functional(ops) ==> each_row(t as int, row_of) == Ok::<
                Seq<u32>,
                Seq<char>,
            >(rows@),
            float_ops::functional(ops) ==> projected_rows(m, v, *weights) == each_row(
                v.h,
                row_of,
            ),
            frame_input_dim == weights.out.weight.input_dim,
            frame_input_dim == state.c * state.w,
        decreases state.h - t,
    {
        assert(t * width + width == (t + 1) * width) by (nonlinear_arith);
        let frame = take_frame(state, t);
        let out = match ops.apply_linear(
            &weights.out.weight,
            frame.as_slice(),
            Some(weights.out.bias.as_slice()),
        ) {
            Ok(out) => out,
            Err(reason) => {
                proof {
                    if float_ops::functional(ops) {
                        assert(row_of(t as int) == Err::<Seq<u32>, Seq<char>>(reason@));
                        lemma_row_fails(t as int, v.h, row_of);
                    }
                }
                return Err(reason);
            },
        };
        proof {
            if float_ops::functional(ops) {
                assert(row_of(t as int) == Ok::<Seq<u32>, Seq<char>>(out@));
            }
        }
        push_all(&mut rows, out.as_slice());
        t = t + 1;
    }
    bias_norm_last_dim(
        ops,
        rows.as_slice(),
        weights.out.weight.output_dim,
        weights.out_norm_bias.as_slice(),
        weights.out_norm_log_scale[0],
    )
}

/// How the first kernel slides.
pub open spec fn conv0_sliding() -> Sliding {
    Sliding {
        stride_h: 1,
        stride_w: 1,
        pad_top: 0,
        pad_left: 1,
        pad_bottom: 0,
        pad_right: 1,
        groups: 1,
    }
}

fn slide_conv0() -> (sliding: Sliding)
    ensures
        sliding == conv0_sliding(),
{
    Sliding {
        stride_h: 1,
        stride_w: 1,
        pad_top: 0,
        pad_left: 1,
        pad_bottom: 0,
        pad_right: 1,
        groups: 1,
    }
}

/// How the second kernel slides.
pub open spec fn conv4_sliding() -> Sliding {
    Sliding {
        stride_h: 2,
        stride_w: 2,
        pad_top: 0,
        pad_left: 0,
        pad_bottom: 0,
        pad_right: 0,
        groups: 1,
    }
}

fn slide_conv4() -> (sliding: Sliding)
    ensures
        sliding == conv4_sliding(),
{
    Sliding {
        stride_h: 2,
        stride_w: 2,
        pad_top: 0,
        pad_left: 0,
        pad_bottom: 0,
        pad_right: 0,
        groups: 1,
    }
}

/// How the third kernel slides.
pub open spec fn conv7_sliding() -> Sliding {
    Sliding {
        stride_h: 1,
        stride_w: 2,
        pad_top: 0,
        pad_left: 0,
        pad_bottom: 0,
        pad_right: 0,
        groups: 1,
    }
}

fn slide_conv7() -> (sliding: Sliding)
    ensures
        sliding == conv7_sliding(),
{
    Sliding {
        stride_h: 1,
        stride_w: 2,
        pad_top: 0,
        pad_left: 0,
        pad_bottom: 0,
        pad_right: 0,
        groups: 1,
    }
}

/// How the depthwise kernel slides.
pub open spec fn depthwise_sliding() -> Sliding {
    Sliding {
        stride_h: 1,
        stride_w: 1,
        pad_top: 0,
        pad_left: 3,
        pad_bottom: 0,
        pad_right: 3,
        groups: 128,
    }
}

fn slide_depthwise() -> (sliding: Sliding)
    ensures
        sliding == depthwise_sliding(),
{
    Sliding {
        stride_h: 1,
        stride_w: 1,
        pad_top: 0,
        pad_left: 3,
        pad_bottom: 0,
        pad_right: 3,
        groups: 128,
    }
}

/// How a kernel of one value slides.
pub open spec fn pointwise_sliding() -> Sliding {
    Sliding {
        stride_h: 1,
        stride_w: 1,
        pad_top: 0,
        pad_left: 0,
        pad_bottom: 0,
        pad_right: 0,
        groups: 1,
    }
}

fn slide_pointwise() -> (sliding: Sliding)
    ensures
        sliding == pointwise_sliding(),
{
    Sliding {
        stride_h: 1,
        stride_w: 1,
        pad_top: 0,
        pad_left: 0,
        pad_bottom: 0,
        pad_right: 0,
        groups: 1,
    }
}

/// Feature rows as one plane.
pub open spec fn feature_plane(x: Seq<u32>, frames: int, feature_dim: int) -> Volume {
    Volume { data: x, n: 1, c: 1, h: frames, w: feature_dim }
}

/// What the previous chunk kept.
pub open spec fn kept_rows(states: Option<Seq<u32>>) -> Volume {
    Volume {
        data: cache_or_zeros(states, STATE_LEN as int),
        n: 1,
        c: STATE_PLANES as int,
        h: STATE_ROWS as int,
        w: STATE_WIDTH as int,
    }
}

/// Why features are not embedded.
pub open spec fn features_refusal(
    len: int,
    frames: usize,
    feature_dim: usize,
) -> Option<Seq<char>> {
    if feature_dim != FEATURE_DIM {
        Some("xasr encoder embed expected feature_dim=80, got "@ + decimal(feature_dim as nat))
    } else if len != frames * feature_dim {
        Some(
            "xasr encoder embed input has "@ + decimal(len as nat) + " values, expected "@ + decimal(
                (frames * feature_dim) as nat,
            ),
        )
    } else {
        None
    }
}

/// Why what the previous chunk kept is refused.
pub open spec fn states_refusal(states: Option<Seq<u32>>) -> Option<Seq<char>> {
    if states is Some && states->0.len() != STATE_LEN {
        Some(
            "xasr tensor 'embed_states' has "@ + decimal(states->0.len()) + " values, expected "@
                + decimal(STATE_LEN as nat),
        )
    } else {
        None
    }
}

/// The convolved features, or why there are none.
pub open spec fn subsampled(
    m: FloatModel,
    weights: XasrEncoderEmbedWeights,
    start: Volume,
) -> Result<
    Volume,
    Seq<char>,
> {
    match conv0_sliding().convolved(m, start, weights.conv0) {
        Err(reason) => Err(reason),
        Ok(a) => match conv4_sliding().convolved(m, a.swooshed_r(m), weights.conv4) {
            Err(reason) => Err(reason),
            Ok(b) => match conv7_sliding().convolved(m, b.swooshed_r(m), weights.conv7) {
                Err(reason) => Err(reason),
                Ok(c) => Ok(c),
            },
        },
    }
}

/// The rows of the tensor after the depthwise module, or why there are none.
pub open spec fn convnext_rows(
    m: FloatModel,
    weights: XasrEncoderEmbedWeights,
    concat: Volume,
) -> Result<
    Volume,
    Seq<char>,
> {
    match depthwise_sliding().convolved(m, concat, weights.convnext_depthwise) {
        Err(reason) => Err(reason),
        Ok(depthwise) => match pointwise_sliding().convolved(m, depthwise, weights.convnext_pointwise1) {
            Err(reason) => Err(reason),
            Ok(wide) => match pointwise_sliding().convolved(
                m,
                wide.swooshed_l(m),
                weights.convnext_pointwise2,
            ) {
                Err(reason) => Err(reason),
                Ok(narrow) => Ok(narrow),
            },
        },
    }
}

/// What the embedding gives of the convolved features, or why it fails.
pub open spec fn embed_tail(
    m: FloatModel,
    weights: XasrEncoderEmbedWeights,
    state: Volume,
    states: Option<Seq<u32>>,
) -> Result<EmbedValues, Seq<char>> {
    let residual = sliced(state, 0, state.h - 3);
    let concat = concatenated(kept_rows(states), state);
    if state.h < 3 {
        Err("xasr embed h < 3"@)
    } else if states_refusal(states) is Some {
        Err(states_refusal(states)->0)
    } else if concat_refusal(kept_rows(states), state) is Some {
        Err(concat_refusal(kept_rows(states), state)->0)
    } else {
        match convnext_rows(m, weights, concat) {
            Err(reason) => Err(reason),
            Ok(convnext) => if add_volumes_refusal(residual, convnext) is Some {
                Err(add_volumes_refusal(residual, convnext)->0)
            } else {
                match embedded_rows(
                    m,
                    Volume { data: sums(m, residual.data, convnext.data), ..residual },
                    weights,
                ) {
                    Err(reason) => Err(reason),
                    Ok(out) => Ok(
                        EmbedValues {
                            rows: out,
                            states: sliced(concat, state.h - 3, state.h).data,
                        },
                    ),
                }
            },
        }
    }
}

/// What the embedding gives, or why it fails.
pub open spec fn embed_values(
    m: FloatModel,
    weights: XasrEncoderEmbedWeights,
    x: Seq<u32>,
    frames: usize,
    feature_dim: usize,
    states: Option<Seq<u32>>,
) -> Result<EmbedValues, Seq<char>> {
    match features_refusal(x.len() as int, frames, feature_dim) {
        Some(reason) => Err(reason),
        None => match subsampled(m, weights, feature_plane(x, frames as int, feature_dim as int)) {
            Err(reason) => Err(reason),
            Ok(state) => embed_tail(m, weights, state.swooshed_r(m), states),
        },
    }
}

/// The sizes of the convolved features.
pub open spec fn subsampled_h(weights: XasrEncoderEmbedWeights, frames: int) -> int {
    let a = conv0_sliding().out_h(frames, weights.conv0);
    let b = conv4_sliding().out_h(a, weights.conv4);
    conv7_sliding().out_h(b, weights.conv7)
}

pub open spec fn subsampled_w(weights: XasrEncoderEmbedWeights) -> int {
    let a = conv0_sliding().out_w(FEATURE_DIM as int, weights.conv0);
    let b = conv4_sliding().out_w(a, weights.conv4);
    conv7_sliding().out_w(b, weights.conv7)
}

/// The first three convolutions can run on this many frames.
pub open spec fn subsampling_can_run(weights: XasrEncoderEmbedWeights, frames: usize) -> bool {
    let h0 = frames as int;
    let w0 = FEATURE_DIM as int;
    let c1 = weights.conv0.weight.dims@[3] as int;
    let h1 = conv0_sliding().out_h(h0, weights.conv0);
    let w1 = conv0_sliding().out_w(w0, weights.conv0);
    let c2 = weights.conv4.weight.dims@[3] as int;
    let h2 = conv4_sliding().out_h(h1, weights.conv4);
    let w2 = conv4_sliding().out_w(w1, weights.conv4);
    &&& conv0_sliding().can_run(1, 1, h0, w0, weights.conv0)
    &&& conv4_sliding().can_run(1, c1, h1, w1, weights.conv4)
    &&& conv7_sliding().can_run(1, c2, h2, w2, weights.conv7)
}

/// The depthwise module can run on this many rows.
pub open spec fn convnext_can_run(weights: XasrEncoderEmbedWeights, h: int) -> bool {
    let w = STATE_WIDTH as int;
    let c1 = weights.convnext_depthwise.weight.dims@[3] as int;
    let h1 = depthwise_sliding().out_h(h, weights.convnext_depthwise);
    let w1 = depthwise_sliding().out_w(w, weights.convnext_depthwise);
    let c2 = weights.convnext_pointwise1.weight.dims@[3] as int;
    let h2 = pointwise_sliding().out_h(h1, weights.convnext_pointwise1);
    let w2 = pointwise_sliding().out_w(w1, weights.convnext_pointwise1);
    &&& depthwise_sliding().can_run(1, STATE_PLANES as int, h, w, weights.convnext_depthwise)
    &&& pointwise_sliding().can_run(1, c1, h1, w1, weights.convnext_pointwise1)
    &&& pointwise_sliding().can_run(1, c2, h2, w2, weights.convnext_pointwise2)
}

/// The embedding can run on this many frames: the sizes of its parts can be
/// counted, and it holds the values that they read.
pub open spec fn embedding_can_run(weights: XasrEncoderEmbedWeights, frames: usize) -> bool {
    &&& frames * FEATURE_DIM <= usize::MAX
    &&& subsampling_can_run(weights, frames)
    &&& subsampled_h(weights, frames as int) + STATE_ROWS <= usize::MAX
    &&& convnext_can_run(weights, STATE_ROWS + subsampled_h(weights, frames as int))
    &&& weights.out_norm_log_scale@.len() > 0
}

/// Runs the first three convolutions.
#[verifier::spinoff_prover]
#[verifier::rlimit(40)]
fn subsample<O: FloatOps>(
    ops: &O,
    weights: &XasrEncoderEmbedWeights,
    start: &Tensor4,
    frames: usize,
) -> (result: Result<Tensor4, String>)
    requires
        start.volume().wf(),
        start.n == 1,
        start.c == 1,
        start.h == frames,
        start.w == FEATURE_DIM,
        subsampling_can_run(*weights, frames),
    ensures
        result is Ok ==> {
            &&& result->Ok_0.volume().wf()
            &&& result->Ok_0.n == 1
            &&& result->Ok_0.h == subsampled_h(*weights, frames as int)
            &&& result->Ok_0.w == subsampled_w(*weights)
        },
        float_ops::functional(ops) ==> match subsampled(
            float_ops::model(ops),
            *weights,
            start.volume(),
        ) {
            Ok(v) => result is Ok && result->Ok_0.volume() == v,
            Err(reason) => result is Err && result->Err_0@ == reason,
        },
{
    let mut a = conv2d_nchw(ops, start, &weights.conv0, &slide_conv0())?;
    apply_swoosh_r(ops, &mut a.data);
    let mut b = conv2d_nchw(ops, &a, &weights.conv4, &slide_conv4())?;
    apply_swoosh_r(ops, &mut b.data);
    conv2d_nchw(ops, &b, &weights.conv7, &slide_conv7())
}

/// Runs the depthwise module.
#[verifier::spinoff_prover]
#[verifier::rlimit(40)]
fn run_convnext<O: FloatOps>(
    ops: &O,
    weights: &XasrEncoderEmbedWeights,
    concat: &Tensor4,
) -> (result: Result<Tensor4, String>)
    requires
        concat.volume().wf(),
        concat.n == 1,
        concat.c == STATE_PLANES,
        concat.w == STATE_WIDTH,
        convnext_can_run(*weights, concat.h as int),
    ensures
        result is Ok ==> result->Ok_0.volume().wf(),
        float_ops::functional(ops) ==> match convnext_rows(
            float_ops::model(ops),
            *weights,
            concat.volume(),
        ) {
            Ok(v) => result is Ok && result->Ok_0.volume() == v,
            Err(reason) => result is Err && result->Err_0@ == reason,
        },
{
    let depthwise = conv2d_nchw(ops, concat, &weights.convnext_depthwise, &slide_depthwise())?;
    let mut wide = conv2d_nchw(
        ops,
        &depthwise,
        &weights.convnext_pointwise1,
        &slide_pointwise(),
    )?;
    apply_swoosh_l(ops, &mut wide.data);
    conv2d_nchw(ops, &wide, &weights.convnext_pointwise2, &slide_pointwise())
}

/// What follows the convolved features.
#[verifier::spinoff_prover]
#[verifier::rlimit(60)]
fn finish_embed_rows<O: FloatOps>(
    ops: &O,
    weights: &XasrEncoderEmbedWeights,
    state: &Tensor4,
    embed_states: Option<&[u32]>,
) -> (result: Result<(Vec<u32>, Vec<u32>), String>)
    requires
        state.volume().wf(),
        state.n == 1,
        state.h + STATE_ROWS <= usize::MAX,
        state.c * state.w <= usize::MAX,
        convnext_can_run(*weights, STATE_ROWS + state.h),
        weights.out_norm_log_scale@.len() > 0,
    ensures
        result is Ok ==> weights.out.weight.output_dim > 0 && state.h >= 3,
        result is Ok ==> result->Ok_0.1@.len() == STATE_LEN,
        result is Ok && float_ops::sized(ops) ==> result->Ok_0.0@.len() == (state.h - 3)
            * weights.out.weight.output_dim,
        float_ops::functional(ops) ==> match embed_tail(
            float_ops::model(ops),
            *weights,
            state.volume(),
            float_ops::option_view(embed_states),
        ) {
            Ok(v) => result is Ok && result->Ok_0.0@ == v.rows && result->Ok_0.1@ == v.states,
            Err(reason) => result is Err && result->Err_0@ == reason,
        },
{
    if state.h < 3 {
        return Err(text::copy_text("xasr embed h < 3"));
    }
    assert(1 * state.c <= usize::MAX) by (nonlinear_arith);
    let residual = slice_h(state, 0, state.h - 3)?;
    let cached = Tensor4 {
        data: copy_cache(embed_states, STATE_LEN),
        n: 1,
        c: STATE_PLANES,
        h: STATE_ROWS,
        w: STATE_WIDTH,
    };
    if cached.data.len() != STATE_LEN {
        let mut reason = text::copy_text("xasr tensor 'embed_states' has ");
        text::push_number(&mut reason, cached.data.len());
        reason.append(" values, expected ");
        text::push_number(&mut reason, STATE_LEN);
        return Err(reason);
    }
    assert(cached.volume() == kept_rows(float_ops::option_view(embed_states)));
    assert(cached.volume().wf()) by {
        assert(1 * 128 * 3 * 19 == 7296);
    }
    let concat = concat_h(&cached, state)?;
    let new_states = slice_h(&concat, state.h - 3, state.h)?;
    let convnext = run_convnext(ops, weights, &concat)?;
    let total = add_nchw(ops, &residual, &convnext)?;
    let projected = project_embed_out(ops, &total, weights)?;
    proof {
        assert(1 * 128 * 3 * 19 == 7296);
        assert(new_states.volume().wf());
    }
    Ok((projected, new_states.data))
}

/// Embeds feature rows.
#[verifier::spinoff_prover]
#[verifier::rlimit(40)]
pub fn encode_embed_reference<O: FloatOps>(
    ops: &O,
    weights: &XasrEncoderEmbedWeights,
    x: &[u32],
    frames: usize,
    feature_dim: usize,
    embed_states: Option<&[u32]>,
) -> (result: Result<XasrEncoderEmbedReferenceOutput, String>)
    requires
        float_ops::sized(ops),
        feature_dim == FEATURE_DIM ==> embedding_can_run(*weights, frames),
    ensures
        features_refusal(x@.len() as int, frames, feature_dim) is Some ==> text_outcome(
            result,
            features_refusal(x@.len() as int, frames, feature_dim),
        ),
        result is Ok ==> {
            let output = result->Ok_0;
            &&& output.dim == weights.out.weight.output_dim
            &&& output.dim > 0
            &&& output.frames == subsampled_h(*weights, frames as int) - 3
            &&& output.rows@.len() == output.frames * output.dim
            &&& output.new_embed_states@.len() == STATE_LEN
        },
        float_ops::functional(ops) ==> match embed_values(
            float_ops::model(ops),
            *weights,
            x@,
            frames,
            feature_dim,
            float_ops::option_view(embed_states),
        ) {
            Ok(values) => {
                &&& result is Ok
                &&& result->Ok_0.rows@ == values.rows
                &&& result->Ok_0.new_embed_states@ == values.states
            },
            Err(reason) => result is Err && result->Err_0@ == reason,
        },
{
    if feature_dim != FEATURE_DIM {
        let mut reason = text::copy_text("xasr encoder embed expected feature_dim=80, got ");
        text::push_number(&mut reason, feature_dim);
        return Err(reason);
    }
    let expected = frames * feature_dim;
    if x.len() != expected {
        let mut reason = text::copy_text("xasr encoder embed input has ");
        text::push_number(&mut reason, x.len());
        reason.append(" values, expected ");
        text::push_number(&mut reason, expected);
        return Err(reason);
    }
    let mut data: Vec<u32> = Vec::new();
    push_all(&mut data, x);
    assert(data@ =~= x@);
    let start = Tensor4 { data, n: 1, c: 1, h: frames, w: feature_dim };
    proof {
        assert(1 * 1 * frames * feature_dim == frames * feature_dim) by (nonlinear_arith);
    }
    let mut state = subsample(ops, weights, &start, frames)?;
    apply_swoosh_r(ops, &mut state.data);
    proof {
        if state.h >= 1 {
            assert(state.c * state.w <= 1 * state.c * state.h * state.w) by (nonlinear_arith)
                requires
                    1 <= state.h,
                    0 <= state.c,
                    0 <= state.w,
            ;
            assert(state.data.len() == state.data@.len());
        }
    }
    if state.h < 3 {
        return Err(text::copy_text("xasr embed h < 3"));
    }
    let (rows, new_embed_states) = finish_embed_rows(ops, weights, &state, embed_states)?;
    let dim = weights.out.weight.output_dim;
    proof {
        let kept = state.h - 3;
        vstd::arithmetic::div_mod::lemma_div_by_multiple(kept, dim as int);
    }
    let out_frames = rows.len() / dim;
    Ok(XasrEncoderEmbedReferenceOutput { frames: out_frames, dim, rows, new_embed_states })
}

} // verus!
